//! The persisted records (batches, documents, extractions), their status
//! values, and the configuration the pipeline consumes.
use vstd::prelude::*;
use crate::confidence::Confidence;

verus! {

/// The status of a batch.
#[derive(Debug, Clone, Copy, PartialEq, Eq, Structural)]
pub enum BatchStatus {
    Pending,
    Processing,
    Completed,
    PartiallyCompleted,
    Failed,
}

/// The stored name of a batch status.
pub open spec fn batch_status_text(s: BatchStatus) -> Seq<char> {
    match s {
        BatchStatus::Pending => "pending"@,
        BatchStatus::Processing => "processing"@,
        BatchStatus::Completed => "completed"@,
        BatchStatus::PartiallyCompleted => "partially_completed"@,
        BatchStatus::Failed => "failed"@,
    }
}

impl BatchStatus {
    /// A status from which processing does not move on by itself.
    pub open spec fn is_terminal(self) -> bool {
        self == BatchStatus::Completed || self == BatchStatus::PartiallyCompleted || self
            == BatchStatus::Failed
    }

    /// The stored name of the status.
    pub fn as_str(self) -> (r: &'static str)
        ensures
            r@ == batch_status_text(self),
    {
        match self {
            BatchStatus::Pending => "pending",
            BatchStatus::Processing => "processing",
            BatchStatus::Completed => "completed",
            BatchStatus::PartiallyCompleted => "partially_completed",
            BatchStatus::Failed => "failed",
        }
    }
}

/// The status of a document.
#[derive(Debug, Clone, Copy, PartialEq, Eq, Structural)]
pub enum DocStatus {
    Pending,
    Processing,
    Completed,
    Failed,
}

/// The stored name of a document status.
pub open spec fn doc_status_text(s: DocStatus) -> Seq<char> {
    match s {
        DocStatus::Pending => "pending"@,
        DocStatus::Processing => "processing"@,
        DocStatus::Completed => "completed"@,
        DocStatus::Failed => "failed"@,
    }
}

impl DocStatus {
    /// The stored name of the status.
    pub fn as_str(self) -> (r: &'static str)
        ensures
            r@ == doc_status_text(self),
    {
        match self {
            DocStatus::Pending => "pending",
            DocStatus::Processing => "processing",
            DocStatus::Completed => "completed",
            DocStatus::Failed => "failed",
        }
    }
}

/// A batch: documents uploaded and processed together.
#[derive(Debug, Clone)]
pub struct Batch {
    pub id: String,
    pub name: String,
    pub status: String,
    pub total_files: i32,
    pub processed_files: i32,
    pub failed_files: i32,
    pub model_name: Option<String>,
    pub created_at: String,
    pub updated_at: String,
    pub completed_at: Option<String>,
}

/// One uploaded file of a batch.
#[derive(Debug, Clone)]
pub struct Document {
    pub id: String,
    pub batch_id: String,
    /// The name the file is stored under.
    pub filename: String,
    /// The name the file was uploaded with.
    pub original_name: String,
    pub content_type: String,
    pub file_size: i64,
    pub file_path: String,
    pub status: String,
    pub error_message: Option<String>,
    pub created_at: String,
    pub updated_at: String,
}

/// The structured result derived from one document.
pub struct Extraction {
    pub id: String,
    pub document_id: String,
    pub batch_id: String,
    pub document_type: String,
    pub raw_text: Option<String>,
    pub structured_data: Option<serde_json::Value>,
    pub confidence: Confidence,
    pub model_used: Option<String>,
    pub processing_time_ms: i64,
    pub created_at: String,
}

impl Extraction {
    /// The score lies in `[0.0, 1.0]`, and is 0.0 where there is no structured data.
    pub open spec fn wf(&self) -> bool {
        &&& self.confidence.wf()
        &&& self.structured_data is None ==> self.confidence.bits == 0
    }
}

/// Where the HTTP server listens.
#[derive(Debug, Clone)]
pub struct ServerSettings {
    pub host: String,
    pub port: u16,
}

/// Where the store keeps its database.
#[derive(Debug, Clone)]
pub struct DatabaseSettings {
    pub path: String,
}

/// Where uploads are kept, and how large one file may be.
#[derive(Debug, Clone)]
pub struct StorageSettings {
    pub upload_dir: String,
    pub max_file_size_mb: u64,
}

/// How many documents are worked on at once.
#[derive(Debug, Clone)]
pub struct ProcessingSettings {
    pub max_concurrent: usize,
}

} // verus!
