//! The batch-processing state machine. The library decides; the caller runs
//! the extractors and the model calls, persists what it is handed, and
//! reports back. A batch moves `pending → processing → completed |
//! partially_completed | failed`; each document ends `completed` or
//! `failed`, and each outcome is counted once and broadcast.
use vstd::prelude::*;
use crate::classify::{classify_document_type, classify_spec};
use crate::confidence::Confidence;
use crate::extract::{ExtractedImage, ExtractedPdf};
use crate::llm::{LlmError, LlmResponse};
use crate::model::{batch_status_text, Batch, BatchStatus, DocStatus, Document, Extraction};
use crate::prompts::{decimal_of, push_decimal};
use crate::store::{
    document_index, extraction_index, extractions_wf, updated_row, DocumentDao, ExtractionDao,
    Store, StoreError,
};
use crate::text::{chars_of, is_text, push_all, push_str, string_of};

verus! {

/// Why an upload was refused.
#[derive(Debug, Clone, Copy, PartialEq, Eq, Structural)]
pub enum UploadError {
    /// The request held no file.
    NoFiles,
    /// A file is larger than the configured limit.
    TooLarge,
}

/// Bytes in a megabyte.
pub const MEGABYTE: u64 = 1048576;

/// Accept a file of `len` bytes under a limit of `max_mb` megabytes: a file
/// of exactly the limit is accepted, one byte more is not.
pub fn check_file_size(len: u64, max_mb: u64) -> (r: Result<(), UploadError>)
    ensures
        r is Err <==> len as int > max_mb as int * MEGABYTE as int,
        r matches Err(e) ==> e == UploadError::TooLarge,
{
    if max_mb > u64::MAX / MEGABYTE {
        assert(max_mb as int * MEGABYTE as int >= u64::MAX) by (nonlinear_arith)
            requires max_mb > u64::MAX / MEGABYTE, MEGABYTE == 1048576;
        Ok(())
    } else {
        assert(max_mb as int * MEGABYTE as int <= u64::MAX) by (nonlinear_arith)
            requires max_mb <= u64::MAX / MEGABYTE, MEGABYTE == 1048576;
        if len > max_mb * MEGABYTE {
            Err(UploadError::TooLarge)
        } else {
            Ok(())
        }
    }
}

/// The name a file is stored under: a random prefix, `_`, its original name.
pub fn stored_name(prefix: &str, original_name: &str) -> (r: String)
    ensures
        r@ == prefix@ + "_"@ + original_name@,
{
    let mut out = chars_of(prefix);
    push_str(&mut out, "_");
    push_str(&mut out, original_name);
    string_of(&out)
}

/// What the extractor of a document produced.
pub enum ExtractedContent {
    /// Text to hand to the text model.
    Text(String),
    /// A scanned PDF at this path: its pages need the vision model.
    NeedsVisionPdf(String),
    /// An image with these bytes: it needs the vision model.
    NeedsVisionImage(Vec<u8>),
}

/// The content of a PDF: a scanned one goes to the vision model.
pub fn pdf_content(pdf: ExtractedPdf, path: &str) -> (r: ExtractedContent)
    ensures
        pdf.is_scanned ==> (r matches ExtractedContent::NeedsVisionPdf(p) && p@ == path@),
        !pdf.is_scanned ==> (r matches ExtractedContent::Text(t) && t@ == pdf.text@),
{
    if pdf.is_scanned {
        ExtractedContent::NeedsVisionPdf(String::from_str(path))
    } else {
        ExtractedContent::Text(pdf.text)
    }
}

/// The content of an image: its bytes go to the vision model where it
/// needs it; otherwise its text goes to the text model.
pub fn image_content(img: ExtractedImage, bytes: Vec<u8>) -> (r: ExtractedContent)
    ensures
        img.needs_llm_vision ==> (r matches ExtractedContent::NeedsVisionImage(b) && b@ == bytes@),
        !img.needs_llm_vision ==> (r matches ExtractedContent::Text(t) && t@ == img.text@),
{
    if img.needs_llm_vision {
        ExtractedContent::NeedsVisionImage(bytes)
    } else {
        ExtractedContent::Text(img.text)
    }
}

/// The error message of a document whose file is missing.
pub const FILE_NOT_FOUND: &'static str = "File not found on disk";

/// The raw text of a scanned PDF when vision is disabled.
pub const SCANNED_PLACEHOLDER: &'static str =
    "[Scanned PDF — no text extracted. Vision model not configured.]";

/// The raw text of an image when vision is disabled.
pub const IMAGE_PLACEHOLDER: &'static str =
    "[Image — requires vision LLM. Vision model not configured.]";

/// The first step of a document: whether its file is there to be read.
pub open spec fn start_status(file_exists: bool) -> DocStatus {
    if file_exists {
        DocStatus::Processing
    } else {
        DocStatus::Failed
    }
}

/// The status a document takes when its worker starts, and the error it
/// records where it fails at once.
pub fn start_document(file_exists: bool) -> (r: (DocStatus, Option<&'static str>))
    ensures
        r.0 == start_status(file_exists),
        file_exists ==> r.1 is None,
        !file_exists ==> (r.1 matches Some(m) && m@ == FILE_NOT_FOUND@),
{
    if file_exists {
        (DocStatus::Processing, None)
    } else {
        (DocStatus::Failed, Some(FILE_NOT_FOUND))
    }
}

/// The first extraction row of a document, before any model call.
pub struct NewExtraction {
    pub document_type: String,
    pub raw_text: String,
}

/// What to do with extracted content.
pub enum DocPlan {
    /// Record this extraction, then call the text model with its raw text
    /// and type.
    TextModel(NewExtraction),
    /// Record this placeholder extraction; the document is complete.
    Placeholder(NewExtraction),
    /// Render the pages of the PDF at this path, then call [`vision_pdf_extraction`].
    RenderPages(String),
    /// Record this extraction, then call the vision model with the image.
    VisionImage(NewExtraction, Vec<u8>),
}

/// The raw text of an image sent to the vision model.
pub open spec fn image_raw_text(len: nat) -> Seq<char> {
    "[Vision: 1 image processed ("@ + decimal_of(len) + " bytes)]"@
}

/// The raw text of rendered PDF pages sent to the vision model.
pub open spec fn pages_raw_text(n: nat) -> Seq<char> {
    "[Vision: "@ + decimal_of(n) + " pages processed]"@
}

/// Decide what to do with extracted content: text is classified and goes to
/// the text model; content that needs vision gets a placeholder where
/// vision is disabled.
pub fn plan_document(content: ExtractedContent, vision_enabled: bool) -> (r: DocPlan)
    ensures
        content matches ExtractedContent::Text(t) ==> (r matches DocPlan::TextModel(e)
            && e.raw_text@ == t@ && e.document_type@ == classify_spec(t@)),
        content matches ExtractedContent::NeedsVisionPdf(p) ==> if vision_enabled {
            r matches DocPlan::RenderPages(q) && q@ == p@
        } else {
            r matches DocPlan::Placeholder(e) && e.raw_text@ == SCANNED_PLACEHOLDER@
                && e.document_type@ == "other"@
        },
        content matches ExtractedContent::NeedsVisionImage(b) ==> if vision_enabled {
            r matches DocPlan::VisionImage(e, c) && c@ == b@ && e.raw_text@ == image_raw_text(
                b@.len(),
            ) && e.document_type@ == "other"@
        } else {
            r matches DocPlan::Placeholder(e) && e.raw_text@ == IMAGE_PLACEHOLDER@
                && e.document_type@ == "other"@
        },
{
    match content {
        ExtractedContent::Text(t) => {
            let ty = classify_document_type(t.as_str());
            DocPlan::TextModel(NewExtraction { document_type: String::from_str(ty), raw_text: t })
        },
        ExtractedContent::NeedsVisionPdf(p) => {
            if vision_enabled {
                DocPlan::RenderPages(p)
            } else {
                DocPlan::Placeholder(
                    NewExtraction {
                        document_type: String::from_str("other"),
                        raw_text: String::from_str(SCANNED_PLACEHOLDER),
                    },
                )
            }
        },
        ExtractedContent::NeedsVisionImage(b) => {
            if vision_enabled {
                let mut t = chars_of("[Vision: 1 image processed (");
                push_decimal(&mut t, b.len() as u64);
                push_str(&mut t, " bytes)]");
                let e = NewExtraction {
                    document_type: String::from_str("other"),
                    raw_text: string_of(&t),
                };
                DocPlan::VisionImage(e, b)
            } else {
                DocPlan::Placeholder(
                    NewExtraction {
                        document_type: String::from_str("other"),
                        raw_text: String::from_str(IMAGE_PLACEHOLDER),
                    },
                )
            }
        },
    }
}

/// The extraction row of a scanned PDF whose pages were rendered, before
/// the vision call.
pub fn vision_pdf_extraction(page_count: usize) -> (r: NewExtraction)
    ensures
        r.raw_text@ == pages_raw_text(page_count as nat),
        r.document_type@ == "other"@,
{
    let mut t = chars_of("[Vision: ");
    push_decimal(&mut t, page_count as u64);
    push_str(&mut t, " pages processed]");
    NewExtraction { document_type: String::from_str("other"), raw_text: string_of(&t) }
}

/// The extraction row as first recorded: no structured data, score 0.0.
pub fn initial_extraction(
    id: String,
    doc: &Document,
    e: NewExtraction,
    extract_ms: i64,
    created_at: String,
) -> (r: Extraction)
    ensures
        r.wf(),
        r.id == id,
        r.document_id == doc.id,
        r.batch_id == doc.batch_id,
        r.document_type == e.document_type,
        r.raw_text == Some(e.raw_text),
        r.structured_data is None,
        r.confidence.bits == 0,
        r.model_used is None,
        r.processing_time_ms == extract_ms,
{
    Extraction {
        id,
        document_id: doc.id.clone(),
        batch_id: doc.batch_id.clone(),
        document_type: e.document_type,
        raw_text: Some(e.raw_text),
        structured_data: None,
        confidence: Confidence::zero(),
        model_used: None,
        processing_time_ms: extract_ms,
        created_at,
    }
}

/// `a + b`, held at the bounds of `i64`.
pub open spec fn sat_add(a: i64, b: i64) -> i64 {
    if a + b > i64::MAX {
        i64::MAX
    } else if a + b < i64::MIN {
        i64::MIN
    } else {
        (a + b) as i64
    }
}

fn add_saturating(a: i64, b: i64) -> (r: i64)
    ensures
        r == sat_add(a, b),
{
    if b > 0 && a > i64::MAX - b {
        i64::MAX
    } else if b < 0 && a < i64::MIN - b {
        i64::MIN
    } else {
        a + b
    }
}

/// Apply the outcome of a model call to the recorded extraction: a result
/// replaces its type, data, score and model, and adds the model's time to
/// the extraction time; a failure leaves it as it was. Either way the
/// document is complete.
pub fn apply_model_outcome(
    e: Extraction,
    outcome: Result<LlmResponse, LlmError>,
    extract_ms: i64,
) -> (r: (Extraction, DocStatus))
    requires
        e.wf(),
        outcome matches Ok(resp) ==> resp.confidence.wf(),
    ensures
        r.0.wf(),
        r.1 == DocStatus::Completed,
        r.0.id == e.id,
        r.0.document_id == e.document_id,
        r.0.batch_id == e.batch_id,
        r.0.raw_text == e.raw_text,
        outcome is Err ==> r.0 == e,
        outcome matches Ok(resp) ==> {
            &&& r.0.document_type == resp.document_type
            &&& r.0.structured_data == Some(resp.structured_data)
            &&& r.0.confidence == resp.confidence
            &&& r.0.model_used == Some(resp.model_used)
            &&& r.0.processing_time_ms == sat_add(extract_ms, resp.processing_time_ms)
        },
{
    match outcome {
        Ok(resp) => {
            let t = add_saturating(extract_ms, resp.processing_time_ms);
            (
                Extraction {
                    document_type: resp.document_type,
                    structured_data: Some(resp.structured_data),
                    confidence: resp.confidence,
                    model_used: Some(resp.model_used),
                    processing_time_ms: t,
                    ..e
                },
                DocStatus::Completed,
            )
        },
        Err(_) => (e, DocStatus::Completed),
    }
}

/// A progress event, broadcast to every subscriber.
#[derive(Debug, Clone)]
pub struct ProgressEvent {
    pub batch_id: String,
    pub document_id: String,
    pub document_name: String,
    pub status: String,
    pub message: String,
    pub processed: i32,
    pub failed: i32,
    pub total: i32,
}

/// The final status of a batch from its counts: completed without
/// failures, failed without successes, partially completed otherwise.
pub open spec fn final_status_of(processed: int, failed: int) -> BatchStatus {
    if failed == 0 {
        BatchStatus::Completed
    } else if processed == 0 {
        BatchStatus::Failed
    } else {
        BatchStatus::PartiallyCompleted
    }
}

/// The counters of a batch being processed.
pub struct BatchRun {
    pub batch_id: String,
    pub total: i32,
    pub processed: i32,
    pub failed: i32,
}

impl BatchRun {
    /// No more outcomes are counted than there are documents.
    pub open spec fn wf(&self) -> bool {
        &&& 0 <= self.processed
        &&& 0 <= self.failed
        &&& self.processed + self.failed <= self.total
    }

    /// Every document's outcome has been counted.
    pub open spec fn done(&self) -> bool {
        self.processed + self.failed == self.total
    }
}

/// Whether a batch found `processing` must be reset before it is processed
/// again (its last run ended abnormally).
pub fn needs_reset(batch: &Batch) -> (r: bool)
    ensures
        r == (batch.status@ == "processing"@),
{
    is_text(&chars_of(batch.status.as_str()), "processing")
}

/// The ids of the documents left `processing`, in order.
pub open spec fn processing_ids(docs: Seq<Document>) -> Seq<String>
    decreases docs.len(),
{
    if docs.len() == 0 {
        Seq::empty()
    } else if docs.last().status@ == "processing"@ {
        processing_ids(docs.drop_last()).push(docs.last().id)
    } else {
        processing_ids(docs.drop_last())
    }
}

/// The documents to put back to `pending` when a stuck batch is reset.
pub fn documents_to_reset(docs: &Vec<Document>) -> (r: Vec<String>)
    ensures
        r@ == processing_ids(docs@),
{
    let mut r: Vec<String> = Vec::new();
    let mut k: usize = 0;
    while k < docs.len()
        invariant
            k <= docs@.len(),
            r@ == processing_ids(docs@.subrange(0, k as int)),
        decreases docs@.len() - k,
    {
        assert(docs@.subrange(0, k + 1).drop_last() =~= docs@.subrange(0, k as int));
        if needs_reset_doc(&docs[k]) {
            r.push(docs[k].id.clone());
        }
        k = k + 1;
    }
    assert(docs@.subrange(0, docs@.len() as int) =~= docs@);
    r
}

fn needs_reset_doc(doc: &Document) -> (r: bool)
    ensures
        r == (doc.status@ == "processing"@),
{
    is_text(&chars_of(doc.status.as_str()), "processing")
}

/// The start of a batch run.
pub struct BatchStart {
    /// The counters, all zero.
    pub run: BatchRun,
    /// The batch was left `processing` by a run that ended abnormally, and
    /// is put back to `pending` before it is processed again.
    pub reset_batch: bool,
    /// The documents left `processing`, to be put back to `pending`.
    pub reset_documents: Vec<String>,
}

/// Start processing a batch with these documents. A batch found
/// `processing` is not refused: it is reset, with its documents that are
/// still `processing`, and processed again.
pub fn begin_batch(batch: &Batch, docs: &Vec<Document>) -> (r: BatchStart)
    requires
        docs@.len() <= i32::MAX,
    ensures
        r.run.wf(),
        r.run.batch_id == batch.id,
        r.run.total == docs@.len(),
        r.run.processed == 0,
        r.run.failed == 0,
        r.reset_batch == (batch.status@ == "processing"@),
        r.reset_documents@ == processing_ids(docs@),
{
    BatchStart {
        run: BatchRun { batch_id: batch.id.clone(), total: docs.len() as i32, processed: 0, failed: 0 },
        reset_batch: needs_reset(batch),
        reset_documents: documents_to_reset(docs),
    }
}

/// The counts (processed, failed) after one more outcome.
pub open spec fn counts_step(c: (int, int), success: bool) -> (int, int) {
    if success {
        (c.0 + 1, c.1)
    } else {
        (c.0, c.1 + 1)
    }
}

/// The counts after the outcomes `outcomes` (true: processed, false:
/// failed), from none counted.
pub open spec fn counts_after(outcomes: Seq<bool>) -> (int, int)
    decreases outcomes.len(),
{
    if outcomes.len() == 0 {
        (0, 0)
    } else {
        counts_step(counts_after(outcomes.drop_last()), outcomes.last())
    }
}

impl BatchRun {
    /// Count the outcome of one document and give the event that reports it,
    /// with the counts as they now stand.
    pub fn record(&mut self, doc: &Document, success: bool, message: String) -> (ev: ProgressEvent)
        requires
            old(self).wf(),
            !old(self).done(),
        ensures
            final(self).wf(),
            (final(self).processed as int, final(self).failed as int) == counts_step(
                (old(self).processed as int, old(self).failed as int),
                success,
            ),
            final(self).batch_id == old(self).batch_id,
            final(self).total == old(self).total,
            success ==> final(self).processed == old(self).processed + 1 && final(self).failed
                == old(self).failed,
            !success ==> final(self).failed == old(self).failed + 1 && final(self).processed
                == old(self).processed,
            ev.batch_id == old(self).batch_id,
            ev.document_id == doc.id,
            ev.document_name == doc.original_name,
            ev.status@ == (if success { "completed"@ } else { "failed"@ }),
            ev.message == message,
            ev.processed == final(self).processed,
            ev.failed == final(self).failed,
            ev.total == final(self).total,
    {
        if success {
            self.processed = self.processed + 1;
        } else {
            self.failed = self.failed + 1;
        }
        ProgressEvent {
            batch_id: self.batch_id.clone(),
            document_id: doc.id.clone(),
            document_name: doc.original_name.clone(),
            status: String::from_str(if success { "completed" } else { "failed" }),
            message,
            processed: self.processed,
            failed: self.failed,
            total: self.total,
        }
    }

    /// The final status of the batch and the event that closes it, which
    /// names no document.
    pub fn finish(&self, message: String) -> (r: (BatchStatus, ProgressEvent))
        requires
            self.wf(),
        ensures
            r.0 == final_status_of(self.processed as int, self.failed as int),
            r.0.is_terminal(),
            r.1.batch_id == self.batch_id,
            r.1.document_id@.len() == 0,
            r.1.document_name@.len() == 0,
            r.1.status@ == batch_status_text(r.0),
            r.1.message == message,
            r.1.processed == self.processed,
            r.1.failed == self.failed,
            r.1.total == self.total,
    {
        let status = if self.failed == 0 {
            BatchStatus::Completed
        } else if self.processed == 0 {
            BatchStatus::Failed
        } else {
            BatchStatus::PartiallyCompleted
        };
        let ev = ProgressEvent {
            batch_id: self.batch_id.clone(),
            document_id: string_of(&Vec::new()),
            document_name: string_of(&Vec::new()),
            status: String::from_str(status.as_str()),
            message,
            processed: self.processed,
            failed: self.failed,
            total: self.total,
        };
        (status, ev)
    }
}

/// After one outcome per document, counted from none by [`BatchRun::record`],
/// every document is counted once, as processed or as failed, and the
/// status that [`BatchRun::finish`] gives is terminal.
pub proof fn lemma_batch_counts_every_document(outcomes: Seq<bool>)
    ensures
        counts_after(outcomes).0 + counts_after(outcomes).1 == outcomes.len(),
        counts_after(outcomes).0 >= 0,
        counts_after(outcomes).1 >= 0,
        final_status_of(counts_after(outcomes).0, counts_after(outcomes).1).is_terminal(),
    decreases outcomes.len(),
{
    if outcomes.len() > 0 {
        lemma_batch_counts_every_document(outcomes.drop_last());
    }
}

/// A batch without documents completes: its run starts with nothing to
/// count, so the only event is the one that closes it, and that status is
/// `completed`.
pub proof fn lemma_empty_batch_completes(run: BatchRun)
    requires
        run.wf(),
        run.total == 0,
    ensures
        run.done(),
        final_status_of(run.processed as int, run.failed as int) == BatchStatus::Completed,
{
}

/// The number of extraction rows that reference a document.
pub open spec fn extractions_for(rows: Seq<Extraction>, document_id: Seq<char>) -> nat
    decreases rows.len(),
{
    if rows.len() == 0 {
        0
    } else {
        extractions_for(rows.drop_last(), document_id) + if rows.last().document_id@
            == document_id {
            1nat
        } else {
            0nat
        }
    }
}

proof fn lemma_extractions_for_update(rows: Seq<Extraction>, i: int, e: Extraction, document_id: Seq<
    char,
>)
    requires
        0 <= i < rows.len(),
        e.document_id == rows[i].document_id,
    ensures
        extractions_for(rows.update(i, e), document_id) == extractions_for(rows, document_id),
    decreases rows.len(),
{
    if i < rows.len() - 1 {
        assert(rows.update(i, e).drop_last() =~= rows.drop_last().update(i, e));
        lemma_extractions_for_update(rows.drop_last(), i, e, document_id);
    } else {
        assert(rows.update(i, e).drop_last() =~= rows.drop_last());
    }
}

/// Record the first extraction row of a document, before any model call.
pub fn record_initial_extraction(
    store: &mut Store,
    doc: &Document,
    new: &NewExtraction,
    extract_ms: i64,
) -> (r: Result<Extraction, StoreError>)
    requires
        extractions_wf(old(store).extractions@),
    ensures
        extractions_wf(final(store).extractions@),
        final(store).batches == old(store).batches,
        final(store).documents == old(store).documents,
        r is Err ==> final(store).extractions == old(store).extractions,
        r matches Ok(e) ==> {
            &&& e.wf()
            &&& final(store).extractions@ == old(store).extractions@.push(e)
            &&& extraction_index(old(store).extractions@, e.id@) == -1
            &&& e.document_id@ == doc.id@
            &&& e.batch_id@ == doc.batch_id@
            &&& e.document_type@ == new.document_type@
            &&& e.raw_text matches Some(t) && t@ == new.raw_text@
            &&& e.structured_data is None
            &&& e.confidence.bits == 0
            &&& e.processing_time_ms == extract_ms
            &&& extractions_for(final(store).extractions@, doc.id@) == extractions_for(
                old(store).extractions@,
                doc.id@,
            ) + 1
        },
{
    let r = ExtractionDao::create(
        store,
        doc.id.as_str(),
        doc.batch_id.as_str(),
        new.document_type.as_str(),
        Some(new.raw_text.as_str()),
        None,
        Confidence::zero(),
        None,
        extract_ms,
    );
    proof {
        if r is Ok {
            let rows = store.extractions@;
            assert(rows.drop_last() =~= old(store).extractions@);
            assert forall|i: int| 0 <= i < rows.len() implies (#[trigger] rows[i]).confidence.wf() by {
                if i < rows.len() - 1 {
                    assert(rows[i] == old(store).extractions@[i]);
                }
            }
        }
    }
    r
}

/// Apply a model outcome to a recorded extraction and complete its
/// document: the row is overwritten in one step (unchanged where the model
/// call failed), no row is added or removed, and the document is marked
/// `completed`.
pub fn record_model_outcome(
    store: &mut Store,
    doc: &Document,
    e: Extraction,
    outcome: Result<LlmResponse, LlmError>,
    extract_ms: i64,
) -> (r: Result<(), StoreError>)
    requires
        extractions_wf(old(store).extractions@),
        e.wf(),
        outcome matches Ok(resp) ==> resp.confidence.wf(),
        extraction_index(old(store).extractions@, e.id@) >= 0
            ==> old(store).extractions@[extraction_index(old(store).extractions@, e.id@)].document_id
            == e.document_id,
    ensures
        extractions_wf(final(store).extractions@),
        final(store).batches == old(store).batches,
        final(store).extractions@.len() == old(store).extractions@.len(),
        forall|d: Seq<char>|
            #[trigger] extractions_for(final(store).extractions@, d) == extractions_for(
                old(store).extractions@,
                d,
            ),
        r is Ok ==> document_index(final(store).documents@, doc.id@) >= 0
            && final(store).documents@[document_index(final(store).documents@, doc.id@)].status@
            == "completed"@,
        extraction_index(old(store).extractions@, e.id@) == -1 ==> r is Err,
{
    let (updated, status) = apply_model_outcome(e, outcome, extract_ms);
    let ghost before = store.extractions@;
    let u = ExtractionDao::update_structured(
        store,
        updated.id.as_str(),
        updated.document_type.as_str(),
        match &updated.structured_data {
            Some(v) => Some(v),
            None => None,
        },
        updated.confidence,
        match &updated.model_used {
            Some(m) => Some(m.as_str()),
            None => None,
        },
        updated.processing_time_ms,
    );
    proof {
        crate::store::lemma_extraction_index(before, updated.id@);
        if u is Ok {
            let i = extraction_index(before, updated.id@);
            let row = store.extractions@[i];
            assert forall|d: Seq<char>| #[trigger] extractions_for(store.extractions@, d)
                == extractions_for(before, d) by {
                lemma_extractions_for_update(before, i, row, d);
            }
        }
    }
    if let Err(err) = u {
        return Err(err);
    }
    let ghost mid = store.documents@;
    let s = DocumentDao::update_status(store, doc.id.as_str(), status.as_str(), None);
    proof {
        if s is Ok {
            crate::store::lemma_document_index(mid, doc.id@);
            crate::store::lemma_document_index(store.documents@, doc.id@);
            let i = document_index(mid, doc.id@);
            assert(store.documents@[i].id == mid[i].id);
            assert(document_index(store.documents@, doc.id@) == i) by {
                lemma_document_index_update(mid, i, store.documents@[i], doc.id@);
            }
        }
    }
    s
}

proof fn lemma_document_index_update(rows: Seq<Document>, i: int, d: Document, id: Seq<char>)
    requires
        0 <= i < rows.len(),
        d.id == rows[i].id,
    ensures
        document_index(rows.update(i, d), id) == document_index(rows, id),
    decreases rows.len(),
{
    if i < rows.len() - 1 {
        assert(rows.update(i, d).drop_last() =~= rows.drop_last().update(i, d));
        lemma_document_index_update(rows.drop_last(), i, d, id);
    } else {
        assert(rows.update(i, d).drop_last() =~= rows.drop_last());
    }
}

/// A document recorded once and then completed has exactly one extraction
/// row where it had none before: recording adds one row for it, and applying
/// the model outcome neither adds nor removes one.
pub proof fn lemma_one_extraction_per_document(
    before: Seq<Extraction>,
    recorded: Seq<Extraction>,
    completed: Seq<Extraction>,
    document_id: Seq<char>,
)
    requires
        extractions_for(before, document_id) == 0,
        extractions_for(recorded, document_id) == extractions_for(before, document_id) + 1,
        forall|d: Seq<char>|
            #[trigger] extractions_for(completed, d) == extractions_for(recorded, d),
    ensures
        extractions_for(completed, document_id) == 1,
{
}

} // verus!
