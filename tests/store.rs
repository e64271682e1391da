use harvex::confidence::{clamp_confidence, Confidence};
use harvex::export::{ExportFilter, ExportService};
use harvex::store::{BatchDao, DocumentDao, ExtractionDao, Store, StoreError};
use serde_json::Value;

fn c(x: f64) -> Confidence {
    clamp_confidence(x.to_bits())
}

fn score(e: &harvex::model::Extraction) -> f64 {
    f64::from_bits(e.confidence.bits)
}

fn store_with_batch() -> (Store, String) {
    let mut s = Store::new();
    let b = BatchDao::create(&mut s, "Test Batch", None).unwrap();
    (s, b.id)
}

fn store_with_doc() -> (Store, String, String) {
    let mut s = Store::new();
    let b = BatchDao::create(&mut s, "Test", None).unwrap();
    let d = DocumentDao::create(&mut s, &b.id, "test.pdf", "test.pdf", "application/pdf", 100, "/test").unwrap();
    (s, b.id, d.id)
}

#[test]
fn dao_tests_create_and_get() {
    let mut s = Store::new();
    let batch = BatchDao::create(&mut s, "Test Batch", Some("test-model")).unwrap();
    assert_eq!(batch.name, "Test Batch");
    assert_eq!(batch.status, "pending");
    assert_eq!(batch.total_files, 0);
    assert_eq!(batch.processed_files, 0);
    assert_eq!(batch.failed_files, 0);
    assert_eq!(batch.model_name.as_deref(), Some("test-model"));
    let fetched = BatchDao::get_by_id(&s, &batch.id).unwrap();
    assert_eq!(fetched.id, batch.id);
    assert_eq!(fetched.name, "Test Batch");
    assert_eq!(batch.id.len(), 21);
}

#[test]
fn create_without_model() {
    let mut s = Store::new();
    let batch = BatchDao::create(&mut s, "No Model", None).unwrap();
    assert!(batch.model_name.is_none());
}

#[test]
fn dao_tests_list_batches() {
    let mut s = Store::new();
    BatchDao::create(&mut s, "Batch A", None).unwrap();
    BatchDao::create(&mut s, "Batch B", None).unwrap();
    BatchDao::create(&mut s, "Batch C", None).unwrap();
    let batches = BatchDao::list(&s);
    assert_eq!(batches.len(), 3);
    assert_eq!(batches[0].name, "Batch C");
    assert_eq!(batches[2].name, "Batch A");
}

#[test]
fn dao_tests_update_status() {
    let mut s = Store::new();
    let batch = BatchDao::create(&mut s, "Status Test", None).unwrap();
    assert_eq!(batch.status, "pending");
    BatchDao::update_status(&mut s, &batch.id, "processing").unwrap();
    let updated = BatchDao::get_by_id(&s, &batch.id).unwrap();
    assert_eq!(updated.status, "processing");
}

#[test]
fn update_progress() {
    let mut s = Store::new();
    let batch = BatchDao::create(&mut s, "Progress Test", None).unwrap();
    BatchDao::update_progress(&mut s, &batch.id, 3, 1).unwrap();
    let updated = BatchDao::get_by_id(&s, &batch.id).unwrap();
    assert_eq!(updated.processed_files, 3);
    assert_eq!(updated.failed_files, 1);
}

#[test]
fn set_total_files() {
    let mut s = Store::new();
    let batch = BatchDao::create(&mut s, "Total Test", None).unwrap();
    BatchDao::set_total_files(&mut s, &batch.id, 10).unwrap();
    let updated = BatchDao::get_by_id(&s, &batch.id).unwrap();
    assert_eq!(updated.total_files, 10);
}

#[test]
fn dao_tests_delete_batch() {
    let mut s = Store::new();
    let batch = BatchDao::create(&mut s, "Delete Me", None).unwrap();
    let deleted = BatchDao::delete(&mut s, &batch.id);
    assert!(deleted);
    let result = BatchDao::get_by_id(&s, &batch.id);
    assert!(result.is_err());
}

#[test]
fn delete_nonexistent() {
    let mut s = Store::new();
    let deleted = BatchDao::delete(&mut s, "nonexistent");
    assert!(!deleted);
}

#[test]
fn get_nonexistent() {
    let s = Store::new();
    let result = BatchDao::get_by_id(&s, "nonexistent");
    assert!(result.is_err());
    assert_eq!(BatchDao::update_status(&mut Store::new(), "nonexistent", "failed"), Err(StoreError::NotFound));
}

#[test]
fn document_create_and_get() {
    let (mut s, batch_id) = store_with_batch();
    let doc = DocumentDao::create(&mut s, &batch_id, "abc123_test.pdf", "test.pdf", "application/pdf", 12345, "/tmp/test.pdf").unwrap();
    assert_eq!(doc.batch_id, batch_id);
    assert_eq!(doc.filename, "abc123_test.pdf");
    assert_eq!(doc.original_name, "test.pdf");
    assert_eq!(doc.content_type, "application/pdf");
    assert_eq!(doc.file_size, 12345);
    assert_eq!(doc.status, "pending");
    let fetched = DocumentDao::get_by_id(&s, &doc.id).unwrap();
    assert_eq!(fetched.id, doc.id);
}

#[test]
fn dao_tests_list_by_batch() {
    let (mut s, batch_id) = store_with_batch();
    DocumentDao::create(&mut s, &batch_id, "a.pdf", "a.pdf", "application/pdf", 100, "/a").unwrap();
    DocumentDao::create(&mut s, &batch_id, "b.jpg", "b.jpg", "image/jpeg", 200, "/b").unwrap();
    let docs = DocumentDao::list_by_batch(&s, &batch_id);
    assert_eq!(docs.len(), 2);
}

#[test]
fn list_empty_batch() {
    let (s, batch_id) = store_with_batch();
    let docs = DocumentDao::list_by_batch(&s, &batch_id);
    assert!(docs.is_empty());
}

#[test]
fn dao_tests_delete_document() {
    let (mut s, batch_id) = store_with_batch();
    let doc = DocumentDao::create(&mut s, &batch_id, "d.pdf", "d.pdf", "application/pdf", 100, "/d").unwrap();
    let deleted = DocumentDao::delete(&mut s, &doc.id);
    assert!(deleted);
    let result = DocumentDao::get_by_id(&s, &doc.id);
    assert!(result.is_err());
}

#[test]
fn dao_tests_delete_by_batch() {
    let (mut s, batch_id) = store_with_batch();
    DocumentDao::create(&mut s, &batch_id, "x.pdf", "x.pdf", "application/pdf", 100, "/x").unwrap();
    DocumentDao::create(&mut s, &batch_id, "y.pdf", "y.pdf", "application/pdf", 200, "/y").unwrap();
    let paths = DocumentDao::delete_by_batch(&mut s, &batch_id);
    assert_eq!(paths.len(), 2);
    assert!(paths.contains(&"/x".to_string()));
    assert!(paths.contains(&"/y".to_string()));
    let docs = DocumentDao::list_by_batch(&s, &batch_id);
    assert!(docs.is_empty());
}

#[test]
fn document_update_status() {
    let (mut s, batch_id) = store_with_batch();
    let doc = DocumentDao::create(&mut s, &batch_id, "s.pdf", "s.pdf", "application/pdf", 100, "/s").unwrap();
    DocumentDao::update_status(&mut s, &doc.id, "completed", None).unwrap();
    let updated = DocumentDao::get_by_id(&s, &doc.id).unwrap();
    assert_eq!(updated.status, "completed");
    assert!(updated.error_message.is_none());
}

#[test]
fn update_status_with_error() {
    let (mut s, batch_id) = store_with_batch();
    let doc = DocumentDao::create(&mut s, &batch_id, "e.pdf", "e.pdf", "application/pdf", 100, "/e").unwrap();
    DocumentDao::update_status(&mut s, &doc.id, "failed", Some("Parse error")).unwrap();
    let updated = DocumentDao::get_by_id(&s, &doc.id).unwrap();
    assert_eq!(updated.status, "failed");
    assert_eq!(updated.error_message.as_deref(), Some("Parse error"));
}

#[test]
fn extraction_create_and_get() {
    let (mut s, batch_id, doc_id) = store_with_doc();
    let data: Value = serde_json::from_str(r#"{"vendor": "Acme", "total": 100.0}"#).unwrap();
    let ext = ExtractionDao::create(&mut s, &doc_id, &batch_id, "invoice", Some("Invoice from Acme"), Some(&data), c(0.85), Some("test-model"), 1500).unwrap();
    assert_eq!(ext.document_id, doc_id);
    assert_eq!(ext.batch_id, batch_id);
    assert_eq!(ext.document_type, "invoice");
    assert_eq!(ext.raw_text.as_deref(), Some("Invoice from Acme"));
    assert_eq!(ext.structured_data.as_ref().unwrap()["vendor"], "Acme");
    assert!((score(&ext) - 0.85).abs() < 0.01);
    assert_eq!(ext.model_used.as_deref(), Some("test-model"));
    assert_eq!(ext.processing_time_ms, 1500);
    let fetched = ExtractionDao::get_by_id(&s, &ext.id).unwrap();
    assert_eq!(fetched.id, ext.id);
    assert_eq!(fetched.structured_data, Some(data));
}

#[test]
fn create_minimal() {
    let (mut s, batch_id, doc_id) = store_with_doc();
    let ext = ExtractionDao::create(&mut s, &doc_id, &batch_id, "other", None, None, c(0.0), None, 0).unwrap();
    assert_eq!(ext.document_type, "other");
    assert!(ext.raw_text.is_none());
    assert!(ext.structured_data.is_none());
}

#[test]
fn extraction_list_by_batch() {
    let (mut s, batch_id, doc_id) = store_with_doc();
    ExtractionDao::create(&mut s, &doc_id, &batch_id, "invoice", None, None, c(0.9), None, 100).unwrap();
    ExtractionDao::create(&mut s, &doc_id, &batch_id, "receipt", None, None, c(0.7), None, 200).unwrap();
    let exts = ExtractionDao::list_by_batch(&s, &batch_id);
    assert_eq!(exts.len(), 2);
}

#[test]
fn list_filtered_by_type() {
    let (mut s, batch_id, doc_id) = store_with_doc();
    ExtractionDao::create(&mut s, &doc_id, &batch_id, "invoice", None, None, c(0.9), None, 100).unwrap();
    ExtractionDao::create(&mut s, &doc_id, &batch_id, "receipt", None, None, c(0.7), None, 200).unwrap();
    let invoices = ExtractionDao::list_by_batch_filtered(&s, &batch_id, Some("invoice"), None);
    assert_eq!(invoices.len(), 1);
    assert_eq!(invoices[0].document_type, "invoice");
}

#[test]
fn list_filtered_by_confidence() {
    let (mut s, batch_id, doc_id) = store_with_doc();
    ExtractionDao::create(&mut s, &doc_id, &batch_id, "invoice", None, None, c(0.9), None, 100).unwrap();
    ExtractionDao::create(&mut s, &doc_id, &batch_id, "receipt", None, None, c(0.3), None, 200).unwrap();
    let high_conf = ExtractionDao::list_by_batch_filtered(&s, &batch_id, None, Some(0.5f64.to_bits()));
    assert_eq!(high_conf.len(), 1);
    assert!((score(&high_conf[0]) - 0.9).abs() < 0.01);
    let all = ExtractionDao::list_by_batch_filtered(&s, &batch_id, None, Some((-1.0f64).to_bits()));
    assert_eq!(all.len(), 2);
    let none = ExtractionDao::list_by_batch_filtered(&s, &batch_id, None, Some(f64::NAN.to_bits()));
    assert_eq!(none.len(), 0);
}

#[test]
fn list_filtered_combined() {
    let (mut s, batch_id, doc_id) = store_with_doc();
    ExtractionDao::create(&mut s, &doc_id, &batch_id, "invoice", None, None, c(0.9), None, 100).unwrap();
    ExtractionDao::create(&mut s, &doc_id, &batch_id, "invoice", None, None, c(0.3), None, 200).unwrap();
    ExtractionDao::create(&mut s, &doc_id, &batch_id, "receipt", None, None, c(0.8), None, 150).unwrap();
    let result = ExtractionDao::list_by_batch_filtered(&s, &batch_id, Some("invoice"), Some(0.5f64.to_bits()));
    assert_eq!(result.len(), 1);
    assert_eq!(result[0].document_type, "invoice");
    assert!(score(&result[0]) >= 0.5);
}

#[test]
fn update_structured() {
    let (mut s, batch_id, doc_id) = store_with_doc();
    let ext = ExtractionDao::create(&mut s, &doc_id, &batch_id, "other", None, None, c(0.0), None, 0).unwrap();
    let data: Value = serde_json::from_str(r#"{"total": 250.0}"#).unwrap();
    ExtractionDao::update_structured(&mut s, &ext.id, "invoice", Some(&data), c(0.92), Some("qwen2.5:7b"), 3000).unwrap();
    let updated = ExtractionDao::get_by_id(&s, &ext.id).unwrap();
    assert_eq!(updated.document_type, "invoice");
    assert_eq!(updated.structured_data.as_ref().unwrap()["total"], 250.0);
    assert!((score(&updated) - 0.92).abs() < 0.01);
    assert_eq!(updated.model_used.as_deref(), Some("qwen2.5:7b"));
    assert_eq!(updated.processing_time_ms, 3000);
}

#[test]
fn update_structured_twice_is_the_same() {
    let (mut s, batch_id, doc_id) = store_with_doc();
    let ext = ExtractionDao::create(&mut s, &doc_id, &batch_id, "other", Some("t"), None, c(0.0), None, 0).unwrap();
    let data: Value = serde_json::from_str(r#"{"a": [1, 2]}"#).unwrap();
    ExtractionDao::update_structured(&mut s, &ext.id, "receipt", Some(&data), c(0.5), Some("m"), 7).unwrap();
    let once = ExtractionDao::get_by_id(&s, &ext.id).unwrap();
    ExtractionDao::update_structured(&mut s, &ext.id, "receipt", Some(&data), c(0.5), Some("m"), 7).unwrap();
    let twice = ExtractionDao::get_by_id(&s, &ext.id).unwrap();
    assert_eq!(once.document_type, twice.document_type);
    assert_eq!(once.structured_data, twice.structured_data);
    assert_eq!(once.confidence, twice.confidence);
    assert_eq!(once.model_used, twice.model_used);
    assert_eq!(once.processing_time_ms, twice.processing_time_ms);
    assert_eq!(once.raw_text, twice.raw_text);
}

#[test]
fn extraction_delete_by_batch() {
    let (mut s, batch_id, doc_id) = store_with_doc();
    ExtractionDao::create(&mut s, &doc_id, &batch_id, "invoice", None, None, c(0.9), None, 100).unwrap();
    ExtractionDao::create(&mut s, &doc_id, &batch_id, "receipt", None, None, c(0.7), None, 200).unwrap();
    let deleted = ExtractionDao::delete_by_batch(&mut s, &batch_id);
    assert_eq!(deleted, 2);
    let exts = ExtractionDao::list_by_batch(&s, &batch_id);
    assert!(exts.is_empty());
}

#[test]
fn cascade_delete_of_three_documents() {
    let mut s = Store::new();
    let b = BatchDao::create(&mut s, "Cascade", None).unwrap();
    let other = BatchDao::create(&mut s, "Other", None).unwrap();
    for name in ["a.pdf", "b.pdf", "c.pdf"] {
        let path = format!("/up/{}/{}", b.id, name);
        let d = DocumentDao::create(&mut s, &b.id, name, name, "application/pdf", 1, &path).unwrap();
        ExtractionDao::create(&mut s, &d.id, &b.id, "invoice", Some("text"), None, c(0.0), None, 1).unwrap();
    }
    let keep = DocumentDao::create(&mut s, &other.id, "k.pdf", "k.pdf", "application/pdf", 1, "/k").unwrap();
    ExtractionDao::create(&mut s, &keep.id, &other.id, "other", None, None, c(0.0), None, 1).unwrap();
    assert_eq!(ExtractionDao::delete_by_batch(&mut s, &b.id), 3);
    let paths = DocumentDao::delete_by_batch(&mut s, &b.id);
    assert_eq!(paths.len(), 3);
    assert!(BatchDao::delete(&mut s, &b.id));
    assert!(ExtractionDao::list_by_batch(&s, &b.id).is_empty());
    assert!(DocumentDao::list_by_batch(&s, &b.id).is_empty());
    assert!(BatchDao::get_by_id(&s, &b.id).is_err());
    assert_eq!(DocumentDao::list_by_batch(&s, &other.id).len(), 1);
    assert_eq!(ExtractionDao::list_by_batch(&s, &other.id).len(), 1);
}

#[test]
fn export_service_over_store() {
    let (mut s, batch_id, doc_id) = store_with_doc();
    let a: Value = serde_json::from_str(r#"{"vendor":"A","total":10}"#).unwrap();
    let b: Value = serde_json::from_str(r#"{"vendor":"B","tax":2}"#).unwrap();
    ExtractionDao::create(&mut s, &doc_id, &batch_id, "invoice", None, Some(&a), c(0.9), None, 1).unwrap();
    ExtractionDao::create(&mut s, &doc_id, &batch_id, "receipt", None, Some(&b), c(0.4), None, 2).unwrap();
    let all = ExportFilter { document_type: None, min_confidence_bits: None };
    let csv = ExportService::to_csv(&s, &batch_id, &all);
    let lines: Vec<&str> = csv.lines().collect();
    assert!(lines[0].ends_with(",tax,total,vendor"));
    assert_eq!(lines.len(), 3);
    let only = ExportFilter { document_type: Some("receipt".to_string()), min_confidence_bits: None };
    let csv = ExportService::to_csv(&s, &batch_id, &only);
    assert_eq!(csv.lines().count(), 2);
    assert!(csv.lines().next().unwrap().ends_with(",tax,vendor"));
    assert!(ExportService::excel_plan(&s, "missing", &all).is_err());
    let plan = ExportService::excel_plan(&s, &batch_id, &all).unwrap();
    assert_eq!(plan.sheets.len(), 4);
}

#[test]
fn json_records_join_documents() {
    let (mut s, batch_id, doc_id) = store_with_doc();
    let a: Value = serde_json::from_str(r#"{"vendor":"A"}"#).unwrap();
    ExtractionDao::create(&mut s, &doc_id, &batch_id, "invoice", Some("t"), Some(&a), c(0.9), Some("m"), 3).unwrap();
    ExtractionDao::create(&mut s, "gone", &batch_id, "other", None, None, c(0.0), None, 1).unwrap();
    let all = ExportFilter { document_type: None, min_confidence_bits: None };
    let (batch, recs) = ExportService::json_records(&s, &batch_id, &all).ok().unwrap();
    assert_eq!(batch.id, batch_id);
    assert_eq!(recs.len(), 2);
    assert_eq!(recs[0].original_name, "test.pdf");
    assert_eq!(recs[0].content_type, "application/pdf");
    assert_eq!(recs[0].file_size, 100);
    assert_eq!(recs[0].structured_data, Some(a));
    assert_eq!(recs[1].original_name, "");
    assert_eq!(recs[1].file_size, 0);
    assert!(ExportService::json_records(&s, "missing", &all).is_err());
}

#[test]
fn deleted_batch_is_gone() {
    let mut s = Store::new();
    let b = BatchDao::create(&mut s, "One", None).unwrap();
    BatchDao::create(&mut s, "Two", None).unwrap();
    assert!(BatchDao::delete(&mut s, &b.id));
    assert!(BatchDao::get_by_id(&s, &b.id).is_err());
    assert!(!BatchDao::delete(&mut s, &b.id));
    assert_eq!(BatchDao::list(&s).len(), 1);
}
