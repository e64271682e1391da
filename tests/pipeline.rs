use harvex::confidence::clamp_confidence;
use harvex::pipeline::{record_initial_extraction, record_model_outcome};
use harvex::store::{BatchDao, DocumentDao, ExtractionDao, Store};
use harvex::detector::FileType;
use harvex::extract::pdf_from_text;
use harvex::llm::{text_response, LlmError, LlmSettings};
use harvex::model::{Batch, BatchStatus, DocStatus, Document};
use harvex::pipeline::{
    apply_model_outcome, begin_batch, check_file_size, documents_to_reset, initial_extraction,
    pdf_content, plan_document, start_document, stored_name, vision_pdf_extraction, DocPlan,
    ExtractedContent, UploadError,
};

fn batch(status: &str) -> Batch {
    Batch {
        id: "B1".to_string(),
        name: "B1".to_string(),
        status: status.to_string(),
        total_files: 0,
        processed_files: 0,
        failed_files: 0,
        model_name: None,
        created_at: "t".to_string(),
        updated_at: "t".to_string(),
        completed_at: None,
    }
}

fn doc(id: &str, status: &str) -> Document {
    Document {
        id: id.to_string(),
        batch_id: "B1".to_string(),
        filename: "x_invoice.txt".to_string(),
        original_name: "invoice.txt".to_string(),
        content_type: "text/plain".to_string(),
        file_size: 25,
        file_path: "/nowhere/x_invoice.txt".to_string(),
        status: status.to_string(),
        error_message: None,
        created_at: "t".to_string(),
        updated_at: "t".to_string(),
    }
}

fn settings() -> LlmSettings {
    LlmSettings {
        api_url: "http://llm".to_string(),
        api_key: String::new(),
        model_name: "mock".to_string(),
        context_size: 4096,
        temperature_bits: 0,
        max_tokens: 100,
        vision_model_name: String::new(),
        vision_dpi: 200,
        vision_max_pages: 5,
    }
}

#[test]
fn file_size_limit_is_inclusive() {
    let limit = 3 * 1024 * 1024;
    assert_eq!(check_file_size(limit, 3), Ok(()));
    assert_eq!(check_file_size(limit + 1, 3), Err(UploadError::TooLarge));
    assert_eq!(check_file_size(u64::MAX, u64::MAX), Ok(()));
}

#[test]
fn stored_names() {
    assert_eq!(stored_name("abc", "a.pdf"), "abc_a.pdf");
}

#[test]
fn empty_batch_completes_with_one_final_event() {
    let run = begin_batch(&batch("pending"), &Vec::new()).run;
    let (status, ev) = run.finish("Batch complete: 0 processed, 0 failed".to_string());
    assert_eq!(status, BatchStatus::Completed);
    assert_eq!(ev.status, "completed");
    assert_eq!(ev.document_id, "");
    assert_eq!(ev.document_name, "");
    assert_eq!((ev.processed, ev.failed, ev.total), (0, 0, 0));
}

#[test]
fn stuck_batch_is_reset_not_refused() {
    let docs = vec![doc("a", "completed"), doc("b", "processing")];
    let start = begin_batch(&batch("processing"), &docs);
    assert!(start.reset_batch);
    assert_eq!(start.reset_documents, vec!["b".to_string()]);
    assert_eq!((start.run.total, start.run.processed, start.run.failed), (2, 0, 0));
    assert!(!begin_batch(&batch("pending"), &docs).reset_batch);
}

#[test]
fn stuck_documents_are_reset() {
    let docs = vec![doc("a", "completed"), doc("b", "processing"), doc("c", "processing")];
    assert_eq!(documents_to_reset(&docs), vec!["b".to_string(), "c".to_string()]);
}

#[test]
fn happy_text_path() {
    let d = doc("d1", "pending");
    assert_eq!(start_document(true), (DocStatus::Processing, None));
    assert_eq!(FileType::detect("invoice.txt", "text/plain"), FileType::Unknown("txt".to_string()));
    let plan = plan_document(ExtractedContent::Text("Invoice #42 total 100 USD".to_string()), false);
    let new = match plan {
        DocPlan::TextModel(e) => e,
        _ => panic!("expected the text model"),
    };
    assert_eq!(new.document_type, "invoice");
    let e = initial_extraction("x1".to_string(), &d, new, 3, "t".to_string());
    let resp = text_response(&settings(), r#"{"document_type":"invoice","total":100,"confidence":0.9}"#, "invoice", 10);
    let (e, status) = apply_model_outcome(e, Ok(resp), 3);
    assert_eq!(status, DocStatus::Completed);
    assert_eq!(e.document_type, "invoice");
    assert_eq!(f64::from_bits(e.confidence.bits), 0.9);
    assert_eq!(e.structured_data.unwrap()["total"], serde_json::Value::from(100));
    assert_eq!(e.processing_time_ms, 13);
    let mut run = begin_batch(&batch("pending"), &vec![doc("d1", "pending")]).run;
    let ev = run.record(&d, true, "ok".to_string());
    assert_eq!((ev.processed, ev.failed, ev.total), (1, 0, 1));
    let (final_status, _) = run.finish(String::new());
    assert_eq!(final_status, BatchStatus::Completed);
}

#[test]
fn llm_unreachable_keeps_raw_text() {
    let d = doc("d1", "pending");
    let new = match plan_document(ExtractedContent::Text("Invoice #42 total 100 USD".to_string()), false) {
        DocPlan::TextModel(e) => e,
        _ => panic!("expected the text model"),
    };
    let e = initial_extraction("x1".to_string(), &d, new, 3, "t".to_string());
    let (e, status) = apply_model_outcome(e, Err(LlmError::Transport("connection refused".to_string())), 3);
    assert_eq!(status, DocStatus::Completed);
    assert_eq!(e.document_type, "invoice");
    assert_eq!(e.confidence.bits, 0);
    assert!(e.structured_data.is_none());
    assert_eq!(e.raw_text.as_deref(), Some("Invoice #42 total 100 USD"));
}

#[test]
fn partial_failure() {
    let (status, msg) = start_document(false);
    assert_eq!(status, DocStatus::Failed);
    assert_eq!(msg, Some("File not found on disk"));
    let mut run = begin_batch(&batch("pending"), &vec![doc("ok", "pending"), doc("missing", "pending")]).run;
    run.record(&doc("ok", "pending"), true, String::new());
    let ev = run.record(&doc("missing", "pending"), false, String::new());
    assert_eq!((ev.processed, ev.failed), (1, 1));
    assert_eq!(ev.status, "failed");
    let (final_status, last) = run.finish(String::new());
    assert_eq!(final_status, BatchStatus::PartiallyCompleted);
    assert_eq!(last.status, "partially_completed");
}

#[test]
fn all_failed_batch() {
    let mut run = begin_batch(&batch("completed"), &vec![doc("x", "pending")]).run;
    run.record(&doc("x", "pending"), false, String::new());
    assert_eq!(run.finish(String::new()).0, BatchStatus::Failed);
}

#[test]
fn scanned_pdf_without_vision() {
    let pdf = pdf_from_text("", &Vec::new());
    let content = pdf_content(pdf, "/up/B1/x.pdf");
    assert!(matches!(&content, ExtractedContent::NeedsVisionPdf(p) if p == "/up/B1/x.pdf"));
    match plan_document(content, false) {
        DocPlan::Placeholder(e) => {
            assert!(e.raw_text.starts_with("[Scanned PDF"));
            assert_eq!(e.document_type, "other");
        }
        _ => panic!("expected a placeholder"),
    }
}

#[test]
fn vision_plans() {
    let content = ExtractedContent::NeedsVisionPdf("/p.pdf".to_string());
    assert!(matches!(plan_document(content, true), DocPlan::RenderPages(p) if p == "/p.pdf"));
    assert_eq!(vision_pdf_extraction(3).raw_text, "[Vision: 3 pages processed]");
    match plan_document(ExtractedContent::NeedsVisionImage(vec![0; 1234]), true) {
        DocPlan::VisionImage(e, b) => {
            assert_eq!(e.raw_text, "[Vision: 1 image processed (1234 bytes)]");
            assert_eq!(b.len(), 1234);
        }
        _ => panic!("expected a vision call"),
    }
    match plan_document(ExtractedContent::NeedsVisionImage(vec![1]), false) {
        DocPlan::Placeholder(e) => assert!(e.raw_text.starts_with("[Image")),
        _ => panic!("expected a placeholder"),
    }
}

#[test]
fn placeholder_extraction_has_zero_score() {
    let d = doc("d", "pending");
    let e = initial_extraction("i".to_string(), &d, vision_pdf_extraction(1), 0, "t".to_string());
    assert_eq!(e.confidence, clamp_confidence(0));
    assert_eq!(e.document_id, "d");
    assert_eq!(e.batch_id, "B1");
}

#[test]
fn completed_document_has_one_extraction() {
    let mut s = Store::new();
    let b = BatchDao::create(&mut s, "B1", None).unwrap();
    let d = DocumentDao::create(&mut s, &b.id, "x_invoice.txt", "invoice.txt", "text/plain", 25, "/x").unwrap();
    let new = match plan_document(ExtractedContent::Text("Invoice #42 total 100 USD".to_string()), false) {
        DocPlan::TextModel(e) => e,
        _ => panic!("expected the text model"),
    };
    let e = record_initial_extraction(&mut s, &d, &new, 4).unwrap();
    let resp = text_response(&settings(), r#"{"document_type":"invoice","total":100,"confidence":0.9}"#, "invoice", 6);
    record_model_outcome(&mut s, &d, e, Ok(resp), 4).unwrap();
    let rows = ExtractionDao::list_by_batch(&s, &b.id);
    assert_eq!(rows.len(), 1);
    assert_eq!(rows[0].document_id, d.id);
    assert_eq!(rows[0].document_type, "invoice");
    assert_eq!(f64::from_bits(rows[0].confidence.bits), 0.9);
    assert_eq!(rows[0].structured_data.as_ref().unwrap()["total"], serde_json::Value::from(100));
    assert_eq!(rows[0].processing_time_ms, 10);
    assert_eq!(DocumentDao::get_by_id(&s, &d.id).unwrap().status, "completed");
}

#[test]
fn unreachable_model_keeps_initial_row() {
    let mut s = Store::new();
    let b = BatchDao::create(&mut s, "B1", None).unwrap();
    let d = DocumentDao::create(&mut s, &b.id, "x_invoice.txt", "invoice.txt", "text/plain", 25, "/x").unwrap();
    let new = match plan_document(ExtractedContent::Text("Invoice #42 total 100 USD".to_string()), false) {
        DocPlan::TextModel(e) => e,
        _ => panic!("expected the text model"),
    };
    let e = record_initial_extraction(&mut s, &d, &new, 4).unwrap();
    record_model_outcome(&mut s, &d, e, Err(LlmError::Transport("connection refused".to_string())), 4).unwrap();
    let rows = ExtractionDao::list_by_batch(&s, &b.id);
    assert_eq!(rows.len(), 1);
    assert_eq!(rows[0].document_type, "invoice");
    assert_eq!(rows[0].confidence.bits, 0);
    assert!(rows[0].structured_data.is_none());
    assert_eq!(rows[0].raw_text.as_deref(), Some("Invoice #42 total 100 USD"));
    assert_eq!(DocumentDao::get_by_id(&s, &d.id).unwrap().status, "completed");
}
