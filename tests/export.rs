use harvex::confidence::{clamp_confidence, Confidence};
use harvex::export::{
    capitalize, csv_escape, discover_keys, excel_plan, flatten_json_value, score_text, sheet_name,
    to_csv_text, CellValue,
};
use harvex::model::{Batch, Document, Extraction};
use serde_json::Value;

fn conf(x: f64) -> Confidence {
    clamp_confidence(x.to_bits())
}

fn doc(id: &str, name: &str) -> Document {
    Document {
        id: id.to_string(),
        batch_id: "b".to_string(),
        filename: format!("r_{name}"),
        original_name: name.to_string(),
        content_type: "application/pdf".to_string(),
        file_size: 1,
        file_path: format!("/tmp/{name}"),
        status: "completed".to_string(),
        error_message: None,
        created_at: "t".to_string(),
        updated_at: "t".to_string(),
    }
}

fn ext(id: &str, doc_id: &str, ty: &str, data: Option<&str>, c: f64) -> Extraction {
    Extraction {
        id: id.to_string(),
        document_id: doc_id.to_string(),
        batch_id: "b".to_string(),
        document_type: ty.to_string(),
        raw_text: None,
        structured_data: data.map(|d| serde_json::from_str(d).unwrap()),
        confidence: conf(c),
        model_used: Some("m".to_string()),
        processing_time_ms: 12,
        created_at: "t".to_string(),
    }
}

#[test]
fn test_csv_escape() {
    assert_eq!(csv_escape("hello"), "hello");
    assert_eq!(csv_escape("hello,world"), "\"hello,world\"");
    assert_eq!(csv_escape("say \"hi\""), "\"say \"\"hi\"\"\"");
}

#[test]
fn csv_escape_line_breaks() {
    assert_eq!(csv_escape("a\nb"), "\"a\nb\"");
    assert_eq!(csv_escape("a\rb"), "\"a\rb\"");
    assert_eq!(csv_escape(""), "");
}

#[test]
fn test_capitalize() {
    assert_eq!(capitalize("invoice"), "Invoice");
    assert_eq!(capitalize("bank_statement"), "Bank Statement");
    assert_eq!(capitalize("other"), "Other");
}

#[test]
fn sheet_names_are_cut() {
    assert_eq!(sheet_name("bank_statement"), "Bank Statement");
    let long = "a_very_long_document_type_name_indeed";
    assert_eq!(sheet_name(long).chars().count(), 31);
    assert_eq!(sheet_name(long), "A Very Long Document Type Name ");
}

#[test]
fn test_flatten_json() {
    assert_eq!(flatten_json_value(&Value::String("hello".to_string())), "hello");
    assert_eq!(flatten_json_value(&Value::from(42)), "42");
    assert_eq!(flatten_json_value(&Value::Bool(true)), "true");
    assert_eq!(flatten_json_value(&Value::Null), "");
    let nested: Value = serde_json::from_str(r#"{"a": [1, 2]}"#).unwrap();
    assert_eq!(flatten_json_value(&nested), r#"{"a":[1,2]}"#);
}

#[test]
fn scores_with_two_decimals() {
    assert_eq!(score_text(conf(0.9)), "0.90");
    assert_eq!(score_text(conf(0.0)), "0.00");
    assert_eq!(score_text(conf(1.0)), "1.00");
    assert_eq!(score_text(conf(0.95)), "0.95");
    assert_eq!(score_text(conf(0.333)), "0.33");
    assert_eq!(score_text(conf(0.007)), "0.01");
    assert_eq!(score_text(conf(1e-300)), "0.00");
    assert_eq!(score_text(conf(0.9)), format!("{:.2}", 0.9f64));
    assert_eq!(score_text(conf(0.6)), format!("{:.2}", 0.6f64));
}

#[test]
fn keys_are_sorted_and_skip_base_columns() {
    let lists = vec![
        vec!["vendor".to_string(), "total".to_string(), "confidence".to_string()],
        vec!["vendor".to_string(), "tax".to_string(), "document_type".to_string()],
    ];
    assert_eq!(discover_keys(&lists), vec!["tax", "total", "vendor"]);
}

#[test]
fn csv_export_dynamic_columns() {
    let docs = vec![doc("d1", "a.pdf"), doc("d2", "b,c.pdf")];
    let exts = vec![
        ext("e1", "d1", "invoice", Some(r#"{"vendor":"A","total":10}"#), 0.9),
        ext("e2", "d2", "invoice", Some(r#"{"vendor":"B","tax":2}"#), 0.5),
    ];
    let csv = to_csv_text(&exts, &docs);
    let lines: Vec<&str> = csv.lines().collect();
    assert_eq!(
        lines[0],
        "extraction_id,document_id,filename,document_type,confidence,model_used,processing_time_ms,tax,total,vendor"
    );
    assert_eq!(lines[1], "e1,d1,a.pdf,invoice,0.90,m,12,,10,A");
    assert_eq!(lines[2], "e2,d2,\"b,c.pdf\",invoice,0.50,m,12,2,,B");
    assert_eq!(lines.len(), 3);
}

#[test]
fn csv_rows_have_header_width() {
    let docs = vec![doc("d1", "a.pdf")];
    let exts = vec![
        ext("e1", "d1", "other", None, 0.0),
        ext("e2", "missing", "receipt", Some(r#"{"x":"1,2","y":null,"confidence":0.4}"#), 0.4),
    ];
    let csv = to_csv_text(&exts, &docs);
    let lines: Vec<&str> = csv.lines().collect();
    assert_eq!(lines[0].split(',').count(), 9);
    assert_eq!(lines[1], "e1,d1,a.pdf,other,0.00,m,12,,");
    assert_eq!(lines[2], "e2,missing,,receipt,0.40,m,12,\"1,2\",");
}

#[test]
fn excel_layout() {
    let batch = Batch {
        id: "b".to_string(),
        name: "Batch".to_string(),
        status: "completed".to_string(),
        total_files: 2,
        processed_files: 2,
        failed_files: 0,
        model_name: Some("m".to_string()),
        created_at: "t".to_string(),
        updated_at: "t".to_string(),
        completed_at: None,
    };
    let docs = vec![doc("d1", "a.pdf")];
    let exts = vec![
        ext("e1", "d1", "receipt", Some(r#"{"total":10,"items":[1]}"#), 0.9),
        ext("e2", "d1", "bank_statement", Some(r#"{"bank":"X"}"#), 0.5),
    ];
    let plan = excel_plan(&batch, &exts, &docs).unwrap();
    let names: Vec<&str> = plan.sheets.iter().map(|s| s.name.as_str()).collect();
    assert_eq!(names, vec!["Summary", "Extractions", "Bank Statement", "Receipt"]);
    assert_eq!(plan.sheets[0].cells.len(), 16);
    let header: Vec<String> = plan.sheets[1]
        .cells
        .iter()
        .filter(|c| c.row == 0)
        .map(|c| match &c.value {
            CellValue::Label(t) => t.clone(),
            _ => String::new(),
        })
        .collect();
    assert_eq!(
        header,
        vec!["Extraction ID", "Filename", "Document Type", "Confidence", "Model", "Time (ms)", "bank", "items", "total"]
    );
    let items = plan.sheets[1].cells.iter().find(|c| c.row == 1 && c.col == 7).unwrap();
    assert!(matches!(&items.value, CellValue::Text(t) if t == "[1]"));
}

/// Reads one CSV record (RFC 4180) into its fields.
fn read_record(line: &str) -> Vec<String> {
    let mut fields = Vec::new();
    let mut cur = String::new();
    let mut quoted = false;
    let mut chars = line.chars().peekable();
    while let Some(ch) = chars.next() {
        if quoted {
            if ch == '"' {
                if chars.peek() == Some(&'"') {
                    cur.push('"');
                    chars.next();
                } else {
                    quoted = false;
                }
            } else {
                cur.push(ch);
            }
        } else if ch == ',' {
            fields.push(std::mem::take(&mut cur));
        } else if ch == '"' && cur.is_empty() {
            quoted = true;
        } else {
            cur.push(ch);
        }
    }
    fields.push(cur);
    fields
}

#[test]
fn csv_rows_read_back_with_header_width() {
    let docs = vec![doc("d1", "say \"hi\", ok.pdf")];
    let exts = vec![
        ext("e1", "d1", "invoice", Some(r#"{"note":"a,\"b\"","n":1}"#), 0.9),
        ext("e2", "d1", "other", Some(r#"{"list":[1,2],"flag":true}"#), 0.1),
    ];
    let csv = to_csv_text(&exts, &docs);
    let lines: Vec<&str> = csv.lines().collect();
    let header = read_record(lines[0]);
    assert_eq!(header.len(), 11);
    for line in &lines[1..] {
        assert_eq!(read_record(line).len(), header.len());
    }
    let first = read_record(lines[1]);
    assert_eq!(first[2], "say \"hi\", ok.pdf");
    assert_eq!(first[9], "1");
    assert_eq!(first[10], "a,\"b\"");
    let second = read_record(lines[2]);
    assert_eq!(second[7], "true");
    assert_eq!(second[8], "[1,2]");
}
