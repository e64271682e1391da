use harvex::classify::classify_document_type;
use harvex::extract::{
    count_pages, extract_image_text, extract_text_from_xml, extract_word_text, pdf_from_text,
    render_workbook, SheetRows,
};

#[test]
fn extract_from_simple_xml() {
    let xml = r#"<w:body><w:p><w:r><w:t>Hello</w:t></w:r><w:r><w:t xml:space="preserve"> World</w:t></w:r></w:p><w:p><w:r><w:t>Second paragraph</w:t></w:r></w:p></w:body>"#;
    let text = extract_text_from_xml(xml);
    assert!(text.contains("Hello World"));
    assert!(text.contains("Second paragraph"));
}

#[test]
fn xml_blank_lines_collapse() {
    let xml = "<w:p><w:t>  a  </w:t></w:p><w:p></w:p><w:p></w:p><w:p><w:t>b</w:t></w:p>";
    assert_eq!(extract_text_from_xml(xml), "a\n\nb\n");
}

#[test]
fn xml_ignores_text_outside_runs() {
    assert_eq!(extract_text_from_xml("<w:body>stray<w:tab/></w:body>"), "");
}

#[test]
fn not_a_docx_is_an_error() {
    assert!(extract_word_text(&b"plain bytes".to_vec()).is_err());
}

#[test]
fn short_pdf_text_is_scanned() {
    let p = pdf_from_text("  short text \n", &Vec::new());
    assert_eq!(p.text, "short text");
    assert!(p.is_scanned);
    assert_eq!(p.page_count, None);
    let q = pdf_from_text("this text is long enough to count", &Vec::new());
    assert!(!q.is_scanned);
}

#[test]
fn empty_pdf_text_is_scanned() {
    let p = pdf_from_text("", &Vec::new());
    assert!(p.is_scanned);
    assert_eq!(p.text, "");
}

#[test]
fn page_count_from_markers() {
    let one = b"<< /Type /Page >>".to_vec();
    assert_eq!(count_pages(&one), Some(1));
    let three = b"/Type /Pages /Type /Page x /Type /Page y".to_vec();
    assert_eq!(count_pages(&three), Some(2));
    assert_eq!(count_pages(&b"nothing".to_vec()), None);
}

#[test]
fn image_bytes_that_are_not_an_image() {
    assert!(extract_image_text(&b"not an image".to_vec()).is_err());
}

#[test]
fn workbook_text_skips_blank_rows() {
    let sheets = vec![SheetRows {
        name: "S1".to_string(),
        rows: vec![
            vec!["a".to_string(), "1".to_string()],
            vec![String::new(), String::new()],
            vec!["b".to_string(), String::new()],
        ],
    }];
    let r = render_workbook(&sheets);
    assert_eq!(r.text, "=== Sheet: S1 ===\na | 1\nb |");
    assert_eq!(r.sheet_count, 1);
    assert_eq!(r.total_rows, 2);
}

#[test]
fn classify_in_priority_order() {
    assert_eq!(classify_document_type("Invoice #42 total 100 USD"), "invoice");
    assert_eq!(classify_document_type("ACCOUNT STATEMENT for May"), "bank_statement");
    assert_eq!(classify_document_type("Balance 10, credit 5"), "bank_statement");
    assert_eq!(classify_document_type("Amount due: 5"), "payment");
    assert_eq!(classify_document_type("Total 5 incl. tax"), "receipt");
    assert_eq!(classify_document_type("hello"), "other");
    assert_eq!(classify_document_type("receipt for payment"), "payment");
}

#[test]
fn docx_bytes_are_read() {
    let mut buf = std::io::Cursor::new(Vec::new());
    {
        let mut w = zip::ZipWriter::new(&mut buf);
        let opts: zip::write::SimpleFileOptions = zip::write::SimpleFileOptions::default();
        w.start_file("word/document.xml", opts).unwrap();
        std::io::Write::write_all(
            &mut w,
            b"<w:document><w:body><w:p><w:r><w:t>Invoice 7</w:t></w:r></w:p><w:p><w:r><w:t>Total 3</w:t></w:r></w:p></w:body></w:document>",
        )
        .unwrap();
        w.finish().unwrap();
    }
    let word = extract_word_text(&buf.into_inner()).ok().unwrap();
    assert_eq!(word.text, "Invoice 7\nTotal 3");
}

#[test]
fn image_dimensions_are_read() {
    let img = image::RgbImage::new(3, 2);
    let mut buf = std::io::Cursor::new(Vec::new());
    img.write_to(&mut buf, image::ImageFormat::Png).unwrap();
    let probe = extract_image_text(&buf.into_inner()).ok().unwrap();
    assert_eq!((probe.width, probe.height), (3, 2));
    assert!(probe.needs_llm_vision);
    assert_eq!(probe.text, "");
}
