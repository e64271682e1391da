use harvex::detector::{extension, FileType};

#[test]
fn detect_by_content_type() {
    assert_eq!(FileType::detect("file.bin", "application/pdf"), FileType::Pdf);
    assert_eq!(FileType::detect("file.bin", "image/png"), FileType::Image);
    assert_eq!(
        FileType::detect(
            "file.bin",
            "application/vnd.openxmlformats-officedocument.spreadsheetml.sheet"
        ),
        FileType::Excel
    );
}

#[test]
fn detect_by_extension() {
    assert_eq!(
        FileType::detect("invoice.pdf", "application/octet-stream"),
        FileType::Pdf
    );
    assert_eq!(
        FileType::detect("photo.jpg", "application/octet-stream"),
        FileType::Image
    );
    assert_eq!(
        FileType::detect("data.xlsx", "application/octet-stream"),
        FileType::Excel
    );
    assert_eq!(
        FileType::detect("report.docx", "application/octet-stream"),
        FileType::Word
    );
}

#[test]
fn detect_uppercase_extension_is_lowered() {
    assert_eq!(FileType::detect("SCAN.PDF", "application/octet-stream"), FileType::Pdf);
    assert_eq!(
        FileType::detect("notes.TXT", "application/octet-stream"),
        FileType::Unknown("txt".to_string())
    );
}

#[test]
fn detect_word_and_csv_mime_types() {
    assert_eq!(FileType::detect("x", "application/msword"), FileType::Word);
    assert_eq!(FileType::detect("x", "text/csv"), FileType::Excel);
    assert_eq!(FileType::detect("a.pdf", "image/jpeg"), FileType::Image);
}

#[test]
fn extension_edge_cases() {
    assert_eq!(extension("dir.v2/file"), "");
    assert_eq!(extension(".bashrc"), "");
    assert_eq!(extension("archive.tar.gz"), "gz");
    assert_eq!(extension("up/load/invoice.PDF"), "PDF");
    assert_eq!(FileType::detect("noext", "application/octet-stream"), FileType::Unknown(String::new()));
}

#[test]
fn labels() {
    assert_eq!(FileType::Pdf.label(), "PDF");
    assert_eq!(FileType::Unknown("zip".to_string()).label(), "Unknown");
}
