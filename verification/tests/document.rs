use wind_knowledge::document::{
    classify_document, detect_file_type, extract_pdf_literal_strings, parse_document, FileType,
};

#[test]
fn detects_supported_file_types() {
    assert_eq!(detect_file_type("a.pdf"), Some(FileType::Pdf));
    assert_eq!(detect_file_type("a.docx"), Some(FileType::Docx));
    assert_eq!(detect_file_type("a.xlsx"), Some(FileType::Xlsx));
    assert_eq!(detect_file_type("a.csv"), Some(FileType::Csv));
    assert_eq!(detect_file_type("a.txt"), Some(FileType::Txt));
    assert_eq!(detect_file_type("a.md"), Some(FileType::Markdown));
    assert_eq!(detect_file_type("a.json"), Some(FileType::Json));
    assert_eq!(detect_file_type("a.jpg"), Some(FileType::Jpg));
    assert_eq!(detect_file_type("a.jpeg"), Some(FileType::Jpeg));
    assert_eq!(detect_file_type("a.png"), Some(FileType::Png));
    assert_eq!(detect_file_type("a.mp4"), Some(FileType::Mp4));
    assert_eq!(detect_file_type("a.bin"), None);
}

#[test]
fn classifies_blade_and_scada_rules() {
    let blade = classify_document(
        "knowledge_base/uav_inspection/blade_crack.md",
        "repo:knowledge_base/uav_inspection/blade_crack.md",
        FileType::Markdown,
        Some("leading edge crack"),
    );
    assert_eq!(blade.domain, "Blade");
    assert_eq!(blade.equipment, "blade");

    let scada = classify_document(
        "knowledge_base/scada_rules/power_curve.csv",
        "repo:knowledge_base/scada_rules/power_curve.csv",
        FileType::Csv,
        Some("风速,功率曲线,报警"),
    );
    assert_eq!(scada.domain, "SCADA");
    assert_eq!(scada.equipment, "scada");
}

#[test]
fn simple_pdf_literal_strings_are_extracted() {
    let pdf = b"%PDF-1.4\n1 0 obj\n<<>>\nstream\nBT (Gearbox bearing oil temperature) Tj ET\nendstream\nendobj\n%%EOF";
    let text = extract_pdf_literal_strings(pdf);
    assert!(text.contains("Gearbox bearing oil temperature"));
}

#[test]
fn pdf_literals_keep_nesting_and_escapes_and_skip_symbols() {
    let text = extract_pdf_literal_strings(b"(a (b) c) (\\)x) (--) (open");
    assert_eq!(text, "a (b) c\n)x\nopen\n");
}

#[test]
fn extension_rules_follow_path_semantics() {
    assert_eq!(detect_file_type("dir/REPORT.PDF"), Some(FileType::Pdf));
    assert_eq!(detect_file_type("notes.markdown"), Some(FileType::Markdown));
    assert_eq!(detect_file_type(".pdf"), None);
    assert_eq!(detect_file_type("a.tar.json"), Some(FileType::Json));
    assert_eq!(detect_file_type("dir.pdf/"), Some(FileType::Pdf));
    assert_eq!(detect_file_type("x/.."), None);
    assert_eq!(detect_file_type("noext"), None);
    assert_eq!(detect_file_type(""), None);
}

#[test]
fn file_type_names() {
    assert_eq!(FileType::Markdown.as_str(), "md");
    assert_eq!(FileType::Mp4.to_string(), "mp4");
    assert!(FileType::Png.is_reserved_media());
    assert!(!FileType::Pdf.is_reserved_media());
}

#[test]
fn parse_document_reports_unsupported_types() {
    let err = parse_document("a.bin", "repo:a.bin", Ok(String::new())).err().unwrap();
    assert_eq!(err, "unsupported file type: a.bin");
}

#[test]
fn media_is_classified_without_text() {
    let record = parse_document(
        "kb/uav_inspection/uav_blade.jpg",
        "repo:knowledge_base/uav_inspection/uav_blade.jpg",
        Err("not read".to_string()),
    )
    .unwrap();
    assert!(record.text.is_none());
    assert!(record.metadata.reserved_media);
    assert_eq!(record.metadata.parser_status, "reserved_media_only");
    assert_eq!(record.metadata.domain, "Blade");
    assert_eq!(record.metadata.source_type, "reserved_media");
    assert_eq!(record.metadata.equipment, "blade");
}

#[test]
fn read_errors_pass_through_and_text_is_classified() {
    let err = parse_document("kb/a.txt", "repo:kb/a.txt", Err("read kb/a.txt: denied".to_string()))
        .err()
        .unwrap();
    assert_eq!(err, "read kb/a.txt: denied");
    let record = parse_document(
        "kb\\manuals\\gear.txt",
        "repo:KB/Manuals/gear.txt",
        Ok("齿轮箱油温".to_string()),
    )
    .unwrap();
    assert_eq!(record.text.as_deref(), Some("齿轮箱油温"));
    assert_eq!(record.metadata.original_path, "kb/manuals/gear.txt");
    assert_eq!(record.metadata.source_type, "manual");
    assert_eq!(record.metadata.domain, "Gearbox");
    assert_eq!(record.metadata.equipment, "gearbox");
    assert_eq!(record.metadata.file_type, "txt");
    assert_eq!(record.metadata.parser_status, "parsed_text");
}

#[test]
fn reserved_media_has_no_text() {
    let record = wind_knowledge::document::parse_document(
        "tmp/uav_blade.jpg",
        "repo:knowledge_base/uav_inspection/uav_blade.jpg",
        Ok(String::new()),
    )
    .expect("media should classify");
    assert!(record.text.is_none());
    assert!(record.metadata.reserved_media);
    assert_eq!(record.metadata.parser_status, "reserved_media_only");
    assert_eq!(record.metadata.domain, "Blade");
}

#[test]
fn every_type_name_is_detected_back() {
    for t in [
        FileType::Pdf,
        FileType::Docx,
        FileType::Xlsx,
        FileType::Csv,
        FileType::Txt,
        FileType::Markdown,
        FileType::Json,
        FileType::Jpg,
        FileType::Jpeg,
        FileType::Png,
        FileType::Mp4,
    ] {
        assert_eq!(detect_file_type(&format!("a.{}", t.as_str())), Some(t));
    }
}
