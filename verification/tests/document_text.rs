use std::io::Write;
use wind_knowledge::document_text::{decode_xml_entities, extract_xml_text_nodes, normalize_text, strip_xml_tags};

#[test]
fn xml_text_nodes_are_trimmed_decoded_and_one_per_line() {
    let xml = "<w:document><w:t> 叶片 &amp; 轮毂 </w:t><w:t></w:t><w:t>&lt;裂纹&gt;</w:t></w:document>";
    assert_eq!(extract_xml_text_nodes(xml), "叶片 & 轮毂\n<裂纹>\n");
    assert_eq!(strip_xml_tags(xml), extract_xml_text_nodes(xml));
    assert_eq!(extract_xml_text_nodes("no tags"), "");
    assert_eq!(extract_xml_text_nodes("<a>unterminated"), "");
}

#[test]
fn entities_are_decoded_in_order() {
    assert_eq!(decode_xml_entities("&quot;a&quot; &apos;b&apos;"), "\"a\" 'b'");
    // `&amp;` is decoded after `&lt;`, so `&amp;lt;` becomes `&lt;`.
    assert_eq!(decode_xml_entities("&amp;lt;"), "&lt;");
    assert_eq!(decode_xml_entities("plain"), "plain");
}

#[test]
fn normalize_text_keeps_trimmed_non_blank_lines() {
    assert_eq!(normalize_text("  a  \n\n\t b\r\n   \nc"), "a\nb\nc");
    assert_eq!(normalize_text(""), "");
    assert_eq!(normalize_text("\n\n"), "");
    assert_eq!(normalize_text("single"), "single");
}

fn zip_bytes(entries: &[(&str, &str)]) -> Vec<u8> {
    let mut zip = zip::ZipWriter::new(std::io::Cursor::new(Vec::new()));
    let options = zip::write::SimpleFileOptions::default();
    for (name, body) in entries {
        zip.start_file(*name, options).expect("start zip entry");
        zip.write_all(body.as_bytes()).expect("write zip entry");
    }
    zip.finish().expect("finish zip").into_inner()
}

#[test]
fn parses_minimal_docx_text() {
    let bytes = zip_bytes(&[(
        "word/document.xml",
        r#"<w:document><w:body><w:p><w:r><w:t>Blade leading edge inspection</w:t></w:r></w:p></w:body></w:document>"#,
    )]);
    let path = "knowledge_base/manuals/blade_manual.docx";
    let text = wind_knowledge::document_text::extract_docx_text(&bytes, path);
    let record = wind_knowledge::document::parse_document(
        path,
        "repo:knowledge_base/manuals/blade_manual.docx",
        text,
    )
    .expect("docx should parse");
    let text = record.text.expect("docx text");
    assert!(text.contains("Blade leading edge inspection"));
    assert_eq!(record.metadata.file_type, "docx");
    assert_eq!(record.metadata.domain, "Blade");
}

#[test]
fn parses_minimal_xlsx_text() {
    let bytes = zip_bytes(&[
        ("xl/sharedStrings.xml", r#"<sst><si><t>风速</t></si><si><t>功率曲线</t></si></sst>"#),
        (
            "xl/worksheets/sheet1.xml",
            r#"<worksheet><sheetData><row><c><v>12.4</v></c><c><v>1800</v></c></row></sheetData></worksheet>"#,
        ),
    ]);
    let path = "knowledge_base/scada_rules/scada_export.xlsx";
    let text = wind_knowledge::document_text::extract_xlsx_text(&bytes, path);
    let record = wind_knowledge::document::parse_document(
        path,
        "repo:knowledge_base/scada_rules/scada_export.xlsx",
        text,
    )
    .expect("xlsx should parse");
    let text = record.text.expect("xlsx text");
    assert!(text.contains("风速"));
    assert!(text.contains("1800"));
    assert_eq!(record.metadata.file_type, "xlsx");
    assert_eq!(record.metadata.domain, "SCADA");
}

#[test]
fn office_text_errors_say_what_failed() {
    let not_zip = vec![1u8, 2, 3];
    let e = wind_knowledge::document_text::extract_docx_text(&not_zip, "a.docx").unwrap_err();
    assert!(e.starts_with("open zip a.docx: "));
    let empty_docx = zip_bytes(&[("other.xml", "<a/>")]);
    let e = wind_knowledge::document_text::extract_docx_text(&empty_docx, "b.docx").unwrap_err();
    assert!(e.starts_with("docx missing word/document.xml in b.docx: "));
    let sheets_only = zip_bytes(&[("xl/worksheets/s.xml", "<c><v>7</v></c>"), ("xl/other.txt", ">x<")]);
    assert_eq!(wind_knowledge::document_text::extract_xlsx_text(&sheets_only, "c.xlsx").unwrap(), "7");
}

#[test]
fn pdf_text_is_normalised_literals() {
    let pdf = b"%PDF-1.4\nBT (Gearbox bearing) Tj ( ) Tj (oil temp) Tj ET".to_vec();
    assert_eq!(wind_knowledge::document_text::extract_pdf_text(&pdf), "Gearbox bearing\noil temp");
}
