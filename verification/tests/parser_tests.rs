//! Cross-format tests: the HWP record and text layer, the DOCX model and
//! the PDF model, exercised side by side.

use mdm_core::docx::{DocxTable, Paragraph, TableCell, TextRun};
use mdm_core::hwptext::extract_para_text;
use mdm_core::pdf::{FontStyle, ImageFormat, LayoutElementType, PdfTable, TextAlignment};
use mdm_core::record::{RecordParser, HWPTAG_PARA_TEXT};
use mdm_core::table::HwpTable;

#[test]
fn test_hwp_korean_text_encoding() {
    let data = vec![0x48, 0xC5, 0x55, 0xB1];
    let text = extract_para_text(&data);
    assert_eq!(text, "안녕");
}

#[test]
fn test_hwp_record_parsing() {
    let header: u32 = 0x43 | (0 << 10) | (4 << 20);
    let mut data = header.to_le_bytes().to_vec();
    data.extend_from_slice(&[b'T', b'e', b's', b't']);

    let mut parser = RecordParser::new(&data);
    let record = parser.parse_next().expect("Failed to parse record");

    assert_eq!(record.tag_id, HWPTAG_PARA_TEXT);
    assert_eq!(record.level, 0);
    assert_eq!(record.size, 4);
}

#[test]
fn test_hwp_table_markdown_output() {
    let mut table = HwpTable::new(2, 2);
    table.cells[0][0].content = "A".to_string();
    table.cells[0][1].content = "B".to_string();
    table.cells[1][0].content = "1".to_string();
    table.cells[1][1].content = "2".to_string();

    let md = table.to_markdown();
    assert!(md.contains("| A | B |"));
    assert!(md.contains("| --- | --- |"));
    assert!(md.contains("| 1 | 2 |"));
}

#[test]
fn test_docx_text_run_markdown() {
    let run = TextRun { text: "hello".to_string(), bold: true, italic: false, ..Default::default() };
    assert_eq!(run.to_markdown(), "**hello**");

    let run2 = TextRun { text: "world".to_string(), bold: true, italic: true, ..Default::default() };
    assert_eq!(run2.to_markdown(), "***world***");
}

#[test]
fn test_docx_paragraph_heading() {
    let para = Paragraph {
        runs: vec![TextRun { text: "Title".to_string(), ..Default::default() }],
        style: Some("Heading1".to_string()),
        ..Default::default()
    };
    assert_eq!(para.to_markdown(), "# Title");
}

#[test]
fn test_docx_table_markdown() {
    let table = DocxTable {
        rows: vec![
            vec![
                TableCell { content: "A".to_string(), col_span: 1, row_span: 1 },
                TableCell { content: "B".to_string(), col_span: 1, row_span: 1 },
            ],
            vec![
                TableCell { content: "1".to_string(), col_span: 1, row_span: 1 },
                TableCell { content: "2".to_string(), col_span: 1, row_span: 1 },
            ],
        ],
        has_header: true,
    };

    let md = table.to_markdown();
    assert!(md.contains("| A | B |"));
    assert!(md.contains("| --- | --- |"));
    assert!(md.contains("| 1 | 2 |"));
}

#[test]
fn test_docx_list_item() {
    let para = Paragraph {
        runs: vec![TextRun { text: "List item".to_string(), ..Default::default() }],
        is_list_item: true,
        list_type: Some("bullet".to_string()),
        ..Default::default()
    };
    assert_eq!(para.to_markdown(), "- List item");

    let numbered = Paragraph {
        runs: vec![TextRun { text: "Numbered item".to_string(), ..Default::default() }],
        is_list_item: true,
        list_type: Some("number".to_string()),
        ..Default::default()
    };
    assert_eq!(numbered.to_markdown(), "1. Numbered item");
}

#[test]
fn test_docx_strikethrough() {
    let run = TextRun { text: "deleted".to_string(), strike: true, ..Default::default() };
    assert_eq!(run.to_markdown(), "~~deleted~~");
}

#[test]
fn test_pdf_version_detection() {
    let header = b"%PDF-1.7\n";
    let version_str = std::str::from_utf8(&header[5..8]).unwrap();
    assert_eq!(version_str, "1.7");
}

#[test]
fn test_pdf_image_format() {
    assert_eq!(ImageFormat::Jpeg.extension(), "jpg");
    assert_eq!(ImageFormat::Png.extension(), "png");
    assert_eq!(ImageFormat::Raw.extension(), "raw");
}

#[test]
fn test_pdf_table_to_markdown() {
    let table = PdfTable {
        page: 1,
        rows: vec![
            vec!["Name".to_string(), "Age".to_string()],
            vec!["Alice".to_string(), "30".to_string()],
        ],
        column_count: 2,
    };

    let md = table.to_markdown();
    assert!(md.contains("| Name | Age |"));
    assert!(md.contains("| --- |"));
    assert!(md.contains("| Alice | 30 |"));
}

#[test]
fn test_pdf_font_style_detection() {
    fn detect_style(name: &str) -> FontStyle {
        let name_lower = name.to_lowercase();
        FontStyle {
            bold: name_lower.contains("bold"),
            italic: name_lower.contains("italic") || name_lower.contains("oblique"),
        }
    }

    let bold = detect_style("Arial-Bold");
    assert!(bold.bold);
    assert!(!bold.italic);

    let italic = detect_style("Arial-Italic");
    assert!(!italic.bold);
    assert!(italic.italic);

    let bold_italic = detect_style("Arial-BoldItalic");
    assert!(bold_italic.bold);
    assert!(bold_italic.italic);
}

#[test]
fn test_pdf_layout_element_types() {
    assert_eq!(LayoutElementType::Text, LayoutElementType::Text);
    assert_ne!(LayoutElementType::Text, LayoutElementType::Image);
}

#[test]
fn test_pdf_text_alignment() {
    let default: TextAlignment = Default::default();
    assert_eq!(default, TextAlignment::Left);
}

#[test]
fn test_korean_text_handling() {
    let korean = "안녕하세요 테스트입니다";
    assert!(korean.chars().all(|c| c.is_alphanumeric() || c.is_whitespace()));
}
