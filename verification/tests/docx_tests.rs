//! Tests for the DOCX document model and its markdown and MDX rendering.

use mdm_core::docx::{DocxDocument, DocxMetadata, DocxTable, Paragraph, TableCell, TextRun};

#[test]
fn test_text_run_markdown() {
    let run = TextRun { text: "hello".to_string(), bold: true, italic: false, ..Default::default() };
    assert_eq!(run.to_markdown(), "**hello**");

    let run2 = TextRun { text: "world".to_string(), bold: true, italic: true, ..Default::default() };
    assert_eq!(run2.to_markdown(), "***world***");
}

#[test]
fn test_paragraph_heading() {
    let para = Paragraph {
        runs: vec![TextRun { text: "Title".to_string(), ..Default::default() }],
        style: Some("Heading1".to_string()),
        ..Default::default()
    };
    assert_eq!(para.to_markdown(), "# Title");
}

#[test]
fn test_table_markdown() {
    let table = DocxTable {
        rows: vec![
            vec![
                TableCell { content: "A".to_string(), col_span: 1, row_span: 1 },
                TableCell { content: "B".to_string(), col_span: 1, row_span: 1 },
            ],
            vec![
                TableCell { content: "1".to_string(), col_span: 1, row_span: 1 },
                TableCell { content: "2".to_string(), col_span: 1, row_span: 1 },
            ],
        ],
        has_header: true,
    };

    let md = table.to_markdown();
    assert!(md.contains("| A | B |"));
    assert!(md.contains("| --- | --- |"));
    assert!(md.contains("| 1 | 2 |"));
}

#[test]
fn docx_document_text_and_mdx() {
    let doc = DocxDocument {
        paragraphs: vec![
            Paragraph {
                runs: vec![TextRun { text: "One".to_string(), ..Default::default() }],
                ..Default::default()
            },
            Paragraph {
                runs: vec![TextRun { text: "Two".to_string(), bold: true, ..Default::default() }],
                ..Default::default()
            },
        ],
        tables: vec![],
        images: vec![],
        metadata: DocxMetadata { title: Some("T".to_string()), ..Default::default() },
    };
    assert_eq!(doc.text(), "One\nTwo");
    assert_eq!(doc.to_markdown(), "One\n\n**Two**");
    let mdx = doc.to_mdx("a.docx");
    assert!(mdx.starts_with("---\n"));
    assert!(mdx.contains("title: \"T\"\n"));
    assert!(mdx.contains("source: \"a.docx\"\n"));
    assert!(mdx.contains("format: docx\n"));
    assert!(mdx.ends_with("One\n\n**Two**"));
}
