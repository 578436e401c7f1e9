//! Tests for the PDF model: version and page splitting, content-stream
//! string decoding, font style classification and rendering.

use mdm_core::pdf::{
    decode_hex_string, detect_font_style, extract_pdf_string, extract_pdf_text_array,
    unescape_pdf_string, EncryptionInfo, ImageFormat, LayoutElementType, PageContent, PdfDocument,
    PdfError, PdfFont, PdfImage, PdfMetadata, PdfParser, PdfTable, TextAlignment,
};

#[test]
fn test_version_detection() {
    let parser = PdfParser { data: b"%PDF-1.7\n".to_vec() };
    assert_eq!(parser.extract_version(), "1.7");
}

#[test]
fn test_page_split() {
    let parser = PdfParser { data: b"%PDF-1.4\n".to_vec() };

    let text = "Page 1 content\x0CPage 2 content\x0CPage 3 content";
    let pages = parser.split_into_pages(text, 3);
    assert_eq!(pages.len(), 3);
    assert_eq!(pages[0].page_number, 1);
    assert_eq!(pages[0].text, "Page 1 content");
}

#[test]
fn test_image_format_extension() {
    assert_eq!(ImageFormat::Jpeg.extension(), "jpg");
    assert_eq!(ImageFormat::Png.extension(), "png");
    assert_eq!(ImageFormat::Raw.extension(), "raw");
}

#[test]
fn test_pdf_image_filename() {
    let image = PdfImage {
        id: "image_1".to_string(),
        width: 100,
        height: 200,
        format: ImageFormat::Jpeg,
        data: vec![],
        page: None,
    };
    assert_eq!(image.filename(), "image_1.jpg");
}

#[test]
fn test_mdx_with_images() {
    let doc = PdfDocument {
        version: "1.7".to_string(),
        page_count: 1,
        pages: vec![PageContent { page_number: 1, text: "Hello".to_string() }],
        metadata: PdfMetadata::default(),
        images: vec![PdfImage {
            id: "image_1".to_string(),
            width: 800,
            height: 600,
            format: ImageFormat::Jpeg,
            data: vec![],
            page: None,
        }],
        fonts: vec![],
        tables: vec![],
    };

    let mdx = doc.to_mdx();
    assert!(mdx.contains("images: 1"));
    assert!(mdx.contains("## Images"));
    assert!(mdx.contains("image_1.jpg (800x600, JPG)"));
}

#[test]
fn test_font_style_detection_bold() {
    let style = detect_font_style("Arial-Bold");
    assert!(style.bold);
    assert!(!style.italic);

    let style = detect_font_style("TimesNewRoman-BoldMT");
    assert!(style.bold);
    assert!(!style.italic);

    let style = detect_font_style("Helvetica-Black");
    assert!(style.bold);
    assert!(!style.italic);
}

#[test]
fn test_font_style_detection_italic() {
    let style = detect_font_style("Arial-Italic");
    assert!(!style.bold);
    assert!(style.italic);

    let style = detect_font_style("TimesNewRoman-ItalicMT");
    assert!(!style.bold);
    assert!(style.italic);

    let style = detect_font_style("Helvetica-Oblique");
    assert!(!style.bold);
    assert!(style.italic);
}

#[test]
fn test_font_style_detection_bold_italic() {
    let style = detect_font_style("Arial-BoldItalic");
    assert!(style.bold);
    assert!(style.italic);

    let style = detect_font_style("TimesNewRoman-BoldItalicMT");
    assert!(style.bold);
    assert!(style.italic);
}

#[test]
fn test_font_style_detection_regular() {
    let style = detect_font_style("Arial");
    assert!(!style.bold);
    assert!(!style.italic);

    let style = detect_font_style("TimesNewRomanPSMT");
    assert!(!style.bold);
    assert!(!style.italic);
}

#[test]
fn test_mdx_with_fonts() {
    let doc = PdfDocument {
        version: "1.7".to_string(),
        page_count: 1,
        pages: vec![PageContent { page_number: 1, text: "Hello".to_string() }],
        metadata: PdfMetadata::default(),
        images: vec![],
        fonts: vec![
            PdfFont {
                name: "F1".to_string(),
                base_font: "Arial-Bold".to_string(),
                is_bold: true,
                is_italic: false,
            },
            PdfFont {
                name: "F2".to_string(),
                base_font: "Arial-Italic".to_string(),
                is_bold: false,
                is_italic: true,
            },
        ],
        tables: vec![],
    };

    let mdx = doc.to_mdx();
    assert!(mdx.contains("fonts: 2"));
    assert!(mdx.contains("## Font Styles"));
    assert!(mdx.contains("Arial-Bold (Bold)"));
    assert!(mdx.contains("Arial-Italic (Italic)"));
}

#[test]
fn pdf_test_table_to_markdown() {
    let table = PdfTable {
        page: 1,
        rows: vec![
            vec!["Name".to_string(), "Age".to_string(), "City".to_string()],
            vec!["Alice".to_string(), "30".to_string(), "NYC".to_string()],
            vec!["Bob".to_string(), "25".to_string(), "LA".to_string()],
        ],
        column_count: 3,
    };

    let md = table.to_markdown();
    assert!(md.contains("| Name | Age | City |"));
    assert!(md.contains("| --- | --- | --- |"));
    assert!(md.contains("| Alice | 30 | NYC |"));
    assert!(md.contains("| Bob | 25 | LA |"));
}

#[test]
fn test_pdf_string_extraction() {
    assert_eq!(extract_pdf_string("(Hello) Tj"), Some("Hello".to_string()));
    assert_eq!(extract_pdf_string("(Hello\\nWorld) Tj"), Some("Hello\nWorld".to_string()));
    assert_eq!(extract_pdf_string("<48656C6C6F> Tj"), Some("Hello".to_string()));
}

#[test]
fn test_pdf_text_array_extraction() {
    assert_eq!(
        extract_pdf_text_array("[(Hello) -10 (World)] TJ"),
        Some("HelloWorld".to_string())
    );
    assert_eq!(extract_pdf_text_array("[(Test)] TJ"), Some("Test".to_string()));
}

#[test]
fn test_mdx_with_tables() {
    let doc = PdfDocument {
        version: "1.7".to_string(),
        page_count: 1,
        pages: vec![PageContent { page_number: 1, text: "Hello".to_string() }],
        metadata: PdfMetadata::default(),
        images: vec![],
        fonts: vec![],
        tables: vec![PdfTable {
            page: 1,
            rows: vec![
                vec!["A".to_string(), "B".to_string()],
                vec!["1".to_string(), "2".to_string()],
            ],
            column_count: 2,
        }],
    };

    let mdx = doc.to_mdx();
    assert!(mdx.contains("tables: 1"));
    assert!(mdx.contains("## Tables"));
    assert!(mdx.contains("| A | B |"));
    assert!(mdx.contains("| 1 | 2 |"));
}

#[test]
fn test_layout_element_types() {
    assert_eq!(LayoutElementType::Text, LayoutElementType::Text);
    assert_ne!(LayoutElementType::Text, LayoutElementType::Image);
    assert_ne!(LayoutElementType::Header, LayoutElementType::Footer);
}

#[test]
fn test_text_alignment_default() {
    let alignment: TextAlignment = Default::default();
    assert_eq!(alignment, TextAlignment::Left);
}

#[test]
fn test_encryption_info_struct() {
    let info = EncryptionInfo {
        version: 4,
        revision: 4,
        key_length: 128,
        user_password_set: true,
        owner_password_set: true,
        permissions: -3904,
    };

    assert_eq!(info.version, 4);
    assert_eq!(info.key_length, 128);
    assert!(info.user_password_set);
}

#[test]
fn test_pdf_error_display() {
    let err = PdfError::EncryptedNoPassword;
    assert!(err.message().contains("encrypted"));

    let err = PdfError::InvalidPassword;
    assert!(err.message().contains("Invalid password"));

    let err = PdfError::UnsupportedEncryption("AES-512".to_string());
    assert!(err.message().contains("AES-512"));
}

#[test]
fn pdf_from_bytes_checks_magic() {
    assert!(PdfParser::from_bytes(b"%PDF-1.4\nrest".to_vec()).is_ok());
    let bad = PdfParser::from_bytes(b"hello".to_vec());
    match bad {
        Ok(_) => panic!("a non-PDF must be rejected"),
        Err(e) => assert!(e.message().contains("Not a valid PDF file")),
    }
}

#[test]
fn unescape_handles_octal_and_controls() {
    assert_eq!(unescape_pdf_string("a\\tb"), "a\tb");
    assert_eq!(unescape_pdf_string("a\\(b\\)c"), "a(b)c");
    // \101 is octal for the letter A
    assert_eq!(unescape_pdf_string("x\\101y"), "xAy");
    // digits past seven spoil the octal escape and it yields nothing
    assert_eq!(unescape_pdf_string("x\\89y"), "xy");
}

#[test]
fn hex_strings_skip_spaces_and_bad_pairs() {
    assert_eq!(decode_hex_string("48 65 6C 6C 6F"), Some("Hello".to_string()));
    assert_eq!(decode_hex_string("48zz65"), Some("He".to_string()));
}

#[test]
fn full_text_joins_pages() {
    let doc = PdfDocument {
        version: "1.4".to_string(),
        page_count: 2,
        pages: vec![
            PageContent { page_number: 1, text: "one".to_string() },
            PageContent { page_number: 2, text: "two".to_string() },
        ],
        metadata: PdfMetadata::default(),
        images: vec![],
        fonts: vec![],
        tables: vec![],
    };
    assert_eq!(doc.full_text(), "one\n\ntwo");
}

#[test]
fn page_split_by_line_runs() {
    let parser = PdfParser { data: b"%PDF-1.4\n".to_vec() };
    let text = "a\nb\nc\nd";
    let pages = parser.split_into_pages(text, 2);
    assert_eq!(pages.len(), 2);
    assert_eq!(pages[0].text, "a\nb");
    assert_eq!(pages[1].page_number, 2);
    assert_eq!(pages[1].text, "c\nd");
}
