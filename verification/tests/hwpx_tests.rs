//! Tests for the XML-based sibling format: table markdown, attribute and
//! cell-text scanning, style tables and run formatting.

use mdm_core::hwpx::{
    apply_markdown_formatting, extract_attr, extract_cell_text, parse_char_properties, CharStyle,
    Table,
};

#[test]
fn hwpx_test_table_to_markdown() {
    let table = Table {
        rows: 2,
        cols: 3,
        cells: vec![
            vec!["헤더1".to_string(), "헤더2".to_string(), "헤더3".to_string()],
            vec!["데이터1".to_string(), "데이터2".to_string(), "데이터3".to_string()],
        ],
        has_header: true,
    };

    let md = table.to_markdown();
    assert!(md.contains("| 헤더1 |"));
    assert!(md.contains("|---|---|---|"));
    assert!(md.contains("| 데이터1 |"));
}

#[test]
fn test_extract_cell_text() {
    let xml = r#"<hp:tc><hp:subList><hp:p><hp:run><hp:t>테스트</hp:t></hp:run></hp:p></hp:subList></hp:tc>"#;
    let text = extract_cell_text(xml);
    assert_eq!(text, "테스트");
}

#[test]
fn test_extract_attr() {
    let xml = r#"<hp:tbl rowCnt="5" colCnt="3">"#;
    assert_eq!(extract_attr(xml, "rowCnt"), Some("5".to_string()));
    assert_eq!(extract_attr(xml, "colCnt"), Some("3".to_string()));
}

#[test]
fn parser_test_apply_markdown_formatting() {
    let style = CharStyle { bold: true, italic: false, underline: false, strikeout: false };
    assert_eq!(apply_markdown_formatting("테스트", &style), "**테스트**");

    let style = CharStyle { bold: false, italic: true, underline: false, strikeout: false };
    assert_eq!(apply_markdown_formatting("테스트", &style), "*테스트*");

    let style = CharStyle { bold: true, italic: true, underline: false, strikeout: false };
    assert_eq!(apply_markdown_formatting("테스트", &style), "***테스트***");

    let style = CharStyle { bold: false, italic: false, underline: true, strikeout: false };
    assert_eq!(apply_markdown_formatting("테스트", &style), "<u>테스트</u>");

    let style = CharStyle { bold: false, italic: false, underline: false, strikeout: true };
    assert_eq!(apply_markdown_formatting("테스트", &style), "~~테스트~~");

    let style = CharStyle { bold: true, italic: false, underline: true, strikeout: true };
    assert_eq!(apply_markdown_formatting("테스트", &style), "<u>**~~테스트~~**</u>");
}

#[test]
fn test_parse_char_properties() {
    let header_xml = r#"
        <hh:charPr id="0" height="1000">
            <hh:underline type="NONE"/>
            <hh:strikeout shape="NONE"/>
        </hh:charPr>
        <hh:charPr id="7" height="1100">
            <hh:bold/>
            <hh:underline type="NONE"/>
            <hh:strikeout shape="NONE"/>
        </hh:charPr>
        <hh:charPr id="28" height="2200">
            <hh:bold/>
            <hh:underline type="BOTTOM"/>
            <hh:strikeout shape="NONE"/>
        </hh:charPr>
        <hh:charPr id="99" height="1000">
            <hh:underline type="NONE"/>
            <hh:strikeout shape="3D"/>
        </hh:charPr>
    "#;

    let styles = parse_char_properties(header_xml);

    let style0 = styles.get(&0).unwrap();
    assert!(!style0.bold);
    assert!(!style0.underline);
    assert!(!style0.strikeout);

    let style7 = styles.get(&7).unwrap();
    assert!(style7.bold);
    assert!(!style7.underline);
    assert!(!style7.strikeout);

    let style28 = styles.get(&28).unwrap();
    assert!(style28.bold);
    assert!(style28.underline);
    assert!(!style28.strikeout);

    let style99 = styles.get(&99).unwrap();
    assert!(!style99.bold);
    assert!(!style99.underline);
    assert!(style99.strikeout);
}

use mdm_core::hwpx::remove_xml_tags;

#[test]
fn test_remove_xml_tags() {
    let text = "앞<hp:tab width=\"100\" type=\"1\"/>뒤";
    let result = remove_xml_tags(text, "hp:tab");
    assert!(result.contains("앞"));
    assert!(result.contains("뒤"));
    assert!(!result.contains("<hp:tab"));
}
