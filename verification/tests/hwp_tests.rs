//! Tests for the HWP record decoder, text reconstruction, character shapes,
//! tables, flags, image sniffing and decompression.

use mdm_core::hwpdoc::{
    decode_bin_data, decompress_zlib, detect_image_format, make_image_data,
    parse_section_records_formatted, bin_data_names, count_sections, extract_text_from_sections,
    parse_version, HwpFlags,
};
use mdm_core::hwptext::{
    apply_markdown_formatting, extract_para_text, extract_para_text_formatted, parse_char_shape,
    parse_para_char_shape, CharShape, ParaCharShapeMapping, CHAR_TAB,
};
use mdm_core::record::{
    encode_record_header, HwpRecord, RecordParser, HWPTAG_LIST_HEADER, HWPTAG_PARA_HEADER,
    HWPTAG_PARA_TEXT, HWPTAG_TABLE,
};
use mdm_core::table::{organize_cells, parse_cell_list_header, parse_table_info,
    extract_tables_from_records, HwpTable, TableData};
use std::collections::HashMap;
use std::io::Write;

#[test]
fn test_record_header_parsing() {
    // tag = PARA_TEXT, level = 0, size = 4
    let header: u32 = 0x43 | (0 << 10) | (4 << 20);
    let mut data = header.to_le_bytes().to_vec();
    data.extend_from_slice(&[b'T', b'e', b's', b't']);

    let mut parser = RecordParser::new(&data);
    let record = parser.parse_next().unwrap();

    assert_eq!(record.tag_id, HWPTAG_PARA_TEXT);
    assert_eq!(record.level, 0);
    assert_eq!(record.size, 4);
}

#[test]
fn record_header_round_trip_small() {
    let mut bytes = encode_record_header(0x47, 3, 100);
    assert_eq!(bytes.len(), 4);
    bytes.extend(vec![0u8; 100]);
    let mut parser = RecordParser::new(&bytes);
    let record = parser.parse_next().unwrap();
    assert_eq!(record.tag_id, 0x47);
    assert_eq!(record.level, 3);
    assert_eq!(record.size, 100);
}

#[test]
fn record_header_round_trip_extended() {
    // sizes at or above the sentinel take the extended-size path
    let mut bytes = encode_record_header(0x43, 2, 5000);
    assert_eq!(bytes.len(), 8);
    bytes.extend(vec![0xAAu8; 5000]);
    let mut parser = RecordParser::new(&bytes);
    let record = parser.parse_next().unwrap();
    assert_eq!(record.tag_id, 0x43);
    assert_eq!(record.level, 2);
    assert_eq!(record.size, 5000);
    assert_eq!(record.data.len(), 5000);
}

#[test]
fn record_truncated_tail_dropped() {
    let mut bytes = encode_record_header(0x42, 0, 2);
    bytes.extend_from_slice(&[1, 2]);
    // a second header announcing more bytes than remain
    bytes.extend(encode_record_header(0x43, 0, 50));
    bytes.extend_from_slice(&[9, 9]);
    let mut parser = RecordParser::new(&bytes);
    let records = parser.parse_all();
    assert_eq!(records.len(), 1);
    assert_eq!(records[0].tag_id, 0x42);
}

#[test]
fn test_extract_para_text() {
    let data = vec![b'H', 0, b'e', 0, b'l', 0, b'l', 0, b'o', 0];
    let text = extract_para_text(&data);
    assert_eq!(text, "Hello");
}

#[test]
fn test_korean_text() {
    // UTF-16LE for two Hangul syllables
    let data = vec![0x48, 0xC5, 0x55, 0xB1];
    let text = extract_para_text(&data);
    assert_eq!(text, "안녕");
}

#[test]
fn extract_para_text_controls() {
    // tab, then an inline control that swallows fourteen bytes, then 'A'
    let mut data = vec![CHAR_TAB as u8, 0, 0x01, 0x00];
    data.extend(vec![0u8; 14]);
    data.extend_from_slice(&[b'A', 0]);
    assert_eq!(extract_para_text(&data), "\tA");
}

#[test]
fn test_parse_char_shape() {
    let mut data = vec![0u8; 50];
    data[46] = 0x03; // bold and italic
    let shape = parse_char_shape(&data).unwrap();
    assert!(shape.bold);
    assert!(shape.italic);
    assert!(!shape.underline);
    assert!(!shape.strikeout);
}

#[test]
fn test_parse_char_shape_underline() {
    let mut data = vec![0u8; 50];
    data[46] = 0x04;
    let shape = parse_char_shape(&data).unwrap();
    assert!(!shape.bold);
    assert!(!shape.italic);
    assert!(shape.underline);
    assert!(!shape.strikeout);
}

#[test]
fn test_parse_char_shape_strikeout() {
    let mut data = vec![0u8; 50];
    data[48] = 0x04; // bit 18 of the attribute word
    let shape = parse_char_shape(&data).unwrap();
    assert!(!shape.bold);
    assert!(!shape.italic);
    assert!(!shape.underline);
    assert!(shape.strikeout);
}

#[test]
fn test_parse_para_char_shape() {
    let data = vec![
        0x00, 0x00, 0x00, 0x00, 0x00, 0x00, 0x00, 0x00, 0x05, 0x00, 0x00, 0x00, 0x01, 0x00, 0x00,
        0x00,
    ];
    let mapping = parse_para_char_shape(&data).unwrap();
    assert_eq!(mapping.mappings.len(), 2);
    assert_eq!(mapping.mappings[0], (0, 0));
    assert_eq!(mapping.mappings[1], (5, 1));
}

#[test]
fn record_test_apply_markdown_formatting() {
    let style = CharShape { bold: true, italic: false, underline: false, strikeout: false };
    assert_eq!(apply_markdown_formatting("테스트", &style), "**테스트**");

    let style = CharShape { bold: false, italic: true, underline: false, strikeout: false };
    assert_eq!(apply_markdown_formatting("테스트", &style), "*테스트*");

    let style = CharShape { bold: true, italic: true, underline: false, strikeout: false };
    assert_eq!(apply_markdown_formatting("테스트", &style), "***테스트***");

    let style = CharShape { bold: false, italic: false, underline: true, strikeout: false };
    assert_eq!(apply_markdown_formatting("테스트", &style), "<u>테스트</u>");

    let style = CharShape { bold: false, italic: false, underline: false, strikeout: true };
    assert_eq!(apply_markdown_formatting("테스트", &style), "~~테스트~~");

    let style = CharShape { bold: true, italic: false, underline: false, strikeout: true };
    assert_eq!(apply_markdown_formatting("테스트", &style), "**~~테스트~~**");
}

#[test]
fn test_extract_para_text_formatted() {
    let text_data = vec![
        b'H', 0, b'e', 0, b'l', 0, b'l', 0, b'o', 0, b' ', 0, b'W', 0, b'o', 0, b'r', 0, b'l', 0,
        b'd', 0,
    ];

    let mut char_shapes = HashMap::new();
    char_shapes.insert(0, CharShape::default());
    char_shapes.insert(
        1,
        CharShape { bold: true, italic: false, underline: false, strikeout: false },
    );

    let mapping = ParaCharShapeMapping { mappings: vec![(0, 0), (6, 1)] };

    let result = extract_para_text_formatted(&text_data, Some(&mapping), &char_shapes);
    assert_eq!(result, "Hello **World**");
}

#[test]
fn test_image_format_detection() {
    let jpeg = vec![0xFF, 0xD8, 0xFF, 0xE0, 0x00, 0x00, 0x00, 0x00];
    assert_eq!(detect_image_format(&jpeg), "jpeg");

    let png = vec![0x89, 0x50, 0x4E, 0x47, 0x0D, 0x0A, 0x1A, 0x0A];
    assert_eq!(detect_image_format(&png), "png");

    let gif = vec![0x47, 0x49, 0x46, 0x38, 0x39, 0x61, 0x00, 0x00];
    assert_eq!(detect_image_format(&gif), "gif");

    let bmp = vec![0x42, 0x4D, 0x00, 0x00, 0x00, 0x00, 0x00, 0x00];
    assert_eq!(detect_image_format(&bmp), "bmp");

    let wmf = vec![0xD7, 0xCD, 0xC6, 0x9A, 0x00, 0x00, 0x00, 0x00];
    assert_eq!(detect_image_format(&wmf), "wmf");

    let webp = b"RIFF\x00\x00\x00\x00WEBP";
    assert_eq!(detect_image_format(webp), "webp");

    let short = vec![0xFF, 0xD8];
    assert_eq!(detect_image_format(&short), "");
}

#[test]
fn image_sniffing_by_prefix_alone() {
    // a prefix match counts as soon as four bytes exist
    assert_eq!(detect_image_format(&[0xFF, 0xD8, 0xFF, 0xE0]), "jpeg");
    assert_eq!(detect_image_format(&[0x89, 0x50, 0x4E, 0x47]), "png");
    assert_eq!(detect_image_format(&[0x47, 0x49, 0x46, 0x38]), "gif");
    assert_eq!(detect_image_format(&[0x42, 0x4D, 0x00, 0x00]), "bmp");
    // below four bytes nothing is recognized
    assert_eq!(detect_image_format(&[0xFF, 0xD8, 0xFF]), "");
    // the WEBP form still needs its twelve bytes
    assert_eq!(detect_image_format(b"RIFF"), "");
    assert_eq!(detect_image_format(b"RIFF\x00\x00\x00\x00WEBP"), "webp");
}

#[test]
fn parser_test_table_to_markdown() {
    let table = TableData {
        rows: 2,
        cols: 2,
        cells: vec![
            vec!["Header 1".to_string(), "Header 2".to_string()],
            vec!["Cell 1".to_string(), "Cell 2".to_string()],
        ],
        cell_spans: Vec::new(),
    };

    let md = table.to_markdown();
    assert!(md.contains("| Header 1 |"));
    assert!(md.contains("| --- |"));
    assert!(md.contains("| Cell 1 |"));
}

#[test]
fn test_organize_cells() {
    let cells = vec!["A".to_string(), "B".to_string(), "C".to_string(), "D".to_string()];
    let organized = organize_cells(&cells, 2);
    assert_eq!(organized.len(), 2);
    assert_eq!(organized[0], vec!["A", "B"]);
    assert_eq!(organized[1], vec!["C", "D"]);
}

#[test]
fn test_hwp_flags_parsing() {
    let data = vec![0x01, 0x00, 0x00, 0x00];
    let flags = HwpFlags::from_bytes(&data);
    assert!(flags.compressed);
    assert!(!flags.encrypted);

    let data = vec![0x03, 0x00, 0x00, 0x00];
    let flags = HwpFlags::from_bytes(&data);
    assert!(flags.compressed);
    assert!(flags.encrypted);
}

#[test]
fn hwp_flags_default_on_short_header() {
    let flags = HwpFlags::from_bytes(&[0x00]);
    assert!(flags.compressed);
    assert!(!flags.encrypted);
    assert!(!flags.track_changes);
}

#[test]
fn test_ole_structure() {
}

#[test]
fn parse_version_formats_header_bytes() {
    let mut header = vec![0u8; 36];
    header[32] = 2; // revision
    header[33] = 3; // build
    header[34] = 0; // minor
    header[35] = 5; // major
    assert_eq!(parse_version(&header), "HWP 5.0.3.2");
    assert_eq!(parse_version(&header[..20]), "Unknown");
}

#[test]
fn decompress_zlib_framed_stream() {
    let mut encoder =
        flate2::write::ZlibEncoder::new(Vec::new(), flate2::Compression::default());
    encoder.write_all(b"hello hwp stream").unwrap();
    let compressed = encoder.finish().unwrap();
    let out = decompress_zlib(&compressed).unwrap();
    assert_eq!(out, b"hello hwp stream");
}

#[test]
fn decompress_falls_back_to_raw_deflate() {
    // raw DEFLATE without a zlib header must still decompress via the
    // second attempt
    let mut encoder =
        flate2::write::DeflateEncoder::new(Vec::new(), flate2::Compression::default());
    encoder.write_all(b"raw deflate body").unwrap();
    let compressed = encoder.finish().unwrap();
    let out = decompress_zlib(&compressed).unwrap();
    assert_eq!(out, b"raw deflate body");
}

#[test]
fn decompress_reports_failure_on_noise() {
    let garbage = vec![0xDE, 0xAD, 0xBE, 0xEF, 0x00, 0x01];
    assert!(decompress_zlib(&garbage).is_err());
    // bin data falls back to the raw bytes unchanged
    assert_eq!(decode_bin_data(garbage.clone()), garbage);
}

#[test]
fn make_image_data_names_and_drops() {
    let jpeg = vec![0xFF, 0xD8, 0xFF, 0xE0, 0, 0, 0, 0];
    let img = make_image_data("BIN0001.jpg".to_string(), jpeg.clone()).unwrap();
    assert_eq!(img.format, "jpeg");
    // the short name does not end in ".jpeg", so the extension is appended
    assert_eq!(img.name, "BIN0001.jpg.jpeg");
    assert_eq!(img.original_name, "BIN0001.jpg");

    let named = make_image_data("pic.jpeg".to_string(), jpeg).unwrap();
    assert_eq!(named.name, "pic.jpeg");

    assert!(make_image_data("x".to_string(), vec![0u8; 8]).is_none());
}

#[test]
fn stream_classification() {
    let streams = vec![
        "/FileHeader".to_string(),
        "/BodyText/Section0".to_string(),
        "/BodyText/Section1".to_string(),
        "/BinData/BIN0001.jpg".to_string(),
        "/DocInfo".to_string(),
    ];
    assert_eq!(count_sections(&streams), 2);
    assert_eq!(bin_data_names(&streams), vec!["BIN0001.jpg".to_string()]);
}

#[test]
fn section_records_reconstruct_paragraphs() {
    // two paragraphs: "Hi" then "Yo", each opened by a PARA_HEADER
    let mut data = Vec::new();
    data.extend(encode_record_header(HWPTAG_PARA_HEADER, 0, 0));
    data.extend(encode_record_header(HWPTAG_PARA_TEXT, 0, 4));
    data.extend_from_slice(&[b'H', 0, b'i', 0]);
    data.extend(encode_record_header(HWPTAG_PARA_HEADER, 0, 0));
    data.extend(encode_record_header(HWPTAG_PARA_TEXT, 0, 4));
    data.extend_from_slice(&[b'Y', 0, b'o', 0]);
    let shapes = HashMap::new();
    let text = parse_section_records_formatted(&data, &shapes);
    assert_eq!(text, "Hi\nYo");
}

#[test]
fn document_text_notices() {
    let shapes = HashMap::new();
    assert_eq!(
        extract_text_from_sections(&Vec::new(), &shapes),
        "No BodyText sections found."
    );
    let empty_section: Vec<Option<Vec<u8>>> = vec![Some(Vec::new())];
    assert_eq!(
        extract_text_from_sections(&empty_section, &shapes),
        "No text extracted. File may be encrypted or have unsupported format."
    );
}

#[test]
fn tables_reassemble_from_records() {
    // a 2 by 2 table whose four cells arrive flat, plus one merged cell
    let mut table_payload = vec![0u8; 8];
    table_payload[4] = 2; // rows
    table_payload[6] = 2; // cols
    let mut data = Vec::new();
    data.extend(encode_record_header(HWPTAG_TABLE, 0, 8));
    data.extend_from_slice(&table_payload);
    let mut lh = vec![0u8; 26];
    lh[22] = 2; // col span of the first cell
    data.extend(encode_record_header(HWPTAG_LIST_HEADER, 1, 26));
    data.extend_from_slice(&lh);
    for cell in [b'A', b'B', b'C', b'D'] {
        data.extend(encode_record_header(HWPTAG_PARA_TEXT, 2, 2));
        data.extend_from_slice(&[cell, 0]);
    }
    let mut parser = RecordParser::new(&data);
    let records: Vec<HwpRecord> = parser.parse_all();
    let tables = extract_tables_from_records(&records);
    assert_eq!(tables.len(), 1);
    assert_eq!(tables[0].rows, 2);
    assert_eq!(tables[0].cols, 2);
    assert_eq!(tables[0].cells, vec![vec!["A", "B"], vec!["C", "D"]]);
    assert_eq!(tables[0].cell_spans.len(), 1);
    assert_eq!(tables[0].cell_spans[0].col_span, 2);
    assert_eq!(tables[0].cell_spans[0].row_span, 1);
    assert_eq!(tables[0].cell_spans[0].row, 0);
    assert_eq!(tables[0].cell_spans[0].col, 0);
}

#[test]
fn parse_table_info_reads_fixed_fields() {
    let mut payload = vec![0u8; 8];
    payload[4] = 3;
    payload[6] = 4;
    let info = parse_table_info(&payload).unwrap();
    assert_eq!(info.rows, 3);
    assert_eq!(info.cols, 4);
    assert_eq!(info.cell_count, 12);
    assert!(parse_table_info(&payload[..6]).is_none());
}

#[test]
fn parse_cell_list_header_clamps_spans() {
    let mut payload = vec![0u8; 26];
    payload[22] = 3;
    payload[24] = 0;
    let span = parse_cell_list_header(&payload).unwrap();
    assert_eq!(span.col_span, 3);
    assert_eq!(span.row_span, 1);
    assert!(parse_cell_list_header(&payload[..20]).is_none());
}

#[test]
fn hwp_table_markdown_skips_merged_cells() {
    let mut table = HwpTable::new(2, 2);
    table.cells[0][0].content = "A".to_string();
    table.cells[0][0].col_span = 2;
    table.cells[0][1].content = "hidden".to_string();
    table.cells[1][0].content = "C".to_string();
    table.cells[1][1].content = "D".to_string();
    let md = table.to_markdown();
    assert!(md.contains("| A |"));
    assert!(!md.contains("hidden"));
    assert!(md.contains("| C | D |"));
}
