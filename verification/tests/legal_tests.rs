//! Tests for the legal-document model: hierarchy names, numbering helpers,
//! parsing state, token estimation, chunk identity and batch statistics.

use mdm_core::legal::{
    circled_to_number, encode, format_article_number, format_article_with_title,
    parse_circled_number, parse_paren_number, KoreanLegalChunker, LegalHierarchy, LegalMetadata,
    LegalReference, ParsingState, ProcessingStats,
};

#[test]
fn test_legal_hierarchy_korean_name() {
    assert_eq!(LegalHierarchy::Part.korean_name(), "편");
    assert_eq!(LegalHierarchy::Article.korean_name(), "조");
    assert_eq!(LegalHierarchy::Item.korean_name(), "목");
}

#[test]
fn test_legal_hierarchy_level() {
    assert!(LegalHierarchy::Part.level() < LegalHierarchy::Chapter.level());
    assert!(LegalHierarchy::Article.level() < LegalHierarchy::Paragraph.level());
}

#[test]
fn test_parsing_state() {
    let mut state = ParsingState::new();
    state.set_part("제1편 총칙".to_string());
    assert_eq!(state.part, Some("제1편 총칙".to_string()));

    state.set_chapter("제1장 통칙".to_string());
    assert_eq!(state.chapter, Some("제1장 통칙".to_string()));

    state.set_part("제2편 시장".to_string());
    assert_eq!(state.part, Some("제2편 시장".to_string()));
    assert_eq!(state.chapter, None);
}

#[test]
fn test_legal_reference() {
    let internal = LegalReference::internal("제5조".to_string(), "제5조제1항".to_string());
    assert_eq!(internal.reference_type, "internal");
    assert!(internal.target_law.is_none());

    let external = LegalReference::external(
        "상법".to_string(),
        Some("제42조".to_string()),
        "「상법」 제42조".to_string(),
    );
    assert_eq!(external.reference_type, "external");
    assert_eq!(external.target_law, Some("상법".to_string()));
}

#[test]
fn test_circled_to_number() {
    assert_eq!(circled_to_number('①'), Some(1));
    assert_eq!(circled_to_number('⑩'), Some(10));
    assert_eq!(circled_to_number('⑳'), Some(20));
    assert_eq!(circled_to_number('A'), None);
}

#[test]
fn parse_circled_number_uses_first_char() {
    assert_eq!(parse_circled_number("② 이하"), Some(2));
    assert_eq!(parse_circled_number(""), None);
}

#[test]
fn test_parse_paren_number() {
    assert_eq!(parse_paren_number("(1)"), Some(1));
    assert_eq!(parse_paren_number("(15)"), Some(15));
}

#[test]
fn test_format_article_number() {
    assert_eq!(format_article_number("1", None), "제1조");
    assert_eq!(format_article_number("2", Some("3")), "제2조의3");
}

#[test]
fn test_format_article_with_title() {
    assert_eq!(format_article_with_title("1", None, Some("목적")), "제1조(목적)");
    assert_eq!(format_article_with_title("2", Some("3"), Some("정의")), "제2조의3(정의)");
    assert_eq!(format_article_with_title("5", None, None), "제5조");
}

#[test]
fn test_estimate_tokens() {
    let chunker = KoreanLegalChunker::new();

    let korean = "이 규정은 유가증권시장의 상장에 관한 사항을 정한다.";
    let tokens = chunker.estimate_tokens(korean);
    assert!(tokens > 0);

    let english = "This is a test sentence.";
    let eng_tokens = chunker.estimate_tokens(english);
    assert!(eng_tokens > 0);
}

#[test]
fn estimate_tokens_exact() {
    let chunker = KoreanLegalChunker::new();
    // four letters and one space: (3 * 4 + 3 * 1) / 12 = 1
    assert_eq!(chunker.estimate_tokens("ab cd"), 1);
    // three Hangul syllables: 8 * 3 / 12 = 2
    assert_eq!(chunker.estimate_tokens("안녕하"), 2);
}

#[test]
fn test_generate_chunk_id() {
    let chunker = KoreanLegalChunker::new();
    let metadata = LegalMetadata {
        law_name: "유가증권시장 상장규정".to_string(),
        article_number: Some("1".to_string()),
        ..Default::default()
    };

    let id1 = chunker.generate_chunk_id("내용1", &metadata);
    let id2 = chunker.generate_chunk_id("내용2", &metadata);

    assert_ne!(id1, id2);
    assert_eq!(id1.len(), 16);
}

#[test]
fn chunk_id_hashes_the_identity_text() {
    let chunker = KoreanLegalChunker::new();
    let metadata = LegalMetadata {
        law_name: "law".to_string(),
        article_number: Some("1".to_string()),
        ..Default::default()
    };
    // the first eight SHA-256 bytes of "law:1:content", in lowercase hex
    assert_eq!(chunker.generate_chunk_id("content", &metadata), "28e54c99f0e2046e");
}

#[test]
fn hex_encode_two_digits_per_byte() {
    assert_eq!(encode(&[0x00, 0xFF, 0x1a]), "00ff1a");
    assert_eq!(encode(&[]), "");
}

#[test]
fn test_build_context_path() {
    let mut chunker = KoreanLegalChunker::new();

    chunker.current_state.set_part("제1편 총칙".to_string());
    chunker.current_state.set_chapter("제1장 통칙".to_string());
    chunker.current_state.set_article("제1조(목적)".to_string());

    let path = chunker.build_context_path();
    assert_eq!(path, "제1편 총칙 > 제1장 통칙 > 제1조(목적)");
}

#[test]
fn test_processing_stats() {
    let mut stats = ProcessingStats::new();

    stats.add_success("test1.md".to_string(), 10, 500);
    stats.add_success("test2.md".to_string(), 15, 750);
    stats.add_error("test3.md".to_string(), "Parse error".to_string());

    assert_eq!(stats.total_files, 2);
    assert_eq!(stats.total_chunks, 25);
    assert_eq!(stats.total_tokens, 1250);
    assert_eq!(stats.errors.len(), 1);
}

use mdm_core::legal::{
    match_article, match_chapter, match_item, match_paragraph, match_part, match_subparagraph,
};

#[test]
fn test_re_part() {
    let (num, title) = match_part("제1편 총칙").unwrap();
    assert_eq!(num, "1");
    assert_eq!(title, "총칙");
}

#[test]
fn test_re_chapter() {
    let (num, title) = match_chapter("제2장 시장조직").unwrap();
    assert_eq!(num, "2");
    assert_eq!(title, "시장조직");
}

#[test]
fn test_re_article() {
    let (num, branch, title) = match_article("제1조(목적)").unwrap();
    assert_eq!(num, "1");
    assert!(branch.is_none() || branch.as_deref().unwrap_or("").is_empty());
    assert_eq!(title.as_deref(), Some("목적"));

    let (num2, branch2, title2) = match_article("제2조의3(정의)").unwrap();
    assert_eq!(num2, "2");
    assert_eq!(branch2.as_deref(), Some("3"));
    assert_eq!(title2.as_deref(), Some("정의"));

    let (num3, _branch3, title3) = match_article("제5조").unwrap();
    assert_eq!(num3, "5");
    assert!(title3.is_none());
}

#[test]
fn test_re_paragraph() {
    assert!(match_paragraph("① 이 규정은...").is_some());
    assert!(match_paragraph("⑳ 마지막 항").is_some());
    assert!(match_paragraph("(1) 괄호 숫자").is_some());
}

#[test]
fn test_re_subparagraph() {
    let num = match_subparagraph("1. 첫 번째 호").unwrap();
    assert_eq!(num, "1");
}

#[test]
fn test_re_item() {
    let letter = match_item("가. 첫 번째 목").unwrap();
    assert_eq!(letter, '가');
}

#[test]
fn test_extract_references() {
    let chunker = KoreanLegalChunker::new();

    let text = "「상법」 제42조제1항에 따라 제5조제2항을 적용한다.";
    let refs = chunker.extract_references(text);

    assert!(refs.len() >= 2);

    let external = refs.iter().find(|r| r.reference_type == "external");
    assert!(external.is_some());
    assert_eq!(external.unwrap().target_law, Some("상법".to_string()));

    let internal = refs.iter().find(|r| r.reference_type == "internal");
    assert!(internal.is_some());
}

#[test]
fn extract_references_fields() {
    let chunker = KoreanLegalChunker::new();
    let refs = chunker.extract_references("「상법」 제42조와 제5조의2제1항");
    assert_eq!(refs.len(), 2);
    assert_eq!(refs[0].reference_type, "external");
    assert_eq!(refs[0].target_law, Some("상법".to_string()));
    assert_eq!(refs[0].target_article, Some("제42조".to_string()));
    assert_eq!(refs[0].raw_text, "「상법」 제42조");
    assert_eq!(refs[1].reference_type, "internal");
    assert_eq!(refs[1].target_article, Some("제5조의2".to_string()));
    assert_eq!(refs[1].raw_text, "제5조의2제1항");
}

use mdm_core::legal::{match_internal_reference, match_law_reference};

#[test]
fn test_re_law_reference() {
    let (law, num, _branch, para, _ho) = match_law_reference("「상법」 제42조제1항").unwrap();
    assert_eq!(law, "상법");
    assert_eq!(num.as_deref(), Some("42"));
    assert_eq!(para.as_deref(), Some("1"));
}

#[test]
fn test_re_internal_reference() {
    let (num, _branch, para, ho, mok) =
        match_internal_reference("제5조제1항제2호가목").unwrap();
    assert_eq!(num, "5");
    assert_eq!(para.as_deref(), Some("1"));
    assert_eq!(ho.as_deref(), Some("2"));
    assert_eq!(mok, Some('가'));
}
