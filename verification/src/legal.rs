//! The Korean legal-document model: the hierarchy of parts, chapters,
//! sections, articles and their numbering conventions; parsing state;
//! chunk metadata; token estimation and chunk identity.

use crate::strings::{
    first_non_ws, is_whitespace_char, is_wspace, push_dec, spec_dec, spec_join, spec_parse_dec,
    parse_u8_dec, str_eq,
};
use vstd::prelude::*;

verus! {

/// A level of the legal hierarchy, from part down to item.
#[derive(Debug, Clone, Copy, PartialEq, Eq, Structural)]
pub enum LegalHierarchy {
    Part,
    Chapter,
    Section,
    SubSection,
    Article,
    Paragraph,
    SubParagraph,
    Item,
}

impl LegalHierarchy {
    /// The Korean name of the level.
    pub fn korean_name(&self) -> (r: &'static str)
        ensures
            r@ == match *self {
                LegalHierarchy::Part => "편"@,
                LegalHierarchy::Chapter => "장"@,
                LegalHierarchy::Section => "절"@,
                LegalHierarchy::SubSection => "관"@,
                LegalHierarchy::Article => "조"@,
                LegalHierarchy::Paragraph => "항"@,
                LegalHierarchy::SubParagraph => "호"@,
                LegalHierarchy::Item => "목"@,
            },
    {
        match self {
            LegalHierarchy::Part => "편",
            LegalHierarchy::Chapter => "장",
            LegalHierarchy::Section => "절",
            LegalHierarchy::SubSection => "관",
            LegalHierarchy::Article => "조",
            LegalHierarchy::Paragraph => "항",
            LegalHierarchy::SubParagraph => "호",
            LegalHierarchy::Item => "목",
        }
    }

    /// The level's depth: higher levels carry smaller numbers.
    pub fn level(&self) -> (r: u8)
        ensures
            r == match *self {
                LegalHierarchy::Part => 1u8,
                LegalHierarchy::Chapter => 2u8,
                LegalHierarchy::Section => 3u8,
                LegalHierarchy::SubSection => 4u8,
                LegalHierarchy::Article => 5u8,
                LegalHierarchy::Paragraph => 6u8,
                LegalHierarchy::SubParagraph => 7u8,
                LegalHierarchy::Item => 8u8,
            },
    {
        match self {
            LegalHierarchy::Part => 1,
            LegalHierarchy::Chapter => 2,
            LegalHierarchy::Section => 3,
            LegalHierarchy::SubSection => 4,
            LegalHierarchy::Article => 5,
            LegalHierarchy::Paragraph => 6,
            LegalHierarchy::SubParagraph => 7,
            LegalHierarchy::Item => 8,
        }
    }
}

/// A reference to another provision, inside or outside the same law.
#[derive(Debug, Clone)]
pub struct LegalReference {
    pub target_law: Option<String>,
    pub target_article: Option<String>,
    pub reference_type: String,
    pub raw_text: String,
}

impl LegalReference {
    /// A reference to an article of the same law.
    pub fn internal(target_article: String, raw_text: String) -> (r: Self)
        ensures
            r.target_law is None,
            r.target_article matches Some(a) && a@ == target_article@,
            r.reference_type@ == "internal"@,
            r.raw_text@ == raw_text@,
    {
        LegalReference {
            target_law: None,
            target_article: Some(target_article),
            reference_type: String::from_str("internal"),
            raw_text,
        }
    }

    /// A reference into another law, with an optional article.
    pub fn external(target_law: String, target_article: Option<String>, raw_text: String) -> (r:
        Self)
        ensures
            r.target_law matches Some(l) && l@ == target_law@,
            r.target_article == target_article,
            r.reference_type@ == "external"@,
            r.raw_text@ == raw_text@,
    {
        LegalReference {
            target_law: Some(target_law),
            target_article,
            reference_type: String::from_str("external"),
            raw_text,
        }
    }
}

/// The metadata of one legal chunk: the law, its revision, the hierarchy in
/// force, the article, and the references found in the content.
#[derive(Debug, Clone)]
pub struct LegalMetadata {
    pub law_name: String,
    pub law_id: String,
    pub category: String,
    pub revision_date: Option<String>,
    pub revision_number: Option<String>,
    pub effective_date: Option<String>,
    pub part: Option<String>,
    pub chapter: Option<String>,
    pub section: Option<String>,
    pub subsection: Option<String>,
    pub article_number: Option<String>,
    pub article_title: Option<String>,
    pub paragraph_number: Option<String>,
    pub references: Vec<LegalReference>,
    pub source_file: String,
    pub line_start: usize,
    pub line_end: usize,
}

impl Default for LegalMetadata {
    /// Metadata with every field empty or absent.
    fn default() -> (r: Self)
        ensures
            r.law_name@ == Seq::<char>::empty(),
            r.law_id@ == Seq::<char>::empty(),
            r.category@ == Seq::<char>::empty(),
            r.revision_date is None && r.revision_number is None && r.effective_date is None,
            r.part is None && r.chapter is None && r.section is None && r.subsection is None,
            r.article_number is None && r.article_title is None && r.paragraph_number is None,
            r.references@.len() == 0,
            r.source_file@ == Seq::<char>::empty(),
            r.line_start == 0 && r.line_end == 0,
    {
        LegalMetadata {
            law_name: String::new(),
            law_id: String::new(),
            category: String::new(),
            revision_date: None,
            revision_number: None,
            effective_date: None,
            part: None,
            chapter: None,
            section: None,
            subsection: None,
            article_number: None,
            article_title: None,
            paragraph_number: None,
            references: Vec::new(),
            source_file: String::new(),
            line_start: 0,
            line_end: 0,
        }
    }
}

/// What one chunk covers: a whole article, one paragraph of a split
/// article, or a definition.
#[derive(Debug, Clone, Copy, PartialEq, Eq, Structural)]
pub enum ChunkType {
    Article,
    Paragraph,
    Definition,
}

impl Default for ChunkType {
    /// Chunks cover whole articles unless said otherwise.
    fn default() -> (r: Self)
        ensures
            r == ChunkType::Article,
    {
        ChunkType::Article
    }
}

/// One chunk of a legal document, ready for indexing.
#[derive(Debug, Clone)]
pub struct LegalChunk {
    pub id: String,
    pub content: String,
    pub metadata: LegalMetadata,
    pub chunk_type: ChunkType,
    pub token_count: usize,
    pub context_path: String,
    pub parent_chunk_id: Option<String>,
}

/// The hierarchy in force while a document is walked.
#[derive(Debug, Clone)]
pub struct ParsingState {
    pub part: Option<String>,
    pub chapter: Option<String>,
    pub section: Option<String>,
    pub subsection: Option<String>,
    pub article: Option<String>,
    pub paragraph: Option<String>,
}

impl Default for ParsingState {
    /// A state with no level in force.
    fn default() -> (r: Self)
        ensures
            r.part is None && r.chapter is None && r.section is None,
            r.subsection is None && r.article is None && r.paragraph is None,
    {
        ParsingState {
            part: None,
            chapter: None,
            section: None,
            subsection: None,
            article: None,
            paragraph: None,
        }
    }
}

impl ParsingState {
    /// A state with no level in force.
    pub fn new() -> (r: Self)
        ensures
            r.part is None && r.chapter is None && r.section is None,
            r.subsection is None && r.article is None && r.paragraph is None,
    {
        ParsingState::default()
    }

    /// Clears every level.
    pub fn reset(&mut self)
        ensures
            final(self).part is None && final(self).chapter is None && final(self).section is None,
            final(self).subsection is None && final(self).article is None,
            final(self).paragraph is None,
    {
        *self = ParsingState::default();
    }

    /// Entering a part clears everything below it.
    pub fn set_part(&mut self, value: String)
        ensures
            final(self).part matches Some(p) && p@ == value@,
            final(self).chapter is None && final(self).section is None && final(self).subsection is None,
            final(self).article == old(self).article,
            final(self).paragraph == old(self).paragraph,
    {
        self.part = Some(value);
        self.chapter = None;
        self.section = None;
        self.subsection = None;
    }

    /// Entering a chapter clears the section levels below it.
    pub fn set_chapter(&mut self, value: String)
        ensures
            final(self).chapter matches Some(c) && c@ == value@,
            final(self).section is None && final(self).subsection is None,
            final(self).part == old(self).part,
            final(self).article == old(self).article,
            final(self).paragraph == old(self).paragraph,
    {
        self.chapter = Some(value);
        self.section = None;
        self.subsection = None;
    }

    /// Entering a section clears the subsection below it.
    pub fn set_section(&mut self, value: String)
        ensures
            final(self).section matches Some(s) && s@ == value@,
            final(self).subsection is None,
            final(self).part == old(self).part,
            final(self).chapter == old(self).chapter,
            final(self).article == old(self).article,
            final(self).paragraph == old(self).paragraph,
    {
        self.section = Some(value);
        self.subsection = None;
    }

    /// Enters a subsection.
    pub fn set_subsection(&mut self, value: String)
        ensures
            final(self).subsection matches Some(s) && s@ == value@,
            final(self).part == old(self).part,
            final(self).chapter == old(self).chapter,
            final(self).section == old(self).section,
            final(self).article == old(self).article,
            final(self).paragraph == old(self).paragraph,
    {
        self.subsection = Some(value);
    }

    /// Entering an article clears the paragraph below it.
    pub fn set_article(&mut self, value: String)
        ensures
            final(self).article matches Some(a) && a@ == value@,
            final(self).paragraph is None,
            final(self).part == old(self).part,
            final(self).chapter == old(self).chapter,
            final(self).section == old(self).section,
            final(self).subsection == old(self).subsection,
    {
        self.article = Some(value);
        self.paragraph = None;
    }
}

/// The number a circled-digit character denotes, one through twenty.
pub open spec fn spec_circled(c: char) -> Option<u8> {
    let v = c as int;
    if '\u{2460}' <= c && c <= '\u{2473}' {
        Some((v - 0x2460 + 1) as u8)
    } else {
        None
    }
}

/// The number a circled-digit character denotes.
pub fn circled_to_number(c: char) -> (r: Option<u8>)
    ensures
        r == spec_circled(c),
{
    if '\u{2460}' <= c && c <= '\u{2473}' {
        let v = (c as u32) - 0x2460 + 1;
        Some(v as u8)
    } else {
        None
    }
}

/// The number the first character of `s` denotes as a circled digit.
pub fn parse_circled_number(s: &str) -> (r: Option<u8>)
    ensures
        s@.len() == 0 ==> r is None,
        s@.len() > 0 ==> r == spec_circled(s@[0]),
{
    if s.unicode_len() == 0 {
        None
    } else {
        circled_to_number(s.get_char(0))
    }
}

/// Index of the first character at or after `i` that is not `c`.
pub open spec fn first_not(s: Seq<char>, c: char, i: int) -> int
    decreases s.len() - i,
    when 0 <= i
{
    if i >= s.len() {
        s.len() as int
    } else if s[i] == c {
        first_not(s, c, i + 1)
    } else {
        i
    }
}

/// One past the last character before `i` that is not `c`.
pub open spec fn last_not(s: Seq<char>, c: char, i: int) -> int
    decreases i,
    when i <= s.len()
{
    if i <= 0 {
        0
    } else if s[i - 1] == c {
        last_not(s, c, i - 1)
    } else {
        i
    }
}

/// What is left of a parenthesized numeral after the parentheses go: the
/// leading `(` and trailing `)` runs stripped.
pub open spec fn spec_strip_parens(s: Seq<char>) -> Seq<char> {
    let lo = first_not(s, '(', 0);
    let hi = last_not(s, ')', s.len() as int);
    if lo >= hi {
        Seq::empty()
    } else {
        s.subrange(lo, hi)
    }
}

/// Reads a parenthesized numeral such as a paragraph marker: the parentheses
/// are stripped and the rest read as a decimal byte.
pub fn parse_paren_number(s: &str) -> (r: Option<u8>)
    ensures
        match r {
            Some(v) => spec_parse_dec(spec_strip_parens(s@), u8::MAX as int) == Some(v as int),
            None => spec_parse_dec(spec_strip_parens(s@), u8::MAX as int) is None,
        },
{
    let len = s.unicode_len();
    let mut lo: usize = 0;
    while lo < len && s.get_char(lo) == '('
        invariant
            lo <= len,
            len == s@.len(),
            first_not(s@, '(', 0) == first_not(s@, '(', lo as int),
        decreases len - lo,
    {
        lo += 1;
    }
    let mut hi: usize = len;
    while hi > 0 && s.get_char(hi - 1) == ')'
        invariant
            hi <= len,
            len == s@.len(),
            last_not(s@, ')', len as int) == last_not(s@, ')', hi as int),
        decreases hi,
    {
        hi -= 1;
    }
    if hi <= lo {
        proof {
            lemma_first_not_bounds(s@, '(', 0);
            lemma_last_not_bounds(s@, ')', hi as int);
            assert(spec_strip_parens(s@) =~= Seq::<char>::empty());
            assert(!crate::strings::all_dec_digits(Seq::<char>::empty()));
        }
        return None;
    }
    let trimmed = s.substring_char(lo, hi);
    proof {
        assert(first_not(s@, '(', lo as int) == lo as int);
        assert(last_not(s@, ')', hi as int) == hi as int);
        assert(trimmed@ =~= spec_strip_parens(s@));
    }
    parse_u8_dec(trimmed)
}

proof fn lemma_first_not_bounds(s: Seq<char>, c: char, i: int)
    requires
        0 <= i <= s.len(),
    ensures
        i <= first_not(s, c, i) <= s.len(),
    decreases s.len() - i,
{
    if i < s.len() && s[i] == c {
        lemma_first_not_bounds(s, c, i + 1);
    }
}

proof fn lemma_last_not_bounds(s: Seq<char>, c: char, i: int)
    requires
        0 <= i <= s.len(),
    ensures
        0 <= last_not(s, c, i) <= i,
    decreases i,
{
    if i > 0 && s[i - 1] == c {
        lemma_last_not_bounds(s, c, i - 1);
    }
}

/// The conventional form of an article number: its numeral between the
/// article markers, with the branch numeral where one exists.
pub open spec fn spec_article_number(num: Seq<char>, branch: Option<&str>) -> Seq<char> {
    match branch {
        Some(b) => "제"@ + num + "조의"@ + b@,
        None => "제"@ + num + "조"@,
    }
}

/// Writes an article number, with its branch numeral where one exists.
pub fn format_article_number(num: &str, branch: Option<&str>) -> (r: String)
    ensures
        r@ == spec_article_number(num@, branch),
{
    match branch {
        Some(b) => {
            let mut out = String::from_str("제");
            out.append(num);
            out.append("조의");
            out.append(b);
            out
        },
        None => {
            let mut out = String::from_str("제");
            out.append(num);
            out.append("조");
            out
        },
    }
}

/// An article number followed by its parenthesized title, where the title
/// exists and is nonempty.
pub open spec fn spec_article_with_title(
    num: Seq<char>,
    branch: Option<&str>,
    title: Option<&str>,
) -> Seq<char> {
    let article = spec_article_number(num, branch);
    match title {
        Some(t) => if t@.len() > 0 {
            article + seq!['('] + t@ + seq![')']
        } else {
            article
        },
        None => article,
    }
}

/// Writes an article number with its title where one exists.
pub fn format_article_with_title(num: &str, branch: Option<&str>, title: Option<&str>) -> (r:
    String)
    ensures
        r@ == spec_article_with_title(num@, branch, title),
{
    let article = format_article_number(num, branch);
    match title {
        Some(t) => {
            if t.unicode_len() > 0 {
                let mut out = article;
                out.push('(');
                out.append(t);
                out.push(')');
                out
            } else {
                article
            }
        },
        None => article,
    }
}

} // verus!

verus! {

/// The lowercase hex digit of a value below sixteen.
pub open spec fn spec_hex_lower_digit(d: int) -> char {
    seq!['0', '1', '2', '3', '4', '5', '6', '7', '8', '9', 'a', 'b', 'c', 'd', 'e', 'f'][d]
}

/// The lowercase hex encoding of bytes: two digits per byte.
pub open spec fn spec_hex_lower(b: Seq<u8>) -> Seq<char>
    decreases b.len(),
{
    if b.len() == 0 {
        Seq::empty()
    } else {
        seq![
            spec_hex_lower_digit((b.first() >> 4) as int),
            spec_hex_lower_digit((b.first() & 0x0F) as int),
        ] + spec_hex_lower(b.drop_first())
    }
}

fn hex_lower_digit(d: u8) -> (c: char)
    requires
        d < 16,
    ensures
        c == spec_hex_lower_digit(d as int),
{
    match d {
        0 => '0',
        1 => '1',
        2 => '2',
        3 => '3',
        4 => '4',
        5 => '5',
        6 => '6',
        7 => '7',
        8 => '8',
        9 => '9',
        10 => 'a',
        11 => 'b',
        12 => 'c',
        13 => 'd',
        14 => 'e',
        _ => 'f',
    }
}

/// Writes bytes as lowercase hex, two digits per byte.
pub fn encode(bytes: &[u8]) -> (r: String)
    ensures
        r@ == spec_hex_lower(bytes@),
{
    let len = bytes.len();
    let mut out = String::new();
    let mut i: usize = 0;
    proof {
        assert(bytes@.skip(0) =~= bytes@);
        assert(out@ + spec_hex_lower(bytes@) =~= spec_hex_lower(bytes@));
    }
    while i < len
        invariant
            i <= len,
            len == bytes@.len(),
            spec_hex_lower(bytes@) == out@ + spec_hex_lower(bytes@.skip(i as int)),
        decreases len - i,
    {
        let b = crate::byteops::byte_at(bytes, i);
        proof {
            assert(b >> 4 < 16 && b & 0x0F < 16) by (bit_vector);
            assert(bytes@.skip(i as int).first() == b);
            assert(bytes@.skip(i as int).drop_first() =~= bytes@.skip(i + 1));
        }
        out.push(hex_lower_digit(b >> 4));
        out.push(hex_lower_digit(b & 0x0F));
        i += 1;
    }
    proof {
        assert(bytes@.skip(len as int) =~= Seq::<u8>::empty());
        assert(out@ + Seq::<char>::empty() =~= out@);
    }
    out
}

/// The SHA-256 digest of the bytes: a function of them alone.
pub uninterp spec fn sha256_of(b: Seq<u8>) -> Seq<u8>;

/// Relies on the sha2 crate's `Sha256`: the 32-byte SHA-256 digest of the
/// input, a pure function of the bytes.
#[verifier::external_body]
fn sha256(data: &[u8]) -> (r: Vec<u8>)
    ensures
        r@ == sha256_of(data@),
        r@.len() == 32,
{
    let digest = <sha2::Sha256 as sha2::Digest>::digest(data);
    digest.as_slice().to_vec()
}

/// Splits Korean legal markdown into article-sized chunks.
pub struct KoreanLegalChunker {
    pub chunk_by_article: bool,
    pub include_context: bool,
    pub max_chunk_tokens: usize,
    pub overlap_tokens: usize,
    pub current_state: ParsingState,
}

impl Default for KoreanLegalChunker {
    /// A chunker with the stock options.
    fn default() -> (r: Self)
        ensures
            r.chunk_by_article && r.include_context,
            r.max_chunk_tokens == 512 && r.overlap_tokens == 50,
    {
        KoreanLegalChunker::new()
    }
}

/// Whether a character is a Hangul syllable.
pub open spec fn is_hangul(c: char) -> bool {
    '\u{AC00}' <= c && c <= '\u{D7A3}'
}

/// Whether a character is an ASCII letter or digit.
pub open spec fn is_alnum(c: char) -> bool {
    ('a' <= c && c <= 'z') || ('A' <= c && c <= 'Z') || ('0' <= c && c <= '9')
}

/// How many characters of `s` from `i` on satisfy the class picked by `k`:
/// Hangul syllables for zero, ASCII letters and digits for one, whitespace
/// for anything else.
pub open spec fn spec_count_class(s: Seq<char>, i: int, k: int) -> int
    decreases s.len() - i,
    when 0 <= i
{
    if i >= s.len() {
        0
    } else {
        let hit = if k == 0 {
            is_hangul(s[i])
        } else if k == 1 {
            is_alnum(s[i])
        } else {
            is_wspace(s[i])
        };
        (if hit {
            1int
        } else {
            0int
        }) + spec_count_class(s, i + 1, k)
    }
}

/// The estimated token count of a text: Hangul counts about a token per one
/// and a half syllables, letters, digits and spaces a token per four, so the
/// estimate is the floor of `(8h + 3a + 3w) / 12`.
pub open spec fn spec_token_estimate(s: Seq<char>) -> int {
    (8 * spec_count_class(s, 0, 0) + 3 * spec_count_class(s, 0, 1) + 3 * spec_count_class(
        s,
        0,
        2,
    )) / 12
}

proof fn lemma_classes_disjoint(s: Seq<char>, i: int)
    requires
        0 <= i <= s.len(),
    ensures
        spec_count_class(s, i, 0) + spec_count_class(s, i, 1) + spec_count_class(s, i, 2) <= s.len()
            - i,
    decreases s.len() - i,
{
    if i < s.len() {
        lemma_classes_disjoint(s, i + 1);
        // a Hangul syllable is neither ASCII alphanumeric nor whitespace,
        // and no whitespace character is alphanumeric
        assert(!(is_hangul(s[i]) && is_alnum(s[i])));
        assert(!(is_hangul(s[i]) && is_wspace(s[i])));
        assert(!(is_alnum(s[i]) && is_wspace(s[i])));
    }
}

proof fn lemma_count_class_bound(s: Seq<char>, i: int, k: int)
    requires
        0 <= i <= s.len(),
    ensures
        0 <= spec_count_class(s, i, k) <= s.len() - i,
    decreases s.len() - i,
{
    if i < s.len() {
        lemma_count_class_bound(s, i + 1, k);
    }
}

fn count_class(s: &str, k: usize) -> (r: usize)
    ensures
        r as int == spec_count_class(s@, 0, k as int),
        r <= s@.len(),
{
    let len = s.unicode_len();
    let mut count: usize = 0;
    let mut i: usize = 0;
    proof {
        lemma_count_class_bound(s@, 0, k as int);
    }
    while i < len
        invariant
            i <= len,
            len == s@.len(),
            count <= i,
            count as int + spec_count_class(s@, i as int, k as int) == spec_count_class(
                s@,
                0,
                k as int,
            ),
        decreases len - i,
    {
        proof {
            lemma_count_class_bound(s@, i as int, k as int);
        }
        let c = s.get_char(i);
        let hit = if k == 0 {
            '\u{AC00}' <= c && c <= '\u{D7A3}'
        } else if k == 1 {
            ('a' <= c && c <= 'z') || ('A' <= c && c <= 'Z') || ('0' <= c && c <= '9')
        } else {
            is_whitespace_char(c)
        };
        if hit {
            count += 1;
        }
        i += 1;
    }
    count
}

impl KoreanLegalChunker {
    /// A chunker with the stock options: article-sized chunks with context,
    /// at most 512 tokens each, overlapping by 50.
    pub fn new() -> (r: Self)
        ensures
            r.chunk_by_article && r.include_context,
            r.max_chunk_tokens == 512 && r.overlap_tokens == 50,
            r.current_state.part is None && r.current_state.article is None,
    {
        KoreanLegalChunker {
            chunk_by_article: true,
            include_context: true,
            max_chunk_tokens: 512,
            overlap_tokens: 50,
            current_state: ParsingState::new(),
        }
    }

    /// A chunker with the given options.
    pub fn with_options(
        chunk_by_article: bool,
        include_context: bool,
        max_chunk_tokens: usize,
        overlap_tokens: usize,
    ) -> (r: Self)
        ensures
            r.chunk_by_article == chunk_by_article,
            r.include_context == include_context,
            r.max_chunk_tokens == max_chunk_tokens,
            r.overlap_tokens == overlap_tokens,
            r.current_state.part is None && r.current_state.article is None,
    {
        KoreanLegalChunker {
            chunk_by_article,
            include_context,
            max_chunk_tokens,
            overlap_tokens,
            current_state: ParsingState::new(),
        }
    }

    /// Estimates the token count of a text: about a token per one and a half
    /// Hangul syllables, and a token per four letters, digits or spaces.
    pub fn estimate_tokens(&self, text: &str) -> (r: usize)
        ensures
            r as int == spec_token_estimate(text@),
    {
        let text_len = text.unicode_len();
        let korean = count_class(text, 0);
        let alnum = count_class(text, 1);
        let space = count_class(text, 2);
        let total: u128 = 8 * (korean as u128) + 3 * (alnum as u128) + 3 * (space as u128);
        let est: u128 = total / 12;
        proof {
            lemma_classes_disjoint(text@, 0);
            assert(korean as int + alnum as int + space as int <= text@.len());
            assert(text@.len() == text_len);
            assert(total <= 8 * (usize::MAX as u128));
            assert(est <= usize::MAX as u128) by (nonlinear_arith)
                requires
                    est == total / 12,
                    total <= 8 * (usize::MAX as u128),
            ;
        }
        est as usize
    }

    /// The identity of a chunk: the lowercase hex of the first eight digest
    /// bytes of `law name : article number : first hundred content
    /// characters`, hashed with SHA-256 over the text's UTF-8 bytes.
    pub fn generate_chunk_id(&self, content: &str, metadata: &LegalMetadata) -> (r: String)
        ensures
            r@ == spec_hex_lower(
                sha256_of(
                    vstd::utf8::encode_utf8(
                        metadata.law_name@ + seq![':'] + (match metadata.article_number {
                            Some(n) => n@,
                            None => Seq::<char>::empty(),
                        }) + seq![':'] + (if content@.len() <= 100 {
                            content@
                        } else {
                            content@.take(100)
                        }),
                    ),
                ).subrange(0, 8),
            ),
    {
        let mut unique = metadata.law_name.clone();
        unique.push(':');
        match &metadata.article_number {
            Some(n) => unique.append(n.as_str()),
            None => (),
        }
        unique.push(':');
        let clen = content.unicode_len();
        let taken: &str = if clen <= 100 {
            content
        } else {
            content.substring_char(0, 100)
        };
        unique.append(taken);
        proof {
            if content@.len() <= 100 {
                assert(taken@ =~= content@);
            } else {
                assert(taken@ =~= content@.take(100));
            }
        }
        proof {
            assert(unique@ =~= metadata.law_name@ + seq![':'] + (match metadata.article_number {
                Some(n) => n@,
                None => Seq::<char>::empty(),
            }) + seq![':'] + (if content@.len() <= 100 {
                content@
            } else {
                content@.take(100)
            }));
        }
        let digest = sha256(unique.as_str().as_bytes());
        let head = crate::byteops::copy_range(digest.as_slice(), 0, 8);
        encode(head.as_slice())
    }

    /// The context path: the hierarchy levels in force, highest first,
    /// joined by arrows.
    pub fn build_context_path(&self) -> (r: String)
        ensures
            r@ == spec_join(spec_state_parts(&self.current_state), " > "@),
    {
        let mut parts: Vec<String> = Vec::new();
        match &self.current_state.part {
            Some(p) => parts.push(p.clone()),
            None => (),
        }
        match &self.current_state.chapter {
            Some(c) => parts.push(c.clone()),
            None => (),
        }
        match &self.current_state.section {
            Some(s) => parts.push(s.clone()),
            None => (),
        }
        match &self.current_state.subsection {
            Some(ss) => parts.push(ss.clone()),
            None => (),
        }
        match &self.current_state.article {
            Some(a) => parts.push(a.clone()),
            None => (),
        }
        proof {
            assert(parts@.map_values(|x: String| x@) =~= spec_state_parts(&self.current_state));
        }
        crate::strings::join_strings(&parts, " > ")
    }
}

/// The hierarchy levels a state holds, highest first.
pub open spec fn spec_state_parts(st: &ParsingState) -> Seq<Seq<char>> {
    let a: Seq<Seq<char>> = match st.part {
        Some(p) => seq![p@],
        None => Seq::empty(),
    };
    let b: Seq<Seq<char>> = match st.chapter {
        Some(c) => seq![c@],
        None => Seq::empty(),
    };
    let c: Seq<Seq<char>> = match st.section {
        Some(s) => seq![s@],
        None => Seq::empty(),
    };
    let d: Seq<Seq<char>> = match st.subsection {
        Some(s) => seq![s@],
        None => Seq::empty(),
    };
    let e: Seq<Seq<char>> = match st.article {
        Some(x) => seq![x@],
        None => Seq::empty(),
    };
    a + b + c + d + e
}

/// Writes chunks out for an indexing service.
pub struct WeKnoraExporter {
    pub include_context_in_content: bool,
}

impl WeKnoraExporter {
    /// An exporter that prefixes each chunk with its context path.
    pub fn new() -> (r: Self)
        ensures
            r.include_context_in_content,
    {
        WeKnoraExporter { include_context_in_content: true }
    }

    /// An exporter with the given context behaviour.
    pub fn with_options(include_context_in_content: bool) -> (r: Self)
        ensures
            r.include_context_in_content == include_context_in_content,
    {
        WeKnoraExporter { include_context_in_content }
    }
}

impl Default for WeKnoraExporter {
    /// An exporter that prefixes each chunk with its context path.
    fn default() -> (r: Self)
        ensures
            r.include_context_in_content,
    {
        WeKnoraExporter::new()
    }
}

/// Counts for one processed file.
#[derive(Debug, Clone)]
pub struct FileStats {
    pub file: String,
    pub chunks: usize,
    pub tokens: usize,
}

/// One file that failed, with the reason.
#[derive(Debug, Clone)]
pub struct FileError {
    pub file: String,
    pub error: String,
}

/// Running totals over a batch of processed files.
#[derive(Debug, Clone)]
pub struct ProcessingStats {
    pub total_files: usize,
    pub total_chunks: usize,
    pub total_tokens: usize,
    pub files_processed: Vec<FileStats>,
    pub errors: Vec<FileError>,
}

impl Default for ProcessingStats {
    /// Empty totals.
    fn default() -> (r: Self)
        ensures
            r.total_files == 0 && r.total_chunks == 0 && r.total_tokens == 0,
            r.files_processed@.len() == 0 && r.errors@.len() == 0,
    {
        ProcessingStats {
            total_files: 0,
            total_chunks: 0,
            total_tokens: 0,
            files_processed: Vec::new(),
            errors: Vec::new(),
        }
    }
}

impl ProcessingStats {
    /// Empty totals.
    pub fn new() -> (r: Self)
        ensures
            r.total_files == 0 && r.total_chunks == 0 && r.total_tokens == 0,
            r.files_processed@.len() == 0 && r.errors@.len() == 0,
    {
        ProcessingStats::default()
    }

    /// Accounts one processed file: the totals grow and the file is listed.
    pub fn add_success(&mut self, file: String, chunks: usize, tokens: usize)
        requires
            old(self).total_files < usize::MAX,
            old(self).total_chunks + chunks <= usize::MAX,
            old(self).total_tokens + tokens <= usize::MAX,
        ensures
            final(self).total_files == old(self).total_files + 1,
            final(self).total_chunks == old(self).total_chunks + chunks,
            final(self).total_tokens == old(self).total_tokens + tokens,
            final(self).files_processed@.len() == old(self).files_processed@.len() + 1,
            final(self).files_processed@.last().file@ == file@,
            final(self).files_processed@.last().chunks == chunks,
            final(self).files_processed@.last().tokens == tokens,
            final(self).files_processed@.take(old(self).files_processed@.len() as int) == old(
                self,
            ).files_processed@,
            final(self).errors@ == old(self).errors@,
    {
        self.total_files += 1;
        self.total_chunks += chunks;
        self.total_tokens += tokens;
        self.files_processed.push(FileStats { file, chunks, tokens });
        proof {
            assert(self.files_processed@.take(old(self).files_processed@.len() as int) =~= old(
                self,
            ).files_processed@);
        }
    }

    /// Accounts one failed file.
    pub fn add_error(&mut self, file: String, error: String)
        ensures
            final(self).errors@.len() == old(self).errors@.len() + 1,
            final(self).errors@.last().file@ == file@,
            final(self).errors@.last().error@ == error@,
            final(self).errors@.take(old(self).errors@.len() as int) == old(self).errors@,
            final(self).total_files == old(self).total_files,
            final(self).total_chunks == old(self).total_chunks,
            final(self).total_tokens == old(self).total_tokens,
            final(self).files_processed@ == old(self).files_processed@,
    {
        self.errors.push(FileError { file, error });
        proof {
            assert(self.errors@.take(old(self).errors@.len() as int) =~= old(self).errors@);
        }
    }
}

} // verus!

verus! {

/// Index of the first character at or after `i` that is not an ASCII digit.
pub open spec fn first_non_digit(s: Seq<char>, i: int) -> int
    decreases s.len() - i,
    when 0 <= i
{
    if i >= s.len() {
        s.len() as int
    } else if '0' <= s[i] && s[i] <= '9' {
        first_non_digit(s, i + 1)
    } else {
        i
    }
}

fn scan_digits(s: &str, i: usize) -> (r: usize)
    requires
        i <= s@.len(),
    ensures
        r == first_non_digit(s@, i as int),
        i <= r <= s@.len(),
    decreases s@.len() - i,
{
    if i >= s.unicode_len() {
        s.unicode_len()
    } else {
        let c = s.get_char(i);
        if '0' <= c && c <= '9' {
            scan_digits(s, i + 1)
        } else {
            i
        }
    }
}

fn scan_ws(s: &str, i: usize) -> (r: usize)
    requires
        i <= s@.len(),
    ensures
        r == first_non_ws(s@, i as int),
        i <= r <= s@.len(),
    decreases s@.len() - i,
{
    if i >= s.unicode_len() {
        s.unicode_len()
    } else if is_whitespace_char(s.get_char(i)) {
        scan_ws(s, i + 1)
    } else {
        i
    }
}

/// A heading line of the form `제` + numeral + marker + whitespace + title:
/// the numeral and the title, or nothing where the line is no such heading.
pub open spec fn spec_heading(s: Seq<char>, marker: char) -> Option<(Seq<char>, Seq<char>)> {
    if s.len() >= 1 && s[0] == '제' {
        let dend = first_non_digit(s, 1);
        if dend > 1 && dend < s.len() && s[dend] == marker {
            let tstart = first_non_ws(s, dend + 1);
            Some((s.subrange(1, dend), s.subrange(tstart, s.len() as int)))
        } else {
            None
        }
    } else {
        None
    }
}

fn match_heading(line: &str, marker: char) -> (r: Option<(String, String)>)
    ensures
        match r {
            Some((num, title)) => spec_heading(line@, marker) == Some((num@, title@)),
            None => spec_heading(line@, marker) is None,
        },
{
    let len = line.unicode_len();
    if len == 0 || line.get_char(0) != '제' {
        return None;
    }
    let dend = scan_digits(line, 1);
    if !(dend > 1 && dend < len && line.get_char(dend) == marker) {
        return None;
    }
    let tstart = scan_ws(line, dend + 1);
    let num = String::from_str(line.substring_char(1, dend));
    let title = String::from_str(line.substring_char(tstart, len));
    Some((num, title))
}

/// Reads a part heading, `제` + numeral + `편`: the numeral and the title.
pub fn match_part(line: &str) -> (r: Option<(String, String)>)
    ensures
        match r {
            Some((num, title)) => spec_heading(line@, '편') == Some((num@, title@)),
            None => spec_heading(line@, '편') is None,
        },
{
    match_heading(line, '편')
}

/// Reads a chapter heading, `제` + numeral + `장`.
pub fn match_chapter(line: &str) -> (r: Option<(String, String)>)
    ensures
        match r {
            Some((num, title)) => spec_heading(line@, '장') == Some((num@, title@)),
            None => spec_heading(line@, '장') is None,
        },
{
    match_heading(line, '장')
}

/// Reads a section heading, `제` + numeral + `절`.
pub fn match_section(line: &str) -> (r: Option<(String, String)>)
    ensures
        match r {
            Some((num, title)) => spec_heading(line@, '절') == Some((num@, title@)),
            None => spec_heading(line@, '절') is None,
        },
{
    match_heading(line, '절')
}

/// Reads a subsection heading, `제` + numeral + `관`.
pub fn match_subsection(line: &str) -> (r: Option<(String, String)>)
    ensures
        match r {
            Some((num, title)) => spec_heading(line@, '관') == Some((num@, title@)),
            None => spec_heading(line@, '관') is None,
        },
{
    match_heading(line, '관')
}

/// An article heading prefix, `제` + numeral + `조`, optionally followed by a
/// branch (`의` + numeral) and a parenthesized nonempty title: the numeral,
/// the branch numeral and the title.
pub open spec fn spec_article_heading(s: Seq<char>) -> Option<
    (Seq<char>, Option<Seq<char>>, Option<Seq<char>>),
> {
    if s.len() >= 1 && s[0] == '제' {
        let dend = first_non_digit(s, 1);
        if dend > 1 && dend < s.len() && s[dend] == '조' {
            let b = spec_article_branch(s, dend + 1);
            let after = match b {
                Some(bs) => dend + 2 + bs.len(),
                None => dend + 1,
            };
            let t = spec_article_title(s, after);
            Some((s.subrange(1, dend), b, t))
        } else {
            None
        }
    } else {
        None
    }
}

/// The branch numeral after an article number: `의` + at least one digit.
pub open spec fn spec_article_branch(s: Seq<char>, i: int) -> Option<Seq<char>> {
    if 0 <= i && i < s.len() && s[i] == '의' {
        let bend = first_non_digit(s, i + 1);
        if bend > i + 1 {
            Some(s.subrange(i + 1, bend))
        } else {
            None
        }
    } else {
        None
    }
}

/// The parenthesized title after an article number: `(` + at least one
/// character other than a closing parenthesis + `)`.
pub open spec fn spec_article_title(s: Seq<char>, i: int) -> Option<Seq<char>> {
    if 0 <= i && i < s.len() && s[i] == '(' {
        match crate::strings::spec_find_from(s, seq![')'], i + 1) {
            Some(c) => if c > i + 1 {
                Some(s.subrange(i + 1, c))
            } else {
                None
            },
            None => None,
        }
    } else {
        None
    }
}

/// Reads an article heading: its numeral, branch numeral and title.
pub fn match_article(line: &str) -> (r: Option<(String, Option<String>, Option<String>)>)
    ensures
        match r {
            Some((num, branch, title)) => (spec_article_heading(line@) matches Some((n2, b2, t2))
                && n2 == num@ && b2 == (match branch {
                Some(b) => Some(b@),
                None => None,
            }) && t2 == (match title {
                Some(t) => Some(t@),
                None => None,
            })),
            None => spec_article_heading(line@) is None,
        },
{
    let len = line.unicode_len();
    if len == 0 || line.get_char(0) != '제' {
        return None;
    }
    let dend = scan_digits(line, 1);
    if !(dend > 1 && dend < len && line.get_char(dend) == '조') {
        return None;
    }
    let num = String::from_str(line.substring_char(1, dend));
    let mut after = dend + 1;
    let branch: Option<String>;
    if after < len && line.get_char(after) == '의' {
        let bend = scan_digits(line, after + 1);
        if bend > after + 1 {
            branch = Some(String::from_str(line.substring_char(after + 1, bend)));
            after = bend;
        } else {
            branch = None;
        }
    } else {
        branch = None;
    }
    let title: Option<String>;
    if after < len && line.get_char(after) == '(' {
        proof {
            assert(seq![')'].len() == 1);
        }
        match crate::strings::find_sub_from(line, ")", after + 1) {
            Some(c) => {
                proof {
                    reveal_strlit(")");
                    assert(")"@ =~= seq![')']);
                    crate::strings::lemma_find_in_range(line@, ")"@, after as int + 1, c as int);
                }
                if c > after + 1 {
                    title = Some(String::from_str(line.substring_char(after + 1, c)));
                } else {
                    title = None;
                }
            },
            None => {
                title = None;
            },
        }
    } else {
        title = None;
    }
    proof {
        reveal_strlit(")");
        assert(")"@ =~= seq![')']);
    }
    Some((num, branch, title))
}

/// A paragraph marker at the head of a line: a circled digit, or a
/// parenthesized numeral; the marker text itself.
pub open spec fn spec_paragraph_marker(s: Seq<char>) -> Option<Seq<char>> {
    if s.len() >= 1 && '\u{2460}' <= s[0] && s[0] <= '\u{2473}' {
        Some(seq![s[0]])
    } else if s.len() >= 1 && s[0] == '(' {
        let dend = first_non_digit(s, 1);
        if dend > 1 && dend < s.len() && s[dend] == ')' {
            Some(s.subrange(0, dend + 1))
        } else {
            None
        }
    } else {
        None
    }
}

/// Reads the paragraph marker at the head of a line.
pub fn match_paragraph(line: &str) -> (r: Option<String>)
    ensures
        match r {
            Some(m) => spec_paragraph_marker(line@) == Some(m@),
            None => spec_paragraph_marker(line@) is None,
        },
{
    let len = line.unicode_len();
    if len == 0 {
        return None;
    }
    let c = line.get_char(0);
    if '\u{2460}' <= c && c <= '\u{2473}' {
        let mut m = String::new();
        m.push(c);
        proof {
            assert(m@ =~= seq![line@[0]]);
        }
        return Some(m);
    }
    if c == '(' {
        let dend = scan_digits(line, 1);
        if dend > 1 && dend < len && line.get_char(dend) == ')' {
            return Some(String::from_str(line.substring_char(0, dend + 1)));
        }
    }
    None
}

/// A subparagraph marker: a numeral followed by a period; the numeral.
pub open spec fn spec_subparagraph_marker(s: Seq<char>) -> Option<Seq<char>> {
    let dend = first_non_digit(s, 0);
    if dend > 0 && dend < s.len() && s[dend] == '.' {
        Some(s.subrange(0, dend))
    } else {
        None
    }
}

/// Reads the subparagraph numeral at the head of a line.
pub fn match_subparagraph(line: &str) -> (r: Option<String>)
    ensures
        match r {
            Some(m) => spec_subparagraph_marker(line@) == Some(m@),
            None => spec_subparagraph_marker(line@) is None,
        },
{
    let len = line.unicode_len();
    let dend = scan_digits(line, 0);
    if dend > 0 && dend < len && line.get_char(dend) == '.' {
        Some(String::from_str(line.substring_char(0, dend)))
    } else {
        None
    }
}

/// Whether a character is one of the fourteen item letters.
pub open spec fn is_item_letter(c: char) -> bool {
    c == '가' || c == '나' || c == '다' || c == '라' || c == '마' || c == '바' || c == '사' || c
        == '아' || c == '자' || c == '차' || c == '카' || c == '타' || c == '파' || c == '하'
}

/// An item marker: one of the item letters followed by a period; the letter.
pub open spec fn spec_item_marker(s: Seq<char>) -> Option<char> {
    if s.len() >= 2 && is_item_letter(s[0]) && s[1] == '.' {
        Some(s[0])
    } else {
        None
    }
}

/// Reads the item letter at the head of a line.
pub fn match_item(line: &str) -> (r: Option<char>)
    ensures
        r == spec_item_marker(line@),
{
    let len = line.unicode_len();
    if len < 2 {
        return None;
    }
    let c = line.get_char(0);
    let letter = c == '가' || c == '나' || c == '다' || c == '라' || c == '마' || c == '바' || c
        == '사' || c == '아' || c == '자' || c == '차' || c == '카' || c == '타' || c == '파' || c
        == '하';
    if letter && line.get_char(1) == '.' {
        Some(c)
    } else {
        None
    }
}

} // verus!

verus! {

/// The mathematical image of a reference.
pub ghost struct LegalReferenceV {
    pub target_law: Option<Seq<char>>,
    pub target_article: Option<Seq<char>>,
    pub reference_type: Seq<char>,
    pub raw_text: Seq<char>,
}

impl View for LegalReference {
    type V = LegalReferenceV;

    open spec fn view(&self) -> LegalReferenceV {
        LegalReferenceV {
            target_law: match self.target_law {
                Some(l) => Some(l@),
                None => None,
            },
            target_article: match self.target_article {
                Some(a) => Some(a@),
                None => None,
            },
            reference_type: self.reference_type@,
            raw_text: self.raw_text@,
        }
    }
}

/// A numbered suffix element, `제` + numeral + the given marker: one past
/// its end, or `i` itself where the element is absent.
pub open spec fn spec_num_suffix(s: Seq<char>, i: int, marker: char) -> int {
    if 0 <= i && i < s.len() && s[i] == '제' {
        let dend = first_non_digit(s, i + 1);
        if dend > i + 1 && dend < s.len() && s[dend] == marker {
            dend + 1
        } else {
            i
        }
    } else {
        i
    }
}

/// An article citation at `i`: `제` + numeral + `조`, an optional branch,
/// then optional paragraph and subparagraph elements; the numeral, the
/// branch numeral and one past the citation's end.
pub open spec fn spec_citation(s: Seq<char>, i: int) -> Option<(Seq<char>, Option<Seq<char>>, int)> {
    if 0 <= i && i < s.len() && s[i] == '제' {
        let dend = first_non_digit(s, i + 1);
        if dend > i + 1 && dend < s.len() && s[dend] == '조' {
            let num = s.subrange(i + 1, dend);
            let b = spec_article_branch(s, dend + 1);
            let after1 = match b {
                Some(bs) => dend + 2 + bs.len(),
                None => dend + 1,
            };
            let after2 = spec_num_suffix(s, after1, '항');
            let after3 = spec_num_suffix(s, after2, '호');
            Some((num, b, after3))
        } else {
            None
        }
    } else {
        None
    }
}

/// An internal reference at `i`: an article citation, optionally followed by
/// an item letter and `목`; the numeral, branch and one past its end.
pub open spec fn spec_internal_ref(s: Seq<char>, i: int) -> Option<
    (Seq<char>, Option<Seq<char>>, int),
> {
    match spec_citation(s, i) {
        Some((num, b, end)) => {
            let end2 = if end + 1 < s.len() && '가' <= s[end] && s[end] <= '하' && s[end + 1]
                == '목' {
                end + 2
            } else {
                end
            };
            Some((num, b, end2))
        },
        None => None,
    }
}

/// An outside-law reference at `i`: a law name between corner brackets,
/// optionally followed by whitespace and an article citation; the law name,
/// the article numeral and one past its end.
pub open spec fn spec_law_ref(s: Seq<char>, i: int) -> Option<
    (Seq<char>, Option<Seq<char>>, int),
> {
    if 0 <= i && i < s.len() && s[i] == '「' {
        match crate::strings::spec_find_from(s, seq!['」'], i + 1) {
            Some(c) => {
                if c > i + 1 {
                    let law = s.subrange(i + 1, c);
                    let w = first_non_ws(s, c + 1);
                    match spec_citation(s, w) {
                        Some((num, _b, end)) => Some((law, Some(num), end)),
                        None => Some((law, None, c + 1)),
                    }
                } else {
                    None
                }
            },
            None => None,
        }
    } else {
        None
    }
}

/// The outside-law references of a text from `i` on, leftmost first and
/// non-overlapping: the law, the article numeral and the raw text matched.
pub open spec fn spec_law_refs(s: Seq<char>, i: int) -> Seq<(Seq<char>, Option<Seq<char>>, Seq<char>)>
    decreases s.len() - i,
    when 0 <= i
    via spec_law_refs_decreases
{
    if i >= s.len() {
        Seq::empty()
    } else {
        match spec_law_ref(s, i) {
            Some((law, num, end)) => seq![(law, num, s.subrange(i, end))] + spec_law_refs(s, end),
            None => spec_law_refs(s, i + 1),
        }
    }
}

#[via_fn]
proof fn spec_law_refs_decreases(s: Seq<char>, i: int) {
    if i < s.len() {
        match spec_law_ref(s, i) {
            Some((law, num, end)) => {
                lemma_law_ref_end(s, i);
            },
            None => {},
        }
    }
}

/// The internal references of a text from `i` on, leftmost first and
/// non-overlapping: the numeral, the branch and the raw text matched.
pub open spec fn spec_internal_refs(s: Seq<char>, i: int) -> Seq<
    (Seq<char>, Option<Seq<char>>, Seq<char>),
>
    decreases s.len() - i,
    when 0 <= i
    via spec_internal_refs_decreases
{
    if i >= s.len() {
        Seq::empty()
    } else {
        match spec_internal_ref(s, i) {
            Some((num, b, end)) => seq![(num, b, s.subrange(i, end))] + spec_internal_refs(s, end),
            None => spec_internal_refs(s, i + 1),
        }
    }
}

#[via_fn]
proof fn spec_internal_refs_decreases(s: Seq<char>, i: int) {
    if i < s.len() {
        match spec_internal_ref(s, i) {
            Some((num, b, end)) => {
                lemma_internal_ref_end(s, i);
            },
            None => {},
        }
    }
}

proof fn lemma_suffix_end(s: Seq<char>, i: int, marker: char)
    requires
        0 <= i <= s.len(),
    ensures
        i <= spec_num_suffix(s, i, marker) <= s.len(),
{
    if i < s.len() && s[i] == '제' {
        lemma_digit_scan_bounds(s, i + 1);
    }
}

proof fn lemma_digit_scan_bounds(s: Seq<char>, i: int)
    requires
        0 <= i <= s.len(),
    ensures
        i <= first_non_digit(s, i) <= s.len(),
    decreases s.len() - i,
{
    if i < s.len() && '0' <= s[i] && s[i] <= '9' {
        lemma_digit_scan_bounds(s, i + 1);
    }
}

proof fn lemma_citation_end(s: Seq<char>, i: int)
    requires
        0 <= i <= s.len(),
        spec_citation(s, i) is Some,
    ensures
        i < spec_citation(s, i)->Some_0.2 <= s.len(),
{
    let dend = first_non_digit(s, i + 1);
    lemma_digit_scan_bounds(s, i + 1);
    let after1 = match spec_article_branch(s, dend + 1) {
        Some(bs) => dend + 2 + bs.len(),
        None => dend + 1,
    };
    if spec_article_branch(s, dend + 1) is Some {
        lemma_digit_scan_bounds(s, dend + 2);
        assert(spec_article_branch(s, dend + 1)->0 == s.subrange(
            dend + 2,
            first_non_digit(s, dend + 2),
        ));
    }
    lemma_suffix_end(s, after1, '항');
    lemma_suffix_end(s, spec_num_suffix(s, after1, '항'), '호');
}

proof fn lemma_internal_ref_end(s: Seq<char>, i: int)
    requires
        0 <= i <= s.len(),
        spec_internal_ref(s, i) is Some,
    ensures
        i < spec_internal_ref(s, i)->Some_0.2 <= s.len(),
{
    lemma_citation_end(s, i);
}

proof fn lemma_law_ref_end(s: Seq<char>, i: int)
    requires
        0 <= i <= s.len(),
        spec_law_ref(s, i) is Some,
    ensures
        i < spec_law_ref(s, i)->Some_0.2 <= s.len(),
{
    match crate::strings::spec_find_from(s, seq!['」'], i + 1) {
        Some(c) => {
            crate::strings::lemma_find_in_range(s, seq!['」'], i + 1, c);
            crate::strings::lemma_first_non_ws_bounds(s, c + 1);
            let w = first_non_ws(s, c + 1);
            if spec_citation(s, w) is Some {
                lemma_citation_end(s, w);
            }
        },
        None => {},
    }
}

} // verus!

verus! {

fn citation_at(s: &str, i: usize) -> (r: Option<(String, Option<String>, usize)>)
    requires
        i <= s@.len(),
    ensures
        match r {
            Some((num, b, end)) => spec_citation(s@, i as int) == Some(
                (
                    num@,
                    match b {
                        Some(bs) => Some(bs@),
                        None => None,
                    },
                    end as int,
                ),
            ),
            None => spec_citation(s@, i as int) is None,
        },
{
    let len = s.unicode_len();
    if !(i < len && s.get_char(i) == '제') {
        return None;
    }
    let dend = scan_digits(s, i + 1);
    if !(dend > i + 1 && dend < len && s.get_char(dend) == '조') {
        return None;
    }
    let num = String::from_str(s.substring_char(i + 1, dend));
    let mut after = dend + 1;
    let branch: Option<String>;
    if after < len && s.get_char(after) == '의' {
        let bend = scan_digits(s, after + 1);
        if bend > after + 1 {
            branch = Some(String::from_str(s.substring_char(after + 1, bend)));
            after = bend;
        } else {
            branch = None;
        }
    } else {
        branch = None;
    }
    after = num_suffix(s, after, '항');
    after = num_suffix(s, after, '호');
    Some((num, branch, after))
}

fn num_suffix(s: &str, i: usize, marker: char) -> (r: usize)
    requires
        i <= s@.len(),
    ensures
        r as int == spec_num_suffix(s@, i as int, marker),
        i <= r <= s@.len(),
{
    let len = s.unicode_len();
    if i < len && s.get_char(i) == '제' {
        let dend = scan_digits(s, i + 1);
        if dend > i + 1 && dend < len && s.get_char(dend) == marker {
            dend + 1
        } else {
            i
        }
    } else {
        i
    }
}

fn internal_ref_at(s: &str, i: usize) -> (r: Option<(String, Option<String>, usize)>)
    requires
        i <= s@.len(),
    ensures
        match r {
            Some((num, b, end)) => spec_internal_ref(s@, i as int) == Some(
                (
                    num@,
                    match b {
                        Some(bs) => Some(bs@),
                        None => None,
                    },
                    end as int,
                ),
            ),
            None => spec_internal_ref(s@, i as int) is None,
        },
{
    let len = s.unicode_len();
    match citation_at(s, i) {
        Some((num, b, end)) => {
            proof {
                lemma_citation_end(s@, i as int);
            }
            let end2: usize = if end < len && len - end > 1 && '가' <= s.get_char(end)
                && s.get_char(end) <= '하' && s.get_char(end + 1) == '목' {
                end + 2
            } else {
                end
            };
            Some((num, b, end2))
        },
        None => None,
    }
}

fn law_ref_at(s: &str, i: usize) -> (r: Option<(String, Option<String>, usize)>)
    requires
        i <= s@.len(),
    ensures
        match r {
            Some((law, num, end)) => spec_law_ref(s@, i as int) == Some(
                (
                    law@,
                    match num {
                        Some(n) => Some(n@),
                        None => None,
                    },
                    end as int,
                ),
            ),
            None => spec_law_ref(s@, i as int) is None,
        },
{
    let len = s.unicode_len();
    if !(i < len && s.get_char(i) == '「') {
        return None;
    }
    proof {
        reveal_strlit("」");
        assert("」"@ =~= seq!['」']);
    }
    match crate::strings::find_sub_from(s, "」", i + 1) {
        Some(c) => {
            proof {
                crate::strings::lemma_find_in_range(s@, "」"@, i as int + 1, c as int);
            }
            if c > i + 1 {
                let law = String::from_str(s.substring_char(i + 1, c));
                let w = scan_ws(s, c + 1);
                match citation_at(s, w) {
                    Some((num, _b, end)) => Some((law, Some(num), end)),
                    None => Some((law, None, c + 1)),
                }
            } else {
                None
            }
        },
        None => None,
    }
}

fn collect_law_refs(s: &str) -> (r: Vec<(String, Option<String>, String)>)
    ensures
        r@.map_values(
            |t: (String, Option<String>, String)|
                (
                    t.0@,
                    match t.1 {
                        Some(n) => Some(n@),
                        None => None,
                    },
                    t.2@,
                ),
        ) == spec_law_refs(s@, 0),
{
    let len = s.unicode_len();
    let mut out: Vec<(String, Option<String>, String)> = Vec::new();
    let mut i: usize = 0;
    let ghost view_fn = |t: (String, Option<String>, String)|
        (
            t.0@,
            match t.1 {
                Some(n) => Some(n@),
                None => None,
            },
            t.2@,
        );
    proof {
        assert(out@.map_values(view_fn) + spec_law_refs(s@, 0) =~= spec_law_refs(s@, 0));
    }
    while i < len
        invariant
            len == s@.len(),
            i <= len,
            spec_law_refs(s@, 0) == out@.map_values(
                |t: (String, Option<String>, String)|
                    (
                        t.0@,
                        match t.1 {
                            Some(n) => Some(n@),
                            None => None,
                        },
                        t.2@,
                    ),
            ) + spec_law_refs(s@, i as int),
        decreases len - i,
    {
        let ghost pre = out@.map_values(
            |t: (String, Option<String>, String)|
                (
                    t.0@,
                    match t.1 {
                        Some(n) => Some(n@),
                        None => None,
                    },
                    t.2@,
                ),
        );
        match law_ref_at(s, i) {
            Some((law, num, end)) => {
                proof {
                    lemma_law_ref_end(s@, i as int);
                }
                let raw = String::from_str(s.substring_char(i, end));
                out.push((law, num, raw));
                proof {
                    assert(out@.map_values(
                        |t: (String, Option<String>, String)|
                            (
                                t.0@,
                                match t.1 {
                                    Some(n) => Some(n@),
                                    None => None,
                                },
                                t.2@,
                            ),
                    ) =~= pre + seq![spec_law_refs(s@, i as int)[0]]);
                }
                i = end;
            },
            None => {
                i += 1;
            },
        }
    }
    proof {
        assert(spec_law_refs(s@, i as int) =~= Seq::<(Seq<char>, Option<Seq<char>>, Seq<char>)>::empty());
        assert(out@.map_values(
            |t: (String, Option<String>, String)|
                (
                    t.0@,
                    match t.1 {
                        Some(n) => Some(n@),
                        None => None,
                    },
                    t.2@,
                ),
        ) + Seq::<(Seq<char>, Option<Seq<char>>, Seq<char>)>::empty() =~= out@.map_values(
            |t: (String, Option<String>, String)|
                (
                    t.0@,
                    match t.1 {
                        Some(n) => Some(n@),
                        None => None,
                    },
                    t.2@,
                ),
        ));
    }
    out
}

fn collect_internal_refs(s: &str) -> (r: Vec<(String, Option<String>, String)>)
    ensures
        r@.map_values(
            |t: (String, Option<String>, String)|
                (
                    t.0@,
                    match t.1 {
                        Some(n) => Some(n@),
                        None => None,
                    },
                    t.2@,
                ),
        ) == spec_internal_refs(s@, 0),
{
    let len = s.unicode_len();
    let mut out: Vec<(String, Option<String>, String)> = Vec::new();
    let mut i: usize = 0;
    proof {
        assert(out@.map_values(
            |t: (String, Option<String>, String)|
                (
                    t.0@,
                    match t.1 {
                        Some(n) => Some(n@),
                        None => None,
                    },
                    t.2@,
                ),
        ) + spec_internal_refs(s@, 0) =~= spec_internal_refs(s@, 0));
    }
    while i < len
        invariant
            len == s@.len(),
            i <= len,
            spec_internal_refs(s@, 0) == out@.map_values(
                |t: (String, Option<String>, String)|
                    (
                        t.0@,
                        match t.1 {
                            Some(n) => Some(n@),
                            None => None,
                        },
                        t.2@,
                    ),
            ) + spec_internal_refs(s@, i as int),
        decreases len - i,
    {
        let ghost pre = out@.map_values(
            |t: (String, Option<String>, String)|
                (
                    t.0@,
                    match t.1 {
                        Some(n) => Some(n@),
                        None => None,
                    },
                    t.2@,
                ),
        );
        match internal_ref_at(s, i) {
            Some((num, b, end)) => {
                proof {
                    lemma_internal_ref_end(s@, i as int);
                }
                let raw = String::from_str(s.substring_char(i, end));
                out.push((num, b, raw));
                proof {
                    assert(out@.map_values(
                        |t: (String, Option<String>, String)|
                            (
                                t.0@,
                                match t.1 {
                                    Some(n) => Some(n@),
                                    None => None,
                                },
                                t.2@,
                            ),
                    ) =~= pre + seq![spec_internal_refs(s@, i as int)[0]]);
                }
                i = end;
            },
            None => {
                i += 1;
            },
        }
    }
    proof {
        assert(spec_internal_refs(s@, i as int) =~= Seq::<
            (Seq<char>, Option<Seq<char>>, Seq<char>),
        >::empty());
        assert(out@.map_values(
            |t: (String, Option<String>, String)|
                (
                    t.0@,
                    match t.1 {
                        Some(n) => Some(n@),
                        None => None,
                    },
                    t.2@,
                ),
        ) + Seq::<(Seq<char>, Option<Seq<char>>, Seq<char>)>::empty() =~= out@.map_values(
            |t: (String, Option<String>, String)|
                (
                    t.0@,
                    match t.1 {
                        Some(n) => Some(n@),
                        None => None,
                    },
                    t.2@,
                ),
        ));
    }
    out
}

/// The external references a text carries, as reference records.
pub open spec fn spec_ext_records(es: Seq<(Seq<char>, Option<Seq<char>>, Seq<char>)>, i: int) -> Seq<
    LegalReferenceV,
>
    decreases es.len() - i,
    when 0 <= i
{
    if i >= es.len() {
        Seq::empty()
    } else {
        let (law, num, raw) = es[i];
        let art = match num {
            Some(n) => Some("제"@ + n + "조"@),
            None => None,
        };
        seq![
            LegalReferenceV {
                target_law: Some(law),
                target_article: art,
                reference_type: "external"@,
                raw_text: raw,
            },
        ] + spec_ext_records(es, i + 1)
    }
}

/// Whether some external raw text contains the given raw text.
pub open spec fn spec_covered_by_ext(
    es: Seq<(Seq<char>, Option<Seq<char>>, Seq<char>)>,
    raw: Seq<char>,
) -> bool {
    exists|k: int|
        0 <= k < es.len() && crate::strings::spec_find_from(#[trigger] es[k].2, raw, 0) is Some
}

/// The internal references a text carries, as reference records; one whose
/// raw text already appears inside an external reference is left out.
pub open spec fn spec_int_records(
    ints: Seq<(Seq<char>, Option<Seq<char>>, Seq<char>)>,
    es: Seq<(Seq<char>, Option<Seq<char>>, Seq<char>)>,
    i: int,
) -> Seq<LegalReferenceV>
    decreases ints.len() - i,
    when 0 <= i
{
    if i >= ints.len() {
        Seq::empty()
    } else {
        let (num, b, raw) = ints[i];
        let rest = spec_int_records(ints, es, i + 1);
        if spec_covered_by_ext(es, raw) {
            rest
        } else {
            let art = match b {
                Some(bs) => "제"@ + num + "조"@ + "의"@ + bs,
                None => "제"@ + num + "조"@,
            };
            seq![
                LegalReferenceV {
                    target_law: None,
                    target_article: Some(art),
                    reference_type: "internal"@,
                    raw_text: raw,
                },
            ] + rest
        }
    }
}

/// Every reference a text carries: the external ones first, then the
/// internal ones not already covered by an external one.
pub open spec fn spec_references(text: Seq<char>) -> Seq<LegalReferenceV> {
    spec_ext_records(spec_law_refs(text, 0), 0) + spec_int_records(
        spec_internal_refs(text, 0),
        spec_law_refs(text, 0),
        0,
    )
}

impl KoreanLegalChunker {
    /// Finds the references a text carries: outside-law citations in corner
    /// brackets, and article citations of the same law, the latter dropped
    /// where an outside citation already covers them.
    pub fn extract_references(&self, text: &str) -> (r: Vec<LegalReference>)
        ensures
            r@.map_values(|x: LegalReference| x@) == spec_references(text@),
    {
        let ext = collect_law_refs(text);
        let ints = collect_internal_refs(text);
        let ghost ev = spec_law_refs(text@, 0);
        let ghost iv = spec_internal_refs(text@, 0);
        let mut refs: Vec<LegalReference> = Vec::new();
        let mut i: usize = 0;
        proof {
            assert(refs@.map_values(|x: LegalReference| x@) + spec_ext_records(ev, 0)
                =~= spec_ext_records(ev, 0));
        }
        while i < ext.len()
            invariant
                ext@.map_values(
                    |t: (String, Option<String>, String)|
                        (
                            t.0@,
                            match t.1 {
                                Some(n) => Some(n@),
                                None => None,
                            },
                            t.2@,
                        ),
                ) == ev,
                ev.len() == ext@.len(),
                i <= ext@.len(),
                spec_ext_records(ev, 0) == refs@.map_values(|x: LegalReference| x@)
                    + spec_ext_records(ev, i as int),
            decreases ext@.len() - i,
        {
            let ghost pre = refs@.map_values(|x: LegalReference| x@);
            let law = ext[i].0.clone();
            let num = match &ext[i].1 {
                Some(n) => {
                    let mut art = String::from_str("제");
                    art.append(n.as_str());
                    art.append("조");
                    Some(art)
                },
                None => None,
            };
            let raw = ext[i].2.clone();
            let record = LegalReference::external(law, num, raw);
            refs.push(record);
            proof {
                assert(ev[i as int] == (
                    ext@[i as int].0@,
                    match ext@[i as int].1 {
                        Some(n) => Some(n@),
                        None => None,
                    },
                    ext@[i as int].2@,
                ));
                assert(refs@.map_values(|x: LegalReference| x@) =~= pre + seq![
                    spec_ext_records(ev, i as int)[0],
                ]);
            }
            i += 1;
        }
        proof {
            assert(spec_ext_records(ev, i as int) =~= Seq::<LegalReferenceV>::empty());
            assert(refs@.map_values(|x: LegalReference| x@) =~= spec_ext_records(ev, 0));
        }
        let ghost ext_done = refs@.map_values(|x: LegalReference| x@);
        let mut j: usize = 0;
        proof {
            assert(ext_done + spec_int_records(iv, ev, 0) =~= ext_done + spec_int_records(
                iv,
                ev,
                0,
            ));
        }
        while j < ints.len()
            invariant
                ints@.map_values(
                    |t: (String, Option<String>, String)|
                        (
                            t.0@,
                            match t.1 {
                                Some(n) => Some(n@),
                                None => None,
                            },
                            t.2@,
                        ),
                ) == iv,
                ext@.map_values(
                    |t: (String, Option<String>, String)|
                        (
                            t.0@,
                            match t.1 {
                                Some(n) => Some(n@),
                                None => None,
                            },
                            t.2@,
                        ),
                ) == ev,
                ev.len() == ext@.len(),
                iv.len() == ints@.len(),
                j <= ints@.len(),
                ext_done + spec_int_records(iv, ev, 0) == refs@.map_values(
                    |x: LegalReference| x@,
                ) + spec_int_records(iv, ev, j as int),
            decreases ints@.len() - j,
        {
            let ghost pre = refs@.map_values(|x: LegalReference| x@);
            let mut covered = false;
            let mut k: usize = 0;
            while k < ext.len()
                invariant
                    ext@.map_values(
                        |t: (String, Option<String>, String)|
                            (
                                t.0@,
                                match t.1 {
                                    Some(n) => Some(n@),
                                    None => None,
                                },
                                t.2@,
                            ),
                    ) == ev,
                    ev.len() == ext@.len(),
                    j < ints@.len(),
                    iv.len() == ints@.len(),
                    ints@.map_values(
                        |t: (String, Option<String>, String)|
                            (
                                t.0@,
                                match t.1 {
                                    Some(n) => Some(n@),
                                    None => None,
                                },
                                t.2@,
                            ),
                    ) == iv,
                    k <= ext@.len(),
                    covered ==> spec_covered_by_ext(ev, iv[j as int].2),
                    !covered ==> forall|m: int|
                        0 <= m < k ==> !(crate::strings::spec_find_from(
                            #[trigger] ev[m].2,
                            iv[j as int].2,
                            0,
                        ) is Some),
                decreases ext@.len() - k,
            {
                let hit = crate::strings::contains_sub(ext[k].2.as_str(), ints[j].2.as_str());
                proof {
                    assert(ev[k as int] == (
                        ext@[k as int].0@,
                        match ext@[k as int].1 {
                            Some(n) => Some(n@),
                            None => None,
                        },
                        ext@[k as int].2@,
                    ));
                    assert(iv[j as int] == (
                        ints@[j as int].0@,
                        match ints@[j as int].1 {
                            Some(n) => Some(n@),
                            None => None,
                        },
                        ints@[j as int].2@,
                    ));
                    assert(ev[k as int].2 == ext@[k as int].2@);
                    assert(iv[j as int].2 == ints@[j as int].2@);
                    if hit {
                        assert(crate::strings::spec_find_from(
                            ev[k as int].2,
                            iv[j as int].2,
                            0,
                        ) is Some);
                        assert(spec_covered_by_ext(ev, iv[j as int].2));
                    }
                }
                if hit {
                    covered = true;
                }
                k += 1;
            }
            proof {
                assert(iv[j as int].2 == ints@[j as int].2@);
                if !covered {
                    assert(!spec_covered_by_ext(ev, iv[j as int].2));
                }
            }
            if !covered {
                let mut art = String::from_str("제");
                art.append(ints[j].0.as_str());
                art.append("조");
                match &ints[j].1 {
                    Some(bs) => {
                        art.append("의");
                        art.append(bs.as_str());
                    },
                    None => {},
                }
                let record = LegalReference::internal(art, ints[j].2.clone());
                refs.push(record);
                proof {
                    assert(iv[j as int] == (
                        ints@[j as int].0@,
                        match ints@[j as int].1 {
                            Some(n) => Some(n@),
                            None => None,
                        },
                        ints@[j as int].2@,
                    ));
                    assert(refs@.map_values(|x: LegalReference| x@) =~= pre + seq![
                        spec_int_records(iv, ev, j as int)[0],
                    ]);
                }
            }
            j += 1;
        }
        proof {
            assert(spec_int_records(iv, ev, j as int) =~= Seq::<LegalReferenceV>::empty());
            assert(refs@.map_values(|x: LegalReference| x@) =~= ext_done + spec_int_records(
                iv,
                ev,
                0,
            ));
        }
        refs
    }
}

} // verus!

verus! {

/// A numbered suffix element with its numeral: `제` + numeral + marker.
pub open spec fn spec_num_suffix_val(s: Seq<char>, i: int, marker: char) -> Option<
    (Seq<char>, int),
> {
    if 0 <= i && i < s.len() && s[i] == '제' {
        let dend = first_non_digit(s, i + 1);
        if dend > i + 1 && dend < s.len() && s[dend] == marker {
            Some((s.subrange(i + 1, dend), dend + 1))
        } else {
            None
        }
    } else {
        None
    }
}

/// An article citation with all its numbered parts: the article numeral, the
/// branch, the paragraph and subparagraph numerals, and one past its end.
pub open spec fn spec_citation_groups(s: Seq<char>, i: int) -> Option<
    (Seq<char>, Option<Seq<char>>, Option<Seq<char>>, Option<Seq<char>>, int),
> {
    if 0 <= i && i < s.len() && s[i] == '제' {
        let dend = first_non_digit(s, i + 1);
        if dend > i + 1 && dend < s.len() && s[dend] == '조' {
            let num = s.subrange(i + 1, dend);
            let b = spec_article_branch(s, dend + 1);
            let after1 = match b {
                Some(bs) => dend + 2 + bs.len(),
                None => dend + 1,
            };
            let (para, after2): (Option<Seq<char>>, int) = match spec_num_suffix_val(
                s,
                after1,
                '항',
            ) {
                Some((p, e)) => (Some(p), e),
                None => (None, after1),
            };
            let (ho, after3): (Option<Seq<char>>, int) = match spec_num_suffix_val(
                s,
                after2,
                '호',
            ) {
                Some((h, e)) => (Some(h), e),
                None => (None, after2),
            };
            Some((num, b, para, ho, after3))
        } else {
            None
        }
    } else {
        None
    }
}

fn num_suffix_val(s: &str, i: usize, marker: char) -> (r: Option<(String, usize)>)
    requires
        i <= s@.len(),
    ensures
        match r {
            Some((v, e)) => spec_num_suffix_val(s@, i as int, marker) == Some((v@, e as int))
                && i < e <= s@.len(),
            None => spec_num_suffix_val(s@, i as int, marker) is None,
        },
{
    let len = s.unicode_len();
    if i < len && s.get_char(i) == '제' {
        let dend = scan_digits(s, i + 1);
        if dend > i + 1 && dend < len && s.get_char(dend) == marker {
            Some((String::from_str(s.substring_char(i + 1, dend)), dend + 1))
        } else {
            None
        }
    } else {
        None
    }
}

fn citation_groups_at(s: &str, i: usize) -> (r: Option<
    (String, Option<String>, Option<String>, Option<String>, usize),
>)
    requires
        i <= s@.len(),
    ensures
        match r {
            Some((num, b, p, h, end)) => spec_citation_groups(s@, i as int) == Some(
                (
                    num@,
                    match b {
                        Some(x) => Some(x@),
                        None => None,
                    },
                    match p {
                        Some(x) => Some(x@),
                        None => None,
                    },
                    match h {
                        Some(x) => Some(x@),
                        None => None,
                    },
                    end as int,
                ),
            ) && end <= s@.len(),
            None => spec_citation_groups(s@, i as int) is None,
        },
{
    let len = s.unicode_len();
    if !(i < len && s.get_char(i) == '제') {
        return None;
    }
    let dend = scan_digits(s, i + 1);
    if !(dend > i + 1 && dend < len && s.get_char(dend) == '조') {
        return None;
    }
    let num = String::from_str(s.substring_char(i + 1, dend));
    let mut after = dend + 1;
    let branch: Option<String>;
    if after < len && s.get_char(after) == '의' {
        let bend = scan_digits(s, after + 1);
        if bend > after + 1 {
            branch = Some(String::from_str(s.substring_char(after + 1, bend)));
            after = bend;
        } else {
            branch = None;
        }
    } else {
        branch = None;
    }
    let para: Option<String>;
    match num_suffix_val(s, after, '항') {
        Some((p, e)) => {
            para = Some(p);
            after = e;
        },
        None => {
            para = None;
        },
    }
    let ho: Option<String>;
    match num_suffix_val(s, after, '호') {
        Some((h, e)) => {
            ho = Some(h);
            after = e;
        },
        None => {
            ho = None;
        },
    }
    Some((num, branch, para, ho, after))
}

/// The first outside-law reference of a text, with every numbered group: the
/// law name, then the article, paragraph and subparagraph numerals of the
/// citation that may follow it.
pub open spec fn spec_first_law_reference(s: Seq<char>, i: int) -> Option<
    (Seq<char>, Option<Seq<char>>, Option<Seq<char>>, Option<Seq<char>>, Option<Seq<char>>),
>
    decreases s.len() - i,
    when 0 <= i
{
    if i >= s.len() {
        None
    } else if s[i] == '「' {
        match crate::strings::spec_find_from(s, seq!['」'], i + 1) {
            Some(c) => if c > i + 1 {
                let law = s.subrange(i + 1, c);
                let w = first_non_ws(s, c + 1);
                match spec_citation_groups(s, w) {
                    Some((num, b, p, h, _end)) => Some((law, Some(num), b, p, h)),
                    None => Some((law, None, None, None, None)),
                }
            } else {
                spec_first_law_reference(s, i + 1)
            },
            None => spec_first_law_reference(s, i + 1),
        }
    } else {
        spec_first_law_reference(s, i + 1)
    }
}

/// Finds the first outside-law reference of a text, with its numbered
/// groups.
pub fn match_law_reference(text: &str) -> (r: Option<
    (String, Option<String>, Option<String>, Option<String>, Option<String>),
>)
    ensures
        match r {
            Some((law, num, b, p, h)) => spec_first_law_reference(text@, 0) == Some(
                (
                    law@,
                    match num {
                        Some(x) => Some(x@),
                        None => None,
                    },
                    match b {
                        Some(x) => Some(x@),
                        None => None,
                    },
                    match p {
                        Some(x) => Some(x@),
                        None => None,
                    },
                    match h {
                        Some(x) => Some(x@),
                        None => None,
                    },
                ),
            ),
            None => spec_first_law_reference(text@, 0) is None,
        },
{
    law_reference_from(text, 0)
}

fn law_reference_from(s: &str, i: usize) -> (r: Option<
    (String, Option<String>, Option<String>, Option<String>, Option<String>),
>)
    requires
        i <= s@.len(),
    ensures
        match r {
            Some((law, num, b, p, h)) => spec_first_law_reference(s@, i as int) == Some(
                (
                    law@,
                    match num {
                        Some(x) => Some(x@),
                        None => None,
                    },
                    match b {
                        Some(x) => Some(x@),
                        None => None,
                    },
                    match p {
                        Some(x) => Some(x@),
                        None => None,
                    },
                    match h {
                        Some(x) => Some(x@),
                        None => None,
                    },
                ),
            ),
            None => spec_first_law_reference(s@, i as int) is None,
        },
    decreases s@.len() - i,
{
    let len = s.unicode_len();
    if i >= len {
        return None;
    }
    if s.get_char(i) == '「' {
        proof {
            reveal_strlit("」");
            assert("」"@ =~= seq!['」']);
        }
        match crate::strings::find_sub_from(s, "」", i + 1) {
            Some(c) => {
                proof {
                    crate::strings::lemma_find_in_range(s@, "」"@, i as int + 1, c as int);
                }
                if c > i + 1 {
                    let law = String::from_str(s.substring_char(i + 1, c));
                    let w = scan_ws(s, c + 1);
                    match citation_groups_at(s, w) {
                        Some((num, b, p, h, _end)) => Some((law, Some(num), b, p, h)),
                        None => Some((law, None, None, None, None)),
                    }
                } else {
                    law_reference_from(s, i + 1)
                }
            },
            None => law_reference_from(s, i + 1),
        }
    } else {
        law_reference_from(s, i + 1)
    }
}

/// The first article citation of a text, with every numbered group and any
/// trailing item letter.
pub open spec fn spec_first_internal_reference(s: Seq<char>, i: int) -> Option<
    (Seq<char>, Option<Seq<char>>, Option<Seq<char>>, Option<Seq<char>>, Option<char>),
>
    decreases s.len() - i,
    when 0 <= i
{
    if i >= s.len() {
        None
    } else {
        match spec_citation_groups(s, i) {
            Some((num, b, p, h, end)) => {
                let mok: Option<char> = if end < s.len() && '가' <= s[end] && s[end] <= '하'
                    && end + 1 < s.len() && s[end + 1] == '목' {
                    Some(s[end])
                } else {
                    None
                };
                Some((num, b, p, h, mok))
            },
            None => spec_first_internal_reference(s, i + 1),
        }
    }
}

/// Finds the first article citation of a text, with its numbered groups and
/// any trailing item letter.
pub fn match_internal_reference(text: &str) -> (r: Option<
    (String, Option<String>, Option<String>, Option<String>, Option<char>),
>)
    ensures
        match r {
            Some((num, b, p, h, mok)) => spec_first_internal_reference(text@, 0) == Some(
                (
                    num@,
                    match b {
                        Some(x) => Some(x@),
                        None => None,
                    },
                    match p {
                        Some(x) => Some(x@),
                        None => None,
                    },
                    match h {
                        Some(x) => Some(x@),
                        None => None,
                    },
                    mok,
                ),
            ),
            None => spec_first_internal_reference(text@, 0) is None,
        },
{
    internal_reference_from(text, 0)
}

fn internal_reference_from(s: &str, i: usize) -> (r: Option<
    (String, Option<String>, Option<String>, Option<String>, Option<char>),
>)
    requires
        i <= s@.len(),
    ensures
        match r {
            Some((num, b, p, h, mok)) => spec_first_internal_reference(s@, i as int) == Some(
                (
                    num@,
                    match b {
                        Some(x) => Some(x@),
                        None => None,
                    },
                    match p {
                        Some(x) => Some(x@),
                        None => None,
                    },
                    match h {
                        Some(x) => Some(x@),
                        None => None,
                    },
                    mok,
                ),
            ),
            None => spec_first_internal_reference(s@, i as int) is None,
        },
    decreases s@.len() - i,
{
    let len = s.unicode_len();
    if i >= len {
        return None;
    }
    match citation_groups_at(s, i) {
        Some((num, b, p, h, end)) => {
            let mok: Option<char> = if end < len && '가' <= s.get_char(end) && s.get_char(end)
                <= '하' && len - end > 1 && s.get_char(end + 1) == '목' {
                Some(s.get_char(end))
            } else {
                None
            };
            Some((num, b, p, h, mok))
        },
        None => internal_reference_from(s, i + 1),
    }
}

} // verus!
