//! The PDF document model and the text-level decoding the extractor needs:
//! content-stream string syntax (literal escapes and hex strings), font
//! style classification, version and page splitting, and markdown and MDX
//! rendering. Loading, decryption and layout analysis live outside the
//! library, next to the PDF object reader they need.

use crate::strings::{
    ends_with_sub, lower_of, lowercase, match_at, push_dec, spec_dec, spec_find_from, spec_join,
    spec_replace, spec_trim, str_eq, contains_sub, find_sub_from, replace_sub, split_lines,
    spec_lines, trim_str,
};
use vstd::prelude::*;

verus! {

/// The PDF-specific errors; the carried text names the algorithm or cause.
#[derive(Debug, Clone)]
pub enum PdfError {
    EncryptedNoPassword,
    InvalidPassword,
    UnsupportedEncryption(String),
    ParseError(String),
    IoError(String),
}

/// The message text of an error.
pub open spec fn spec_pdf_error_message(e: PdfError) -> Seq<char> {
    match e {
        PdfError::EncryptedNoPassword => "PDF is encrypted and requires a password"@,
        PdfError::InvalidPassword => "Invalid password for encrypted PDF"@,
        PdfError::UnsupportedEncryption(s) => "Unsupported encryption algorithm: "@ + s@,
        PdfError::ParseError(s) => "PDF parsing error: "@ + s@,
        PdfError::IoError(s) => "IO error: "@ + s@,
    }
}

impl PdfError {
    /// The error rendered as a message.
    pub fn message(&self) -> (r: String)
        ensures
            r@ == spec_pdf_error_message(*self),
    {
        match self {
            PdfError::EncryptedNoPassword => String::from_str(
                "PDF is encrypted and requires a password",
            ),
            PdfError::InvalidPassword => String::from_str("Invalid password for encrypted PDF"),
            PdfError::UnsupportedEncryption(s) => {
                let mut out = String::from_str("Unsupported encryption algorithm: ");
                out.append(s.as_str());
                out
            },
            PdfError::ParseError(s) => {
                let mut out = String::from_str("PDF parsing error: ");
                out.append(s.as_str());
                out
            },
            PdfError::IoError(s) => {
                let mut out = String::from_str("IO error: ");
                out.append(s.as_str());
                out
            },
        }
    }
}

/// A document's encryption dictionary, summarized.
#[derive(Debug, Clone)]
pub struct EncryptionInfo {
    pub version: u32,
    pub revision: u32,
    pub key_length: u32,
    pub user_password_set: bool,
    pub owner_password_set: bool,
    pub permissions: i32,
}

/// The kinds of layout element position-aware extraction yields.
#[derive(Debug, Clone, PartialEq, Eq, Structural)]
pub enum LayoutElementType {
    Text,
    Image,
    Table,
    HorizontalRule,
    PageBreak,
    Header,
    Footer,
    ParagraphBreak,
    ListItem,
}

/// Horizontal text alignment.
#[derive(Debug, Clone, Copy, PartialEq, Eq, Structural)]
pub enum TextAlignment {
    Left,
    Center,
    Right,
    Justify,
}

impl Default for TextAlignment {
    /// Text aligns left unless said otherwise.
    fn default() -> (r: Self)
        ensures
            r == TextAlignment::Left,
    {
        TextAlignment::Left
    }
}

/// Whether a font renders bold or italic, judged from its name.
#[derive(Debug, Clone, Copy, PartialEq, Eq, Structural)]
pub struct FontStyle {
    pub bold: bool,
    pub italic: bool,
}

impl Default for FontStyle {
    /// A regular style.
    fn default() -> (r: Self)
        ensures
            r == (FontStyle { bold: false, italic: false }),
    {
        FontStyle { bold: false, italic: false }
    }
}

/// Whether `p` occurs in `s`.
pub open spec fn spec_contains(s: Seq<char>, p: Seq<char>) -> bool {
    spec_find_from(s, p, 0) is Some
}

/// Whether `s` ends with `p`.
pub open spec fn spec_ends_with(s: Seq<char>, p: Seq<char>) -> bool {
    p.len() <= s.len() && match_at(s, p, s.len() - p.len())
}

/// The bold marks a lowercased font name can carry.
pub open spec fn spec_name_bold(l: Seq<char>) -> bool {
    spec_contains(l, "bold"@) || spec_contains(l, "-bd"@) || spec_contains(l, "_bd"@)
        || spec_contains(l, "-b,"@) || spec_ends_with(l, "-b"@) || spec_contains(l, "black"@)
        || spec_contains(l, "heavy"@) || spec_contains(l, "semibold"@) || spec_contains(
        l,
        "demibold"@,
    ) || spec_contains(l, "extrabold"@) || spec_contains(l, "ultrabold"@)
}

/// The italic marks a lowercased font name can carry.
pub open spec fn spec_name_italic(l: Seq<char>) -> bool {
    spec_contains(l, "italic"@) || spec_contains(l, "oblique"@) || spec_contains(l, "-it"@)
        || spec_contains(l, "_it"@) || spec_contains(l, "-i,"@) || spec_ends_with(l, "-i"@)
        || spec_contains(l, "slanted"@)
}

/// Judges a font's style from the conventional marks in its lowercased name.
pub fn detect_font_style(font_name: &str) -> (r: FontStyle)
    ensures
        r.bold == spec_name_bold(lower_of(font_name@)),
        r.italic == spec_name_italic(lower_of(font_name@)),
{
    let low = lowercase(font_name);
    let l = low.as_str();
    let is_bold = contains_sub(l, "bold") || contains_sub(l, "-bd") || contains_sub(l, "_bd")
        || contains_sub(l, "-b,") || ends_with_sub(l, "-b") || contains_sub(l, "black")
        || contains_sub(l, "heavy") || contains_sub(l, "semibold") || contains_sub(l, "demibold")
        || contains_sub(l, "extrabold") || contains_sub(l, "ultrabold");
    let is_italic = contains_sub(l, "italic") || contains_sub(l, "oblique") || contains_sub(
        l,
        "-it",
    ) || contains_sub(l, "_it") || contains_sub(l, "-i,") || ends_with_sub(l, "-i")
        || contains_sub(l, "slanted");
    FontStyle { bold: is_bold, italic: is_italic }
}

/// The format of an image stream extracted from a document.
#[derive(Debug, Clone, Copy, PartialEq, Eq, Structural)]
pub enum ImageFormat {
    Jpeg,
    Png,
    Raw,
}

impl ImageFormat {
    /// The file extension conventional for the format.
    pub fn extension(&self) -> (r: &'static str)
        ensures
            r@ == match *self {
                ImageFormat::Jpeg => "jpg"@,
                ImageFormat::Png => "png"@,
                ImageFormat::Raw => "raw"@,
            },
    {
        match self {
            ImageFormat::Jpeg => "jpg",
            ImageFormat::Png => "png",
            ImageFormat::Raw => "raw",
        }
    }
}

/// An image extracted from the document.
#[derive(Debug, Clone)]
pub struct PdfImage {
    pub id: String,
    pub width: u32,
    pub height: u32,
    pub format: ImageFormat,
    pub data: Vec<u8>,
    pub page: Option<usize>,
}

/// The uppercase extension name of a format, for listings.
pub open spec fn spec_ext_upper(f: ImageFormat) -> Seq<char> {
    match f {
        ImageFormat::Jpeg => "JPG"@,
        ImageFormat::Png => "PNG"@,
        ImageFormat::Raw => "RAW"@,
    }
}

impl PdfImage {
    /// The file name suggested for the image: its id and its extension.
    pub fn filename(&self) -> (r: String)
        ensures
            r@ == self.id@ + seq!['.'] + match self.format {
                ImageFormat::Jpeg => "jpg"@,
                ImageFormat::Png => "png"@,
                ImageFormat::Raw => "raw"@,
            },
    {
        let mut out = self.id.clone();
        out.push('.');
        out.append(self.format.extension());
        out
    }
}

/// A font the document names, with its judged style.
#[derive(Debug, Clone)]
pub struct PdfFont {
    pub name: String,
    pub base_font: String,
    pub is_bold: bool,
    pub is_italic: bool,
}

/// A table detected on a page.
#[derive(Debug, Clone)]
pub struct PdfTable {
    pub page: usize,
    pub rows: Vec<Vec<String>>,
    pub column_count: usize,
}

/// One page's text.
#[derive(Debug, Clone)]
pub struct PageContent {
    pub page_number: usize,
    pub text: String,
}

/// The document information dictionary's common fields.
#[derive(Debug, Clone)]
pub struct PdfMetadata {
    pub title: String,
    pub author: String,
    pub subject: String,
    pub creator: String,
    pub producer: String,
}

impl Default for PdfMetadata {
    /// Metadata with every field empty.
    fn default() -> (r: Self)
        ensures
            r.title@ == Seq::<char>::empty(),
            r.author@ == Seq::<char>::empty(),
            r.subject@ == Seq::<char>::empty(),
            r.creator@ == Seq::<char>::empty(),
            r.producer@ == Seq::<char>::empty(),
    {
        PdfMetadata {
            title: String::new(),
            author: String::new(),
            subject: String::new(),
            creator: String::new(),
            producer: String::new(),
        }
    }
}

/// The unescaped form of a PDF literal string body: backslash escapes for
/// the named controls, delimiters and backslash; an octal escape of up to
/// three digits yields its byte where it fits one; other escaped characters
/// stand for themselves, and a trailing backslash is dropped.
pub open spec fn spec_unescaped(s: Seq<char>, i: int) -> Seq<char>
    decreases s.len() - i,
    when 0 <= i
{
    if i >= s.len() {
        Seq::empty()
    } else if s[i] == '\\' {
        if i + 1 >= s.len() {
            Seq::empty()
        } else {
            let c = s[i + 1];
            if c == 'n' {
                seq!['\n'] + spec_unescaped(s, i + 2)
            } else if c == 'r' {
                seq!['\r'] + spec_unescaped(s, i + 2)
            } else if c == 't' {
                seq!['\t'] + spec_unescaped(s, i + 2)
            } else if c == 'b' {
                seq!['\u{8}'] + spec_unescaped(s, i + 2)
            } else if c == 'f' {
                seq!['\u{C}'] + spec_unescaped(s, i + 2)
            } else if c == '(' || c == ')' || c == '\\' {
                seq![c] + spec_unescaped(s, i + 2)
            } else if '0' <= c && c <= '9' {
                let n1 = i + 2 < s.len() && '0' <= s[i + 2] && s[i + 2] <= '9';
                let n2 = n1 && i + 3 < s.len() && '0' <= s[i + 3] && s[i + 3] <= '9';
                if n2 {
                    match spec_octal3(c, s[i + 2], s[i + 3]) {
                        Some(v) => seq![v] + spec_unescaped(s, i + 4),
                        None => spec_unescaped(s, i + 4),
                    }
                } else if n1 {
                    match spec_octal2(c, s[i + 2]) {
                        Some(v) => seq![v] + spec_unescaped(s, i + 3),
                        None => spec_unescaped(s, i + 3),
                    }
                } else {
                    match spec_octal1(c) {
                        Some(v) => seq![v] + spec_unescaped(s, i + 2),
                        None => spec_unescaped(s, i + 2),
                    }
                }
            } else {
                seq![c] + spec_unescaped(s, i + 2)
            }
        }
    } else {
        seq![s[i]] + spec_unescaped(s, i + 1)
    }
}

/// Whether a character is an octal digit.
pub open spec fn oct_ok(c: char) -> bool {
    '0' <= c && c <= '7'
}

/// The value of an octal digit.
pub open spec fn oct_val(c: char) -> int {
    c as int - '0' as int
}

/// The character a one-digit octal escape denotes.
pub open spec fn spec_octal1(a: char) -> Option<char> {
    if oct_ok(a) {
        Some(crate::strings::char_from_val(oct_val(a) as u32))
    } else {
        None
    }
}

/// The character a two-digit octal escape denotes.
pub open spec fn spec_octal2(a: char, b: char) -> Option<char> {
    if oct_ok(a) && oct_ok(b) {
        Some(crate::strings::char_from_val((oct_val(a) * 8 + oct_val(b)) as u32))
    } else {
        None
    }
}

/// The character a three-digit octal escape denotes, where its value fits a
/// byte.
pub open spec fn spec_octal3(a: char, b: char, d: char) -> Option<char> {
    if oct_ok(a) && oct_ok(b) && oct_ok(d) && oct_val(a) * 64 + oct_val(b) * 8 + oct_val(d)
        <= 255 {
        Some(crate::strings::char_from_val((oct_val(a) * 64 + oct_val(b) * 8 + oct_val(d)) as u32))
    } else {
        None
    }
}

} // verus!

verus! {

fn is_digit09(c: char) -> (r: bool)
    ensures
        r == ('0' <= c && c <= '9'),
{
    '0' <= c && c <= '9'
}

/// Unescapes a PDF literal string body.
pub fn unescape_pdf_string(s: &str) -> (r: String)
    ensures
        r@ == spec_unescaped(s@, 0),
{
    let out = unescape_from(s, 0);
    out
}

fn unescape_from(s: &str, i: usize) -> (r: String)
    requires
        i <= s@.len(),
    ensures
        r@ == spec_unescaped(s@, i as int),
    decreases s@.len() - i,
{
    let len = s.unicode_len();
    if i >= len {
        String::new()
    } else {
        let ch = s.get_char(i);
        if ch == '\\' {
            if i + 1 >= len {
                String::new()
            } else {
                let c = s.get_char(i + 1);
                if c == 'n' || c == 'r' || c == 't' || c == 'b' || c == 'f' || c == '(' || c == ')'
                    || c == '\\' {
                    let lit: char = if c == 'n' {
                        '\n'
                    } else if c == 'r' {
                        '\r'
                    } else if c == 't' {
                        '\t'
                    } else if c == 'b' {
                        '\u{8}'
                    } else if c == 'f' {
                        '\u{C}'
                    } else {
                        c
                    };
                    let mut out = String::new();
                    out.push(lit);
                    let rest = unescape_from(s, i + 2);
                    out.append(rest.as_str());
                    proof {
                        assert(out@ =~= spec_unescaped(s@, i as int));
                    }
                    out
                } else if '0' <= c && c <= '9' {
                    let n1 = i + 2 < len && is_digit09(s.get_char(i + 2));
                    let n2 = n1 && i + 3 < len && is_digit09(s.get_char(i + 3));
                    let after: usize = if n2 {
                        i + 4
                    } else if n1 {
                        i + 3
                    } else {
                        i + 2
                    };
                    let mut ok = '0' <= c && c <= '7';
                    let mut val: u32 = (c as u32) - 48;
                    if n1 {
                        let d = s.get_char(i + 2);
                        ok = ok && '0' <= d && d <= '7';
                        if ok {
                            val = val * 8 + ((d as u32) - 48);
                        }
                    }
                    if n2 {
                        let d = s.get_char(i + 3);
                        ok = ok && '0' <= d && d <= '7';
                        if ok {
                            val = val * 8 + ((d as u32) - 48);
                        }
                    }
                    let rest = unescape_from(s, after);
                    if ok && val <= 255 {
                        match char::from_u32(val) {
                            Some(oc) => {
                                proof {
                                    crate::strings::lemma_char_from_val(oc);
                                    assert(crate::strings::char_val(oc) == val);
                                }
                                let mut out = String::new();
                                out.push(oc);
                                out.append(rest.as_str());
                                proof {
                                    assert(out@ =~= spec_unescaped(s@, i as int));
                                }
                                out
                            },
                            None => {
                                // unreachable: every value at most 255 is a scalar
                                rest
                            },
                        }
                    } else {
                        proof {
                            assert(rest@ =~= spec_unescaped(s@, i as int));
                        }
                        rest
                    }
                } else {
                    let mut out = String::new();
                    out.push(c);
                    let rest = unescape_from(s, i + 2);
                    out.append(rest.as_str());
                    proof {
                        assert(out@ =~= spec_unescaped(s@, i as int));
                    }
                    out
                }
            }
        } else {
            let mut out = String::new();
            out.push(ch);
            let rest = unescape_from(s, i + 1);
            out.append(rest.as_str());
            proof {
                assert(out@ =~= spec_unescaped(s@, i as int));
            }
            out
        }
    }
}

/// What `String::from_utf8_lossy` yields for the bytes: a pure function of
/// them; well-formed UTF-8 decodes to its characters, and in particular
/// ASCII bytes map to the characters with their values.
pub uninterp spec fn utf8_lossy_of(b: Seq<u8>) -> Seq<char>;

/// Relies on std's `String::from_utf8_lossy`: decodes UTF-8, exchanging
/// ill-formed sequences for the replacement character; pure ASCII input
/// decodes to the characters with the bytes' values.
#[verifier::external_body]
fn utf8_lossy(v: &[u8]) -> (r: String)
    ensures
        r@ == utf8_lossy_of(v@),
        (forall|i: int| 0 <= i < v@.len() ==> v@[i] < 0x80) ==> r@ == v@.map_values(
            |b: u8| crate::strings::char_from_val(b as u32),
        ),
{
    String::from_utf8_lossy(v).to_string()
}

/// The value of a hexadecimal digit.
pub open spec fn spec_hex_digit(c: char) -> Option<int> {
    if '0' <= c && c <= '9' {
        Some(c as int - '0' as int)
    } else if 'a' <= c && c <= 'f' {
        Some(c as int - 'a' as int + 10)
    } else if 'A' <= c && c <= 'F' {
        Some(c as int - 'A' as int + 10)
    } else {
        None
    }
}

/// The byte a one- or two-digit hex numeral denotes, after an optional
/// leading plus sign, as `u8::from_str_radix` reads it.
pub open spec fn spec_hex_byte(sub: Seq<char>) -> Option<u8> {
    let body = if sub.len() > 0 && sub[0] == '+' {
        sub.subrange(1, sub.len() as int)
    } else {
        sub
    };
    if body.len() == 1 {
        match spec_hex_digit(body[0]) {
            Some(d) => Some(d as u8),
            None => None,
        }
    } else if body.len() == 2 {
        match (spec_hex_digit(body[0]), spec_hex_digit(body[1])) {
            (Some(d0), Some(d1)) => Some((d0 * 16 + d1) as u8),
            _ => None,
        }
    } else {
        None
    }
}

/// The bytes of a hex string read two digits at a time from position `i`,
/// unreadable pairs skipped.
pub open spec fn spec_hex_bytes(h: Seq<char>, i: int) -> Seq<u8>
    decreases h.len() + 2 - i,
    when 0 <= i
{
    if i >= h.len() {
        Seq::empty()
    } else {
        let end = if i + 2 <= h.len() {
            i + 2
        } else {
            h.len() as int
        };
        let here: Seq<u8> = match spec_hex_byte(h.subrange(i, end)) {
            Some(b) => seq![b],
            None => Seq::empty(),
        };
        here + spec_hex_bytes(h, i + 2)
    }
}

fn hex_digit(c: char) -> (r: Option<u8>)
    ensures
        match r {
            Some(d) => spec_hex_digit(c) == Some(d as int),
            None => spec_hex_digit(c) is None,
        },
{
    if '0' <= c && c <= '9' {
        Some(((c as u32) - 48) as u8)
    } else if 'a' <= c && c <= 'f' {
        Some(((c as u32) - 97 + 10) as u8)
    } else if 'A' <= c && c <= 'F' {
        Some(((c as u32) - 65 + 10) as u8)
    } else {
        None
    }
}

fn hex_byte_of(s: &str, i: usize, end: usize) -> (r: Option<u8>)
    requires
        i < end <= s@.len(),
        end <= i + 2,
    ensures
        match r {
            Some(b) => spec_hex_byte(s@.subrange(i as int, end as int)) == Some(b),
            None => spec_hex_byte(s@.subrange(i as int, end as int)) is None,
        },
{
    let ghost sub = s@.subrange(i as int, end as int);
    let c0 = s.get_char(i);
    let skip_plus = c0 == '+';
    let body_start = if skip_plus {
        i + 1
    } else {
        i
    };
    proof {
        if skip_plus {
            assert(sub[0] == '+');
            assert(sub.subrange(1, sub.len() as int) =~= s@.subrange(
                body_start as int,
                end as int,
            ));
        } else {
            assert(sub =~= s@.subrange(body_start as int, end as int));
        }
    }
    let blen = end - body_start;
    if blen == 1 {
        let d = hex_digit(s.get_char(body_start));
        proof {
            assert(s@.subrange(body_start as int, end as int)[0] == s@[body_start as int]);
        }
        match d {
            Some(v) => Some(v),
            None => None,
        }
    } else if blen == 2 {
        proof {
            assert(s@.subrange(body_start as int, end as int)[0] == s@[body_start as int]);
            assert(s@.subrange(body_start as int, end as int)[1] == s@[body_start as int + 1]);
        }
        let d0 = hex_digit(s.get_char(body_start));
        let d1 = hex_digit(s.get_char(body_start + 1));
        match (d0, d1) {
            (Some(a), Some(b)) => Some(a * 16 + b),
            _ => None,
        }
    } else {
        None
    }
}

/// Decodes a PDF hex string: spaces dropped, bytes read two digits at a
/// time (unreadable pairs skipped), the bytes then read as lossy UTF-8.
pub fn decode_hex_string(hex: &str) -> (r: Option<String>)
    ensures
        r matches Some(s) && s@ == utf8_lossy_of(
            spec_hex_bytes(spec_replace(hex@, seq![' '], Seq::empty()), 0),
        ),
{
    proof {
        reveal_strlit(" ");
        reveal_strlit("");
        assert(" "@ =~= seq![' ']);
        assert(""@ =~= Seq::<char>::empty());
    }
    let cleaned = replace_sub(hex, " ", "");
    let h = cleaned.as_str();
    let ghost hv = h@;
    let len = h.unicode_len();
    let mut bytes: Vec<u8> = Vec::new();
    let mut i: usize = 0;
    proof {
        assert(bytes@ + spec_hex_bytes(hv, 0) =~= spec_hex_bytes(hv, 0));
    }
    while i < len
        invariant
            hv == h@,
            len == hv.len(),
            i <= len,
            spec_hex_bytes(hv, 0) == bytes@ + spec_hex_bytes(hv, i as int),
        decreases len - i,
    {
        let ghost pre = bytes@;
        let end = if len - i >= 2 {
            i + 2
        } else {
            len
        };
        match hex_byte_of(h, i, end) {
            Some(b) => {
                bytes.push(b);
                proof {
                    assert(bytes@ =~= pre.push(b));
                    assert(pre.push(b) =~= pre + seq![b]);
                }
            },
            None => {},
        }
        proof {
            if len - i < 2 {
                assert(spec_hex_bytes(hv, i + 2) =~= Seq::<u8>::empty());
                assert(spec_hex_bytes(hv, len as int) =~= Seq::<u8>::empty());
            }
        }
        if len - i >= 2 {
            i += 2;
        } else {
            i = len;
        }
    }
    proof {
        assert(spec_hex_bytes(hv, i as int) =~= Seq::<u8>::empty());
        assert(bytes@ + Seq::<u8>::empty() =~= bytes@);
    }
    Some(utf8_lossy(bytes.as_slice()))
}

} // verus!

verus! {

/// The text a `Tj` operator line shows: the unescaped literal between the
/// opening parenthesis and the last `) Tj`, or the decoded hex string
/// between the opening angle and the last `> Tj`, after trimming.
pub open spec fn spec_tj_text(line: Seq<char>) -> Option<Seq<char>> {
    let t = spec_trim(line);
    if t.len() > 0 && t[0] == '(' {
        match crate::strings::spec_rfind(t, ") Tj"@) {
            Some(end) => Some(spec_unescaped(t.subrange(1, end), 0)),
            None => None,
        }
    } else if t.len() > 0 && t[0] == '<' {
        match crate::strings::spec_rfind(t, "> Tj"@) {
            Some(end) => Some(
                utf8_lossy_of(
                    spec_hex_bytes(
                        spec_replace(t.subrange(1, end), seq![' '], Seq::empty()),
                        0,
                    ),
                ),
            ),
            None => None,
        }
    } else {
        None
    }
}

/// Extracts the shown text of a `Tj` operator line.
pub fn extract_pdf_string(line: &str) -> (r: Option<String>)
    ensures
        match r {
            Some(s) => spec_tj_text(line@) == Some(s@),
            None => spec_tj_text(line@) is None,
        },
{
    let trimmed = trim_str(line);
    let t = trimmed.as_str();
    let tl = t.unicode_len();
    if tl > 0 && t.get_char(0) == '(' {
        match crate::strings::rfind_sub(t, ") Tj") {
            Some(end) => {
                proof {
                    reveal_strlit(") Tj");
                    crate::strings::lemma_rfind_is_match(
                        t@,
                        ") Tj"@,
                        t@.len() - ") Tj"@.len(),
                        end as int,
                    );
                    assert(crate::strings::match_at(t@, ") Tj"@, end as int));
                    assert(t@[end as int] == ") Tj"@[0]);
                    assert(t@[end as int] == ')');
                    assert(end >= 1);
                }
                let inner = t.substring_char(1, end);
                Some(unescape_pdf_string(inner))
            },
            None => None,
        }
    } else if tl > 0 && t.get_char(0) == '<' {
        match crate::strings::rfind_sub(t, "> Tj") {
            Some(end) => {
                proof {
                    reveal_strlit("> Tj");
                    crate::strings::lemma_rfind_is_match(
                        t@,
                        "> Tj"@,
                        t@.len() - "> Tj"@.len(),
                        end as int,
                    );
                    assert(crate::strings::match_at(t@, "> Tj"@, end as int));
                    assert(t@[end as int] == "> Tj"@[0]);
                    assert(t@[end as int] == '>');
                    assert(end >= 1);
                }
                let inner = t.substring_char(1, end);
                decode_hex_string(inner)
            },
            None => None,
        }
    } else {
        None
    }
}

/// The text a `TJ` text-array line shows, folded from position `i` with the
/// scanner's state: inside or outside a string, reading hex or a literal,
/// the characters gathered so far, and the text already shown.
pub open spec fn spec_tj_fold(
    s: Seq<char>,
    i: int,
    in_string: bool,
    is_hex: bool,
    cur: Seq<char>,
    acc: Seq<char>,
) -> Seq<char>
    decreases s.len() - i,
    when 0 <= i
{
    if i >= s.len() {
        acc
    } else {
        let ch = s[i];
        if !in_string {
            if ch == '(' {
                spec_tj_fold(s, i + 1, true, false, Seq::empty(), acc)
            } else if ch == '<' {
                spec_tj_fold(s, i + 1, true, true, Seq::empty(), acc)
            } else {
                spec_tj_fold(s, i + 1, false, is_hex, cur, acc)
            }
        } else {
            if !is_hex && ch == ')' {
                spec_tj_fold(s, i + 1, false, is_hex, cur, acc + spec_unescaped(cur, 0))
            } else if is_hex && ch == '>' {
                spec_tj_fold(
                    s,
                    i + 1,
                    false,
                    is_hex,
                    cur,
                    acc + utf8_lossy_of(
                        spec_hex_bytes(spec_replace(cur, seq![' '], Seq::empty()), 0),
                    ),
                )
            } else {
                spec_tj_fold(s, i + 1, true, is_hex, cur.push(ch), acc)
            }
        }
    }
}

/// The text a `TJ` text-array line shows: the concatenation of its literal
/// and hex strings, or nothing for a line that is no array or shows nothing.
pub open spec fn spec_tj_array_text(line: Seq<char>) -> Option<Seq<char>> {
    let t = spec_trim(line);
    if t.len() > 0 && t[0] == '[' {
        let out = spec_tj_fold(t, 0, false, false, Seq::empty(), Seq::empty());
        if out.len() == 0 {
            None
        } else {
            Some(out)
        }
    } else {
        None
    }
}

/// Extracts the shown text of a `TJ` text-array line.
pub fn extract_pdf_text_array(line: &str) -> (r: Option<String>)
    ensures
        match r {
            Some(s) => spec_tj_array_text(line@) == Some(s@),
            None => spec_tj_array_text(line@) is None,
        },
{
    let trimmed = trim_str(line);
    let t = trimmed.as_str();
    let tl = t.unicode_len();
    if !(tl > 0 && t.get_char(0) == '[') {
        return None;
    }
    let mut in_string = false;
    let mut is_hex = false;
    let mut cur = String::new();
    let mut acc = String::new();
    let mut i: usize = 0;
    while i < tl
        invariant
            tl == t@.len(),
            i <= tl,
            spec_tj_fold(t@, 0, false, false, Seq::empty(), Seq::empty()) == spec_tj_fold(
                t@,
                i as int,
                in_string,
                is_hex,
                cur@,
                acc@,
            ),
        decreases tl - i,
    {
        let ch = t.get_char(i);
        if !in_string {
            if ch == '(' {
                in_string = true;
                is_hex = false;
                cur = String::new();
            } else if ch == '<' {
                in_string = true;
                is_hex = true;
                cur = String::new();
            }
        } else {
            if !is_hex && ch == ')' {
                let shown = unescape_pdf_string(cur.as_str());
                acc.append(shown.as_str());
                in_string = false;
            } else if is_hex && ch == '>' {
                match decode_hex_string(cur.as_str()) {
                    Some(decoded) => {
                        acc.append(decoded.as_str());
                    },
                    None => {},
                }
                in_string = false;
            } else {
                cur.push(ch);
            }
        }
        i += 1;
    }
    if acc.as_str().unicode_len() == 0 {
        None
    } else {
        Some(acc)
    }
}

/// A PDF held in memory, validated to start with the `%PDF-` signature.
pub struct PdfParser {
    pub data: Vec<u8>,
}

/// The `%PDF-` signature bytes.
pub open spec fn spec_pdf_magic() -> Seq<u8> {
    seq![0x25u8, 0x50u8, 0x44u8, 0x46u8, 0x2Du8]
}

impl PdfParser {
    /// Accepts a document's bytes where they begin with the `%PDF-`
    /// signature, and rejects anything else.
    pub fn from_bytes(data: Vec<u8>) -> (r: Result<Self, PdfError>)
        ensures
            match r {
                Ok(p) => data@.len() >= 5 && data@.subrange(0, 5) == spec_pdf_magic() && p.data@
                    == data@,
                Err(e) => !(data@.len() >= 5 && data@.subrange(0, 5) == spec_pdf_magic())
                    && spec_pdf_error_message(e) == "PDF parsing error: Not a valid PDF file"@,
            },
    {
        if data.len() < 5 {
            proof {
                reveal_strlit("PDF parsing error: ");
                reveal_strlit("Not a valid PDF file");
                reveal_strlit("PDF parsing error: Not a valid PDF file");
                assert("PDF parsing error: "@ + "Not a valid PDF file"@
                    =~= "PDF parsing error: Not a valid PDF file"@);
            }
            return Err(PdfError::ParseError(String::from_str("Not a valid PDF file")));
        }
        let ok = crate::byteops::byte_at(&data, 0) == 0x25 && crate::byteops::byte_at(&data, 1)
            == 0x50 && crate::byteops::byte_at(&data, 2) == 0x44 && crate::byteops::byte_at(
            &data,
            3,
        ) == 0x46 && crate::byteops::byte_at(&data, 4) == 0x2D;
        if ok {
            proof {
                assert(data@.subrange(0, 5) =~= spec_pdf_magic());
            }
            Ok(PdfParser { data })
        } else {
            proof {
                if data@.subrange(0, 5) == spec_pdf_magic() {
                    assert(data@[0] == 0x25 && data@[1] == 0x50 && data@[2] == 0x44 && data@[3]
                        == 0x46 && data@[4] == 0x2D) by {
                        assert(data@.subrange(0, 5)[0] == data@[0]);
                        assert(data@.subrange(0, 5)[1] == data@[1]);
                        assert(data@.subrange(0, 5)[2] == data@[2]);
                        assert(data@.subrange(0, 5)[3] == data@[3]);
                        assert(data@.subrange(0, 5)[4] == data@[4]);
                    }
                }
                reveal_strlit("PDF parsing error: ");
                reveal_strlit("Not a valid PDF file");
                reveal_strlit("PDF parsing error: Not a valid PDF file");
                assert("PDF parsing error: "@ + "Not a valid PDF file"@
                    =~= "PDF parsing error: Not a valid PDF file"@);
            }
            Err(PdfError::ParseError(String::from_str("Not a valid PDF file")))
        }
    }
}

/// The index of the first line-break byte at or after `i`, or the length.
pub open spec fn first_break(b: Seq<u8>, i: int) -> int
    decreases b.len() - i,
    when 0 <= i
{
    if i >= b.len() {
        b.len() as int
    } else if b[i] == 0x0A || b[i] == 0x0D {
        i
    } else {
        first_break(b, i + 1)
    }
}

/// What UTF-8 decoding of the bytes yields where they are well formed.
pub uninterp spec fn utf8_of(b: Seq<u8>) -> Option<Seq<char>>;

/// Relies on std's `String::from_utf8`: decodes well-formed UTF-8 and
/// rejects anything else, a pure function of the bytes; ASCII bytes decode
/// to the characters with their values.
#[verifier::external_body]
fn utf8_to_string(v: Vec<u8>) -> (r: Option<String>)
    ensures
        match r {
            Some(s) => utf8_of(v@) == Some(s@) && ((forall|i: int|
                0 <= i < v@.len() ==> v@[i] < 0x80) ==> s@ == v@.map_values(
                |b: u8| crate::strings::char_from_val(b as u32),
            )),
            None => utf8_of(v@) is None && !(forall|i: int|
                0 <= i < v@.len() ==> v@[i] < 0x80),
        },
{
    match String::from_utf8(v) {
        Ok(s) => Some(s),
        Err(_) => None,
    }
}

/// The version named in the document header: the first line decoded as
/// UTF-8, its `%PDF-` marker removed and the rest trimmed; a document with
/// no line break or an undecodable first line reports `Unknown`.
pub open spec fn spec_pdf_version(b: Seq<u8>) -> Seq<char> {
    let pos = first_break(b, 0);
    if pos < b.len() {
        match utf8_of(b.subrange(0, pos)) {
            Some(s) => spec_trim(spec_replace(s, "%PDF-"@, Seq::empty())),
            None => "Unknown"@,
        }
    } else {
        "Unknown"@
    }
}

impl PdfParser {
    /// The version the document header names.
    pub fn extract_version(&self) -> (r: String)
        ensures
            r@ == spec_pdf_version(self.data@),
    {
        let len = self.data.len();
        let mut pos: usize = 0;
        while pos < len && self.data[pos] != 0x0A && self.data[pos] != 0x0D
            invariant
                len == self.data@.len(),
                pos <= len,
                first_break(self.data@, 0) == first_break(self.data@, pos as int),
            decreases len - pos,
        {
            pos += 1;
        }
        if pos >= len {
            proof {
                reveal_strlit("Unknown");
            }
            return String::from_str("Unknown");
        }
        let prefix = crate::byteops::copy_range(self.data.as_slice(), 0, pos);
        match utf8_to_string(prefix) {
            Some(header) => {
                proof {
                    reveal_strlit("%PDF-");
                    reveal_strlit("");
                    assert(""@ =~= Seq::<char>::empty());
                }
                let replaced = replace_sub(header.as_str(), "%PDF-", "");
                trim_str(replaced.as_str())
            },
            None => {
                proof {
                    reveal_strlit("Unknown");
                }
                String::from_str("Unknown")
            },
        }
    }
}

} // verus!

verus! {

/// The index of the first form-feed at or after `i`, or the length.
pub open spec fn first_ff(t: Seq<char>, i: int) -> int
    decreases t.len() - i,
    when 0 <= i
{
    if i >= t.len() {
        t.len() as int
    } else if t[i] == '\u{C}' {
        i
    } else {
        first_ff(t, i + 1)
    }
}

/// The text split at form feeds, empty segments kept.
pub open spec fn spec_split_ff(t: Seq<char>) -> Seq<Seq<char>>
    decreases t.len(),
{
    let i = first_ff(t, 0);
    if 0 <= i && i < t.len() {
        seq![t.subrange(0, i)] + spec_split_ff(t.skip(i + 1))
    } else {
        seq![t]
    }
}

/// The nonempty trimmed parts numbered from one.
pub open spec fn spec_numbered(parts: Seq<Seq<char>>, i: int) -> Seq<(usize, Seq<char>)>
    decreases parts.len() - i,
    when 0 <= i
{
    if i >= parts.len() {
        Seq::empty()
    } else {
        let tt = spec_trim(parts[i]);
        let here: Seq<(usize, Seq<char>)> = if tt.len() > 0 {
            seq![((i + 1) as usize, tt)]
        } else {
            Seq::empty()
        };
        here + spec_numbered(parts, i + 1)
    }
}

/// A group of lines joined back into one page text.
pub open spec fn spec_line_groups(groups: Seq<Seq<Seq<char>>>, i: int) -> Seq<Seq<char>>
    decreases groups.len() - i,
    when 0 <= i
{
    if i >= groups.len() {
        Seq::empty()
    } else {
        seq![spec_join(groups[i], seq!['\n'])] + spec_line_groups(groups, i + 1)
    }
}

/// The page texts of a document: split at form feeds where any appear, else
/// cut into equal runs of lines when several pages are expected, else one
/// page; every page trimmed and numbered, empty pages dropped.
pub open spec fn spec_pages_of(t: Seq<char>, page_count: int) -> Seq<(usize, Seq<char>)> {
    let parts = spec_split_ff(t);
    if parts.len() > 1 {
        spec_numbered(parts, 0)
    } else if page_count > 1 {
        let lines = spec_lines(t);
        let lpp: int = if lines.len() as int / page_count >= 1 {
            lines.len() as int / page_count
        } else {
            1
        };
        spec_numbered(spec_line_groups(crate::table::spec_chunks(lines, lpp), 0), 0)
    } else {
        spec_numbered(seq![t], 0)
    }
}

fn find_ff(s: &str, from: usize) -> (r: usize)
    requires
        from <= s@.len(),
    ensures
        r == first_ff(s@, from as int),
        from <= r <= s@.len(),
    decreases s@.len() - from,
{
    if from >= s.unicode_len() {
        s.unicode_len()
    } else if s.get_char(from) == '\u{C}' {
        from
    } else {
        find_ff(s, from + 1)
    }
}

proof fn lemma_first_ff_shift(s: Seq<char>, p: int, i: int)
    requires
        0 <= p <= s.len(),
        p <= i <= s.len(),
    ensures
        first_ff(s, i) - p == first_ff(s.skip(p), i - p),
    decreases s.len() - i,
{
    if i < s.len() {
        assert(s.skip(p)[i - p] == s[i]);
        if s[i] != '\u{C}' {
            lemma_first_ff_shift(s, p, i + 1);
        }
    }
}

fn split_ff(s: &str) -> (r: Vec<String>)
    ensures
        r@.map_values(|l: String| l@) == spec_split_ff(s@),
    decreases s@.len(),
{
    let len = s.unicode_len();
    let i = find_ff(s, 0);
    if i < len {
        let first = String::from_str(s.substring_char(0, i));
        let rest_str = s.substring_char(i + 1, len);
        proof {
            assert(rest_str@ =~= s@.skip(i + 1));
        }
        let rest = split_ff(rest_str);
        let mut out: Vec<String> = Vec::new();
        out.push(first);
        let mut k: usize = 0;
        let ghost base = out@.map_values(|l: String| l@);
        while k < rest.len()
            invariant
                k <= rest@.len(),
                out@.map_values(|l: String| l@) =~= base + rest@.map_values(
                    |l: String| l@,
                ).take(k as int),
            decreases rest@.len() - k,
        {
            let ghost po = out@.map_values(|l: String| l@);
            out.push(rest[k].clone());
            proof {
                assert(out@.map_values(|l: String| l@) =~= po.push(rest@[k as int]@));
                assert(rest@.map_values(|l: String| l@).take(k + 1) =~= rest@.map_values(
                    |l: String| l@,
                ).take(k as int).push(rest@[k as int]@));
            }
            k += 1;
        }
        proof {
            assert(rest@.map_values(|l: String| l@).take(rest@.len() as int) =~= rest@.map_values(
                |l: String| l@,
            ));
            assert(out@.map_values(|l: String| l@) =~= spec_split_ff(s@));
        }
        out
    } else {
        let mut out: Vec<String> = Vec::new();
        out.push(String::from_str(s));
        proof {
            assert(out@.map_values(|l: String| l@) =~= seq![s@]);
        }
        out
    }
}

fn numbered_pages(parts: &Vec<String>, i: usize) -> (r: Vec<PageContent>)
    requires
        i <= parts@.len(),
    ensures
        r@.map_values(|p: PageContent| (p.page_number, p.text@)) == spec_numbered(
            parts@.map_values(|l: String| l@),
            i as int,
        ),
    decreases parts@.len() - i,
{
    let ghost pv = parts@.map_values(|l: String| l@);
    if i >= parts.len() {
        let r: Vec<PageContent> = Vec::new();
        proof {
            assert(r@.map_values(|p: PageContent| (p.page_number, p.text@)) =~= spec_numbered(
                pv,
                i as int,
            ));
        }
        r
    } else {
        let tt = trim_str(parts[i].as_str());
        let rest = numbered_pages(parts, i + 1);
        if tt.as_str().unicode_len() > 0 {
            let page = PageContent { page_number: i + 1, text: tt };
            let mut out: Vec<PageContent> = Vec::new();
            out.push(page);
            let mut k: usize = 0;
            let ghost base = out@.map_values(|p: PageContent| (p.page_number, p.text@));
            while k < rest.len()
                invariant
                    k <= rest@.len(),
                    out@.map_values(|p: PageContent| (p.page_number, p.text@)) =~= base
                        + rest@.map_values(|p: PageContent| (p.page_number, p.text@)).take(k as int),
                decreases rest@.len() - k,
            {
                let ghost po = out@.map_values(|p: PageContent| (p.page_number, p.text@));
                let copied = PageContent {
                    page_number: rest[k].page_number,
                    text: rest[k].text.clone(),
                };
                out.push(copied);
                proof {
                    assert(out@.map_values(|p: PageContent| (p.page_number, p.text@)) =~= po.push(
                        (rest@[k as int].page_number, rest@[k as int].text@),
                    ));
                    assert(rest@.map_values(|p: PageContent| (p.page_number, p.text@)).take(k + 1)
                        =~= rest@.map_values(|p: PageContent| (p.page_number, p.text@)).take(
                        k as int,
                    ).push((rest@[k as int].page_number, rest@[k as int].text@)));
                }
                k += 1;
            }
            proof {
                assert(rest@.map_values(|p: PageContent| (p.page_number, p.text@)).take(
                    rest@.len() as int,
                ) =~= rest@.map_values(|p: PageContent| (p.page_number, p.text@)));
                assert(out@.map_values(|p: PageContent| (p.page_number, p.text@)) =~= spec_numbered(
                    pv,
                    i as int,
                ));
            }
            out
        } else {
            proof {
                assert(rest@.map_values(|p: PageContent| (p.page_number, p.text@)) =~= spec_numbered(
                    pv,
                    i as int,
                ));
            }
            rest
        }
    }
}

impl PdfParser {
    /// Splits extracted text into pages: at form feeds where the text holds
    /// any, else into equal runs of lines when several pages are expected;
    /// pages are trimmed, numbered from one, and dropped when empty.
    pub fn split_into_pages(&self, text: &str, page_count: usize) -> (r: Vec<PageContent>)
        ensures
            r@.map_values(|p: PageContent| (p.page_number, p.text@)) == spec_pages_of(
                text@,
                page_count as int,
            ),
    {
        let parts = split_ff(text);
        if parts.len() > 1 {
            numbered_pages(&parts, 0)
        } else if page_count > 1 {
            let lines = split_lines(text);
            let quot = lines.len() / page_count;
            let lpp: usize = if quot >= 1 {
                quot
            } else {
                1
            };
            let groups = crate::table::organize_cells(&lines, lpp);
            let mut joined: Vec<String> = Vec::new();
            let mut k: usize = 0;
            proof {
                assert(crate::table::grid_view(groups@) == crate::table::spec_chunks(
                    lines@.map_values(|l: String| l@),
                    lpp as int,
                ));
                assert(joined@.map_values(|l: String| l@) =~= spec_line_groups(
                    crate::table::grid_view(groups@),
                    0,
                ).take(0));
            }
            while k < groups.len()
                invariant
                    k <= groups@.len(),
                    crate::table::grid_view(groups@) == crate::table::spec_chunks(
                        lines@.map_values(|l: String| l@),
                        lpp as int,
                    ),
                    joined@.map_values(|l: String| l@) =~= spec_line_groups(
                        crate::table::grid_view(groups@),
                        0,
                    ).take(k as int),
                decreases groups@.len() - k,
            {
                let ghost pj = joined@.map_values(|l: String| l@);
                let j = crate::strings::join_strings(&groups[k], "\n");
                joined.push(j);
                proof {
                    reveal_strlit("\n");
                    assert("\n"@ =~= seq!['\n']);
                    lemma_line_groups_index(crate::table::grid_view(groups@), k as int);
                    assert(crate::table::grid_view(groups@)[k as int]
                        == crate::table::strs_view(groups@[k as int]@));
                    assert(joined@.map_values(|l: String| l@) =~= pj.push(
                        spec_join(crate::table::grid_view(groups@)[k as int], seq!['\n']),
                    ));
                    assert(spec_line_groups(crate::table::grid_view(groups@), 0).take(k + 1)
                        =~= spec_line_groups(crate::table::grid_view(groups@), 0).take(
                        k as int,
                    ).push(spec_line_groups(crate::table::grid_view(groups@), 0)[k as int]));
                }
                k += 1;
            }
            proof {
                assert(spec_line_groups(crate::table::grid_view(groups@), 0).take(
                    groups@.len() as int,
                ) =~= spec_line_groups(crate::table::grid_view(groups@), 0)) by {
                    lemma_line_groups_len(crate::table::grid_view(groups@), 0);
                }
            }
            numbered_pages(&joined, 0)
        } else {
            let mut single: Vec<String> = Vec::new();
            single.push(String::from_str(text));
            proof {
                assert(single@.map_values(|l: String| l@) =~= seq![text@]);
            }
            numbered_pages(&single, 0)
        }
    }
}

proof fn lemma_line_groups_len(groups: Seq<Seq<Seq<char>>>, i: int)
    requires
        0 <= i <= groups.len(),
    ensures
        spec_line_groups(groups, i).len() == groups.len() - i,
    decreases groups.len() - i,
{
    if i < groups.len() {
        lemma_line_groups_len(groups, i + 1);
    }
}

proof fn lemma_line_groups_index(groups: Seq<Seq<Seq<char>>>, k: int)
    requires
        0 <= k < groups.len(),
    ensures
        spec_line_groups(groups, 0).len() == groups.len(),
        spec_line_groups(groups, 0)[k] == spec_join(groups[k], seq!['\n']),
{
    lemma_line_groups_len(groups, 0);
    lemma_line_groups_index_from(groups, 0, k);
}

proof fn lemma_line_groups_index_from(groups: Seq<Seq<Seq<char>>>, i: int, k: int)
    requires
        0 <= i <= k < groups.len(),
    ensures
        spec_line_groups(groups, i)[k - i] == spec_join(groups[k], seq!['\n']),
    decreases k - i,
{
    lemma_line_groups_len(groups, i + 1);
    if i < k {
        lemma_line_groups_index_from(groups, i + 1, k);
    }
}

} // verus!

verus! {

/// One markdown table line: the row's cells joined by delimiters.
pub open spec fn spec_pt_line(row: Seq<Seq<char>>) -> Seq<char> {
    seq!['|', ' '] + spec_join(row, seq![' ', '|', ' ']) + seq![' ', '|', '\n']
}

/// The separator line under the header: one dashed cell per column.
pub open spec fn spec_pt_sep(n: int) -> Seq<char>
    decreases n,
    when n >= 0
{
    if n <= 0 {
        Seq::empty()
    } else {
        seq![' ', '-', '-', '-', ' ', '|'] + spec_pt_sep(n - 1)
    }
}

/// The data lines of the table from row `i` on.
pub open spec fn spec_pt_rows(rows: Seq<Vec<String>>, i: int) -> Seq<char>
    decreases rows.len() - i,
    when 0 <= i
{
    if i >= rows.len() {
        Seq::empty()
    } else {
        spec_pt_line(crate::table::strs_view(rows[i]@)) + spec_pt_rows(rows, i + 1)
    }
}

/// The markdown of a detected table: a header line, a separator sized to the
/// column count, then the data rows; a table without rows renders empty.
pub open spec fn spec_pt_md(rows: Seq<Vec<String>>, column_count: int) -> Seq<char> {
    if rows.len() == 0 {
        Seq::empty()
    } else {
        spec_pt_line(crate::table::strs_view(rows[0]@)) + seq!['|'] + spec_pt_sep(column_count)
            + seq!['\n'] + spec_pt_rows(rows, 1)
    }
}

fn pt_sep(n: usize) -> (r: String)
    ensures
        r@ == spec_pt_sep(n as int),
    decreases n,
{
    if n == 0 {
        String::new()
    } else {
        let mut out = String::from_str(" --- |");
        let rest = pt_sep(n - 1);
        out.append(rest.as_str());
        proof {
            reveal_strlit(" --- |");
            assert(" --- |"@ =~= seq![' ', '-', '-', '-', ' ', '|']);
            assert(out@ =~= spec_pt_sep(n as int));
        }
        out
    }
}

fn pt_line(row: &Vec<String>) -> (r: String)
    ensures
        r@ == spec_pt_line(crate::table::strs_view(row@)),
{
    proof {
        reveal_strlit("| ");
        reveal_strlit(" | ");
        reveal_strlit(" |\n");
        assert("| "@ =~= seq!['|', ' ']);
        assert(" | "@ =~= seq![' ', '|', ' ']);
        assert(" |\n"@ =~= seq![' ', '|', '\n']);
        assert(crate::table::strs_view(row@) == row@.map_values(|x: String| x@));
    }
    let mut out = String::from_str("| ");
    let joined = crate::strings::join_strings(row, " | ");
    out.append(joined.as_str());
    out.append(" |\n");
    out
}

fn pt_rows(rows: &Vec<Vec<String>>, i: usize) -> (r: String)
    requires
        i <= rows@.len(),
    ensures
        r@ == spec_pt_rows(rows@, i as int),
    decreases rows@.len() - i,
{
    if i >= rows.len() {
        String::new()
    } else {
        let mut out = pt_line(&rows[i]);
        let rest = pt_rows(rows, i + 1);
        out.append(rest.as_str());
        out
    }
}

impl PdfTable {
    /// Renders the table as markdown: header, separator, then data rows.
    pub fn to_markdown(&self) -> (r: String)
        ensures
            r@ == spec_pt_md(self.rows@, self.column_count as int),
    {
        if self.rows.len() == 0 {
            return String::new();
        }
        let mut md = pt_line(&self.rows[0]);
        md.append("|");
        let sep = pt_sep(self.column_count);
        md.append(sep.as_str());
        md.append("\n");
        let body = pt_rows(&self.rows, 1);
        md.append(body.as_str());
        proof {
            reveal_strlit("|");
            reveal_strlit("\n");
            assert("|"@ =~= seq!['|']);
            assert("\n"@ =~= seq!['\n']);
            assert(md@ =~= spec_pt_md(self.rows@, self.column_count as int));
        }
        md
    }
}

/// A parsed document, ready for rendering.
#[derive(Debug)]
pub struct PdfDocument {
    pub version: String,
    pub page_count: usize,
    pub pages: Vec<PageContent>,
    pub metadata: PdfMetadata,
    pub images: Vec<PdfImage>,
    pub fonts: Vec<PdfFont>,
    pub tables: Vec<PdfTable>,
}

/// The page bodies of the MDX output from page `i` on: each page's text and
/// a blank line, under a page marker when the document has several pages.
pub open spec fn spec_px_pages(ps: Seq<PageContent>, i: int, page_count: int) -> Seq<char>
    decreases ps.len() - i,
    when 0 <= i
{
    if i >= ps.len() {
        Seq::empty()
    } else {
        let marker: Seq<char> = if page_count > 1 {
            "<!-- Page "@ + spec_dec(ps[i].page_number as int) + " -->\n\n"@
        } else {
            Seq::empty()
        };
        marker + ps[i].text@ + "\n\n"@ + spec_px_pages(ps, i + 1, page_count)
    }
}

/// The image listing from image `i` on.
pub open spec fn spec_px_images(imgs: Seq<PdfImage>, i: int) -> Seq<char>
    decreases imgs.len() - i,
    when 0 <= i
{
    if i >= imgs.len() {
        Seq::empty()
    } else {
        "- "@ + imgs[i].id@ + seq!['.'] + (match imgs[i].format {
            ImageFormat::Jpeg => "jpg"@,
            ImageFormat::Png => "png"@,
            ImageFormat::Raw => "raw"@,
        }) + " ("@ + spec_dec(imgs[i].width as int) + seq!['x'] + spec_dec(imgs[i].height as int)
            + ", "@ + spec_ext_upper(imgs[i].format) + ")\n"@ + spec_px_images(imgs, i + 1)
    }
}

/// The styled-font listing from font `i` on: only fonts judged bold or
/// italic appear, each with its style name.
pub open spec fn spec_px_fonts(fs: Seq<PdfFont>, i: int) -> Seq<char>
    decreases fs.len() - i,
    when 0 <= i
{
    if i >= fs.len() {
        Seq::empty()
    } else {
        let style: Seq<char> = if fs[i].is_bold && fs[i].is_italic {
            "Bold Italic"@
        } else if fs[i].is_bold {
            "Bold"@
        } else if fs[i].is_italic {
            "Italic"@
        } else {
            "Regular"@
        };
        let here: Seq<char> = if fs[i].is_bold || fs[i].is_italic {
            "- "@ + fs[i].base_font@ + " ("@ + style + ")\n"@
        } else {
            Seq::empty()
        };
        here + spec_px_fonts(fs, i + 1)
    }
}

/// Whether any font in the list is styled.
pub open spec fn spec_any_styled(fs: Seq<PdfFont>, i: int) -> bool
    decreases fs.len() - i,
    when 0 <= i
{
    if i >= fs.len() {
        false
    } else {
        fs[i].is_bold || fs[i].is_italic || spec_any_styled(fs, i + 1)
    }
}

/// The table section from table `i` on: each table's markdown, under a
/// numbered heading when there are several tables.
pub open spec fn spec_px_tables(ts: Seq<PdfTable>, i: int, total: int) -> Seq<char>
    decreases ts.len() - i,
    when 0 <= i
{
    if i >= ts.len() {
        Seq::empty()
    } else {
        let heading: Seq<char> = if total > 1 {
            "### Table "@ + spec_dec(i + 1) + " (Page "@ + spec_dec(ts[i].page as int) + ")\n\n"@
        } else {
            Seq::empty()
        };
        heading + spec_pt_md(ts[i].rows@, ts[i].column_count as int) + seq!['\n'] + spec_px_tables(
            ts,
            i + 1,
            total,
        )
    }
}

/// The MDX front matter of a document.
pub open spec fn spec_px_front(d: &PdfDocument) -> Seq<char> {
    let title: Seq<char> = if d.metadata.title@.len() > 0 {
        "title: \""@ + spec_replace(d.metadata.title@, seq!['"'], seq!['\\', '"']) + "\"\n"@
    } else {
        Seq::empty()
    };
    let author: Seq<char> = if d.metadata.author@.len() > 0 {
        "author: \""@ + spec_replace(d.metadata.author@, seq!['"'], seq!['\\', '"']) + "\"\n"@
    } else {
        Seq::empty()
    };
    "---\n"@ + "format: pdf\n"@ + "version: \""@ + d.version@ + "\"\n"@ + "pages: "@ + spec_dec(
        d.page_count as int,
    ) + seq!['\n'] + "images: "@ + spec_dec(d.images@.len() as int) + seq!['\n'] + "fonts: "@
        + spec_dec(d.fonts@.len() as int) + seq!['\n'] + "tables: "@ + spec_dec(
        d.tables@.len() as int,
    ) + seq!['\n'] + title + author + "---\n\n"@
}

/// The whole MDX rendering: front matter, pages, then the image, font and
/// table sections where they have content.
pub open spec fn spec_px_mdx(d: &PdfDocument) -> Seq<char> {
    let imgs: Seq<char> = if d.images@.len() > 0 {
        "## Images\n\n"@ + spec_px_images(d.images@, 0) + seq!['\n']
    } else {
        Seq::empty()
    };
    let fonts: Seq<char> = if spec_any_styled(d.fonts@, 0) {
        "## Font Styles\n\n"@ + spec_px_fonts(d.fonts@, 0) + seq!['\n']
    } else {
        Seq::empty()
    };
    let tables: Seq<char> = if d.tables@.len() > 0 {
        "## Tables\n\n"@ + spec_px_tables(d.tables@, 0, d.tables@.len() as int)
    } else {
        Seq::empty()
    };
    spec_px_front(d) + spec_px_pages(d.pages@, 0, d.page_count as int) + imgs + fonts + tables
}

fn px_pages(ps: &Vec<PageContent>, i: usize, page_count: usize) -> (r: String)
    requires
        i <= ps@.len(),
    ensures
        r@ == spec_px_pages(ps@, i as int, page_count as int),
    decreases ps@.len() - i,
{
    if i >= ps.len() {
        String::new()
    } else {
        let mut out = String::new();
        if page_count > 1 {
            out.append("<!-- Page ");
            push_dec(&mut out, ps[i].page_number as u64);
            out.append(" -->\n\n");
        }
        out.append(ps[i].text.as_str());
        out.append("\n\n");
        let rest = px_pages(ps, i + 1, page_count);
        out.append(rest.as_str());
        proof {
            reveal_strlit("<!-- Page ");
            reveal_strlit(" -->\n\n");
            reveal_strlit("\n\n");
            assert(out@ =~= spec_px_pages(ps@, i as int, page_count as int));
        }
        out
    }
}

fn px_images(imgs: &Vec<PdfImage>, i: usize) -> (r: String)
    requires
        i <= imgs@.len(),
    ensures
        r@ == spec_px_images(imgs@, i as int),
    decreases imgs@.len() - i,
{
    if i >= imgs.len() {
        String::new()
    } else {
        let mut out = String::from_str("- ");
        let fname = imgs[i].filename();
        out.append(fname.as_str());
        out.append(" (");
        push_dec(&mut out, imgs[i].width as u64);
        out.push('x');
        push_dec(&mut out, imgs[i].height as u64);
        out.append(", ");
        match imgs[i].format {
            ImageFormat::Jpeg => out.append("JPG"),
            ImageFormat::Png => out.append("PNG"),
            ImageFormat::Raw => out.append("RAW"),
        }
        out.append(")\n");
        let rest = px_images(imgs, i + 1);
        out.append(rest.as_str());
        proof {
            reveal_strlit("- ");
            reveal_strlit(" (");
            reveal_strlit(", ");
            reveal_strlit(")\n");
            reveal_strlit("JPG");
            reveal_strlit("PNG");
            reveal_strlit("RAW");
            assert(out@ =~= spec_px_images(imgs@, i as int));
        }
        out
    }
}

fn px_fonts(fs: &Vec<PdfFont>, i: usize) -> (r: String)
    requires
        i <= fs@.len(),
    ensures
        r@ == spec_px_fonts(fs@, i as int),
    decreases fs@.len() - i,
{
    if i >= fs.len() {
        String::new()
    } else {
        let mut out = String::new();
        if fs[i].is_bold || fs[i].is_italic {
            out.append("- ");
            out.append(fs[i].base_font.as_str());
            out.append(" (");
            if fs[i].is_bold && fs[i].is_italic {
                out.append("Bold Italic");
            } else if fs[i].is_bold {
                out.append("Bold");
            } else {
                out.append("Italic");
            }
            out.append(")\n");
        }
        let rest = px_fonts(fs, i + 1);
        out.append(rest.as_str());
        proof {
            reveal_strlit("- ");
            reveal_strlit(" (");
            reveal_strlit(")\n");
            reveal_strlit("Bold Italic");
            reveal_strlit("Bold");
            reveal_strlit("Italic");
            assert(out@ =~= spec_px_fonts(fs@, i as int));
        }
        out
    }
}

fn any_styled(fs: &Vec<PdfFont>, i: usize) -> (r: bool)
    requires
        i <= fs@.len(),
    ensures
        r == spec_any_styled(fs@, i as int),
    decreases fs@.len() - i,
{
    if i >= fs.len() {
        false
    } else if fs[i].is_bold || fs[i].is_italic {
        true
    } else {
        any_styled(fs, i + 1)
    }
}

fn px_tables(ts: &Vec<PdfTable>, i: usize, total: usize) -> (r: String)
    requires
        i <= ts@.len(),
    ensures
        r@ == spec_px_tables(ts@, i as int, total as int),
    decreases ts@.len() - i,
{
    if i >= ts.len() {
        String::new()
    } else {
        let mut out = String::new();
        if total > 1 {
            out.append("### Table ");
            push_dec(&mut out, (i as u64) + 1);
            out.append(" (Page ");
            push_dec(&mut out, ts[i].page as u64);
            out.append(")\n\n");
        }
        let md = ts[i].to_markdown();
        out.append(md.as_str());
        out.push('\n');
        let rest = px_tables(ts, i + 1, total);
        out.append(rest.as_str());
        proof {
            reveal_strlit("### Table ");
            reveal_strlit(" (Page ");
            reveal_strlit(")\n\n");
            assert(out@ =~= spec_px_tables(ts@, i as int, total as int));
        }
        out
    }
}

/// The page texts from `i` on.
pub open spec fn spec_page_texts(ps: Seq<PageContent>, i: int) -> Seq<Seq<char>>
    decreases ps.len() - i,
    when 0 <= i
{
    if i >= ps.len() {
        Seq::empty()
    } else {
        seq![ps[i].text@] + spec_page_texts(ps, i + 1)
    }
}

impl PdfDocument {
    /// Renders the document as MDX.
    #[verifier::rlimit(100)]
    pub fn to_mdx(&self) -> (r: String)
        ensures
            r@ == spec_px_mdx(self),
    {
        proof {
            reveal_strlit("---\n");
            reveal_strlit("format: pdf\n");
            reveal_strlit("version: \"");
            reveal_strlit("\"\n");
            reveal_strlit("pages: ");
            reveal_strlit("images: ");
            reveal_strlit("fonts: ");
            reveal_strlit("tables: ");
            reveal_strlit("title: \"");
            reveal_strlit("author: \"");
            reveal_strlit("---\n\n");
            reveal_strlit("## Images\n\n");
            reveal_strlit("## Font Styles\n\n");
            reveal_strlit("## Tables\n\n");
            reveal_strlit("\"");
            reveal_strlit("\\\"");
            assert("\""@ =~= seq!['"']);
            assert("\\\""@ =~= seq!['\\', '"']);
        }
        let mut mdx = String::from_str("---\n");
        mdx.append("format: pdf\n");
        mdx.append("version: \"");
        mdx.append(self.version.as_str());
        mdx.append("\"\n");
        mdx.append("pages: ");
        push_dec(&mut mdx, self.page_count as u64);
        mdx.push('\n');
        mdx.append("images: ");
        push_dec(&mut mdx, self.images.len() as u64);
        mdx.push('\n');
        mdx.append("fonts: ");
        push_dec(&mut mdx, self.fonts.len() as u64);
        mdx.push('\n');
        mdx.append("tables: ");
        push_dec(&mut mdx, self.tables.len() as u64);
        mdx.push('\n');
        if self.metadata.title.as_str().unicode_len() > 0 {
            mdx.append("title: \"");
            let q = replace_sub(self.metadata.title.as_str(), "\"", "\\\"");
            mdx.append(q.as_str());
            mdx.append("\"\n");
        }
        if self.metadata.author.as_str().unicode_len() > 0 {
            mdx.append("author: \"");
            let q = replace_sub(self.metadata.author.as_str(), "\"", "\\\"");
            mdx.append(q.as_str());
            mdx.append("\"\n");
        }
        mdx.append("---\n\n");
        proof {
            assert(mdx@ =~= spec_px_front(self));
        }
        let pages = px_pages(&self.pages, 0, self.page_count);
        mdx.append(pages.as_str());
        if self.images.len() > 0 {
            mdx.append("## Images\n\n");
            let imgs = px_images(&self.images, 0);
            mdx.append(imgs.as_str());
            mdx.push('\n');
        }
        if any_styled(&self.fonts, 0) {
            mdx.append("## Font Styles\n\n");
            let fonts = px_fonts(&self.fonts, 0);
            mdx.append(fonts.as_str());
            mdx.push('\n');
        }
        if self.tables.len() > 0 {
            mdx.append("## Tables\n\n");
            let tables = px_tables(&self.tables, 0, self.tables.len());
            mdx.append(tables.as_str());
        }
        proof {
            assert(mdx@ =~= spec_px_mdx(self));
        }
        mdx
    }

    /// The document's whole text: its pages joined by blank lines.
    pub fn full_text(&self) -> (r: String)
        ensures
            r@ == spec_join(spec_page_texts(self.pages@, 0), seq!['\n', '\n']),
    {
        let mut parts: Vec<String> = Vec::new();
        let mut i: usize = 0;
        proof {
            assert(parts@.map_values(|s: String| s@) + spec_page_texts(self.pages@, 0)
                =~= spec_page_texts(self.pages@, 0));
        }
        while i < self.pages.len()
            invariant
                i <= self.pages@.len(),
                spec_page_texts(self.pages@, 0) == parts@.map_values(|s: String| s@)
                    + spec_page_texts(self.pages@, i as int),
            decreases self.pages@.len() - i,
        {
            let ghost pre = parts@.map_values(|s: String| s@);
            parts.push(self.pages[i].text.clone());
            proof {
                assert(parts@.map_values(|s: String| s@) =~= pre.push(
                    self.pages@[i as int].text@,
                ));
            }
            i += 1;
        }
        proof {
            assert(spec_page_texts(self.pages@, i as int) =~= Seq::<Seq<char>>::empty());
            assert(parts@.map_values(|s: String| s@) + Seq::<Seq<char>>::empty()
                =~= parts@.map_values(|s: String| s@));
        }
        let joined = crate::strings::join_strings(&parts, "\n\n");
        proof {
            reveal_strlit("\n\n");
            assert("\n\n"@ =~= seq!['\n', '\n']);
        }
        joined
    }
}

} // verus!
