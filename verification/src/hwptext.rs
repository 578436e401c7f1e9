//! UTF-16LE paragraph text reconstruction and character-shape styling.
//!
//! A `PARA_TEXT` payload is a sequence of 16-bit code units. Tab, line and
//! paragraph breaks, spaces and hyphens map to fixed characters; control
//! codes are invisible, and a handful of inline controls consume a further
//! fourteen payload bytes; every other code unit maps directly to the
//! character with that scalar value (surrogate halves are dropped, one
//! logical position each — pairs outside the BMP are not reassembled).

use crate::byteops::{le16, le32, read_u16_le, read_u32_le};
use std::collections::HashMap;
use vstd::prelude::*;

verus! {

broadcast use vstd::std_specs::hash::group_hash_axioms;

pub const CHAR_LINE_BREAK: u16 = 0x0A;

pub const CHAR_PARA_BREAK: u16 = 0x0D;

pub const CHAR_TAB: u16 = 0x09;

pub const CHAR_HYPHEN: u16 = 0x1E;

pub const CHAR_SPACE: u16 = 0x20;

pub const CHAR_INLINE_CTRL_START: u16 = 0x01;

pub const CHAR_INLINE_CTRL_END: u16 = 0x02;

pub const CHAR_SECTION_DEF: u16 = 0x03;

pub const CHAR_FIELD_START: u16 = 0x04;

pub const CHAR_FIELD_END: u16 = 0x05;

pub const CHAR_BOOKMARK: u16 = 0x06;

pub const CHAR_TABLE: u16 = 0x0B;

pub const CHAR_DRAWING: u16 = 0x0C;

pub const CHAR_FOOTNOTE_ENDNOTE: u16 = 0x0E;

pub const CHAR_HIDDEN_COMMENT: u16 = 0x0F;

/// The inline controls whose code unit is followed by a fixed fourteen-byte
/// extension block.
pub open spec fn spec_skips_extension(code: u16) -> bool {
    code == 0x01 || code == 0x03 || code == 0x04 || code == 0x0B || code == 0x0C
}

/// The scalar value a code unit contributes to the text, or `None` for an
/// invisible control or an unpaired surrogate half.
pub open spec fn spec_code_out(code: u16) -> Option<u32> {
    if code == 0x09 {
        Some(0x09)
    } else if code == 0x0A || code == 0x0D {
        Some(0x0A)
    } else if code == 0x20 {
        Some(0x20)
    } else if code == 0x1E {
        Some(0x2D)
    } else if code <= 0x08 || (0x10 <= code && code <= 0x1F) || code == 0x0B || code == 0x0C {
        None
    } else if 0xD800 <= code && code < 0xE000 {
        None
    } else {
        Some(code as u32)
    }
}

/// How many payload bytes the code unit at `i` consumes.
pub open spec fn spec_next_off(code: u16) -> int {
    if spec_skips_extension(code) {
        16
    } else {
        2
    }
}

/// The scalar values of the text decoded from byte offset `i` to the end.
pub open spec fn spec_para_scalars(b: Seq<u8>, i: int) -> Seq<u32>
    decreases b.len() + 16 - i,
    when 0 <= i
{
    if i + 2 > b.len() {
        Seq::empty()
    } else {
        let code = le16(b, i);
        let rest = spec_para_scalars(b, i + spec_next_off(code));
        match spec_code_out(code) {
            Some(v) => seq![v] + rest,
            None => rest,
        }
    }
}

/// The `(logical position, scalar value)` pairs of the text decoded from
/// byte offset `i` on, the position starting at `p` and growing by one per
/// code unit whether or not it is visible.
pub open spec fn spec_para_pos_scalars(b: Seq<u8>, i: int, p: int) -> Seq<(u32, u32)>
    decreases b.len() + 16 - i,
    when 0 <= i
{
    if i + 2 > b.len() {
        Seq::empty()
    } else {
        let code = le16(b, i);
        let rest = spec_para_pos_scalars(b, i + spec_next_off(code), p + 1);
        match spec_code_out(code) {
            Some(v) => seq![(p as u32, v)] + rest,
            None => rest,
        }
    }
}

/// The scalar values of the characters of `s`.
pub open spec fn scalars_of(s: Seq<char>) -> Seq<u32> {
    s.map_values(|c: char| c as u32)
}

/// The character sequence whose scalar values are `sc`. Characters and
/// scalar values correspond one to one, so this pins the sequence whenever
/// every value in `sc` is a valid scalar.
pub open spec fn chars_of_scalars(sc: Seq<u32>) -> Seq<char> {
    choose|s: Seq<char>| (#[trigger] scalars_of(s)) == sc
}

/// The plain text decoded from a `PARA_TEXT` payload.
pub open spec fn spec_para_chars(b: Seq<u8>) -> Seq<char> {
    chars_of_scalars(spec_para_scalars(b, 0))
}

/// Two character sequences with the same scalar values are equal.
pub proof fn lemma_chars_unique(a: Seq<char>, b: Seq<char>)
    requires
        a.map_values(|c: char| c as u32) == b.map_values(|c: char| c as u32),
    ensures
        a == b,
{
    assert(a.map_values(|c: char| c as u32).len() == a.len());
    assert(b.map_values(|c: char| c as u32).len() == b.len());
    assert forall|i: int| 0 <= i < a.len() implies a[i] == b[i] by {
        assert(a.map_values(|c: char| c as u32)[i] == a[i] as u32);
        assert(b.map_values(|c: char| c as u32)[i] == b[i] as u32);
        char_scalar_inj(a[i], b[i]);
    }
    assert(a =~= b);
}

/// A character is determined by its scalar value.
proof fn char_scalar_inj(c1: char, c2: char)
    requires
        c1 as u32 == c2 as u32,
    ensures
        c1 == c2,
{
}

/// A sequence whose scalars match `spec_para_scalars` equals `spec_para_chars`.
pub proof fn lemma_para_chars_pinned(b: Seq<u8>, s: Seq<char>)
    requires
        s.map_values(|c: char| c as u32) == spec_para_scalars(b, 0),
    ensures
        spec_para_chars(b) == s,
{
    assert(exists|t: Seq<char>| (#[trigger] scalars_of(t)) == spec_para_scalars(b, 0)) by {
        assert(scalars_of(s) == spec_para_scalars(b, 0));
    }
    lemma_chars_unique(chars_of_scalars(spec_para_scalars(b, 0)), s);
}

/// Decodes a `PARA_TEXT` payload into plain text.
pub fn extract_para_text(data: &[u8]) -> (r: String)
    requires
        data@.len() <= 0xFFFF_FFFF,
    ensures
        r@.map_values(|c: char| c as u32) == spec_para_scalars(data@, 0),
        r@ == spec_para_chars(data@),
{
    let len = data.len();
    let mut out = String::new();
    let mut i: usize = 0;
    proof {
        assert(out@.map_values(|c: char| c as u32) + spec_para_scalars(data@, 0)
            =~= spec_para_scalars(data@, 0));
    }
    while i < len && len - i >= 2
        invariant
            len == data@.len(),
            len <= 0xFFFF_FFFF,
            i <= len,
            spec_para_scalars(data@, 0) == out@.map_values(|c: char| c as u32)
                + spec_para_scalars(data@, i as int),
        decreases len - i,
    {
        let ghost pre = out@.map_values(|c: char| c as u32);
        let code = read_u16_le(data, i);
        let skip_ext = code == CHAR_INLINE_CTRL_START || code == CHAR_SECTION_DEF || code
            == CHAR_FIELD_START || code == CHAR_TABLE || code == CHAR_DRAWING;
        if code == CHAR_TAB {
            out.push('\t');
        } else if code == CHAR_LINE_BREAK || code == CHAR_PARA_BREAK {
            out.push('\n');
        } else if code == CHAR_SPACE {
            out.push(' ');
        } else if code == CHAR_HYPHEN {
            out.push('-');
        } else if code <= 0x08 || (0x10 <= code && code <= 0x1F) || code == CHAR_TABLE || code
            == CHAR_DRAWING {
            // invisible control
        } else {
            match char::from_u32(code as u32) {
                Some(c) => out.push(c),
                None => (),
            }
        }
        proof {
            assert(out@.map_values(|c: char| c as u32) =~= match spec_code_out(code) {
                Some(v) => pre.push(v),
                None => pre,
            });
            if spec_code_out(code) is Some {
                assert(pre.push(spec_code_out(code)->0) =~= pre + seq![spec_code_out(code)->0]);
            }
        }
        if skip_ext {
            // The spec cursor moves 16 bytes on; clamping to the end decodes
            // the same (empty) remainder without overflowing.
            proof {
                if len - i < 16 {
                    assert(spec_para_scalars(data@, i + spec_next_off(code)) =~= Seq::<
                        u32,
                    >::empty());
                    assert(spec_para_scalars(data@, len as int) =~= Seq::<u32>::empty());
                }
            }
            if len - i >= 16 {
                i += 16;
            } else {
                i = len;
            }
        } else {
            i += 2;
        }
    }
    proof {
        assert(spec_para_scalars(data@, i as int) =~= Seq::<u32>::empty());
        assert(out@.map_values(|c: char| c as u32) + Seq::<u32>::empty() =~= out@.map_values(
            |c: char| c as u32,
        ));
        lemma_para_chars_pinned(data@, out@);
    }
    out
}

/// Decodes a `PARA_TEXT` payload into `(logical position, character)` pairs.
pub fn extract_para_text_with_positions(data: &[u8]) -> (r: Vec<(u32, char)>)
    requires
        data@.len() <= 0xFFFF_FFFF,
    ensures
        r@.map_values(|p: (u32, char)| (p.0, p.1 as u32)) == spec_para_pos_scalars(data@, 0, 0),
{
    let len = data.len();
    let mut out: Vec<(u32, char)> = Vec::new();
    let mut i: usize = 0;
    let mut char_pos: u32 = 0;
    proof {
        assert(out@.map_values(|p: (u32, char)| (p.0, p.1 as u32)) + spec_para_pos_scalars(
            data@,
            0,
            0,
        ) =~= spec_para_pos_scalars(data@, 0, 0));
    }
    while i < len && len - i >= 2
        invariant
            len == data@.len(),
            len <= 0xFFFF_FFFF,
            char_pos as int * 2 <= i as int,
            i <= len,
            spec_para_pos_scalars(data@, 0, 0) == out@.map_values(
                |p: (u32, char)| (p.0, p.1 as u32),
            ) + spec_para_pos_scalars(data@, i as int, char_pos as int),
        decreases len - i,
    {
        let ghost pre = out@.map_values(|p: (u32, char)| (p.0, p.1 as u32));
        let code = read_u16_le(data, i);
        let skip_ext = code == CHAR_INLINE_CTRL_START || code == CHAR_SECTION_DEF || code
            == CHAR_FIELD_START || code == CHAR_TABLE || code == CHAR_DRAWING;
        if code == CHAR_TAB {
            out.push((char_pos, '\t'));
        } else if code == CHAR_LINE_BREAK || code == CHAR_PARA_BREAK {
            out.push((char_pos, '\n'));
        } else if code == CHAR_SPACE {
            out.push((char_pos, ' '));
        } else if code == CHAR_HYPHEN {
            out.push((char_pos, '-'));
        } else if code <= 0x08 || (0x10 <= code && code <= 0x1F) || code == CHAR_TABLE || code
            == CHAR_DRAWING {
            // invisible control
        } else {
            match char::from_u32(code as u32) {
                Some(c) => out.push((char_pos, c)),
                None => (),
            }
        }
        proof {
            assert(out@.map_values(|p: (u32, char)| (p.0, p.1 as u32)) =~= match spec_code_out(
                code,
            ) {
                Some(v) => pre.push((char_pos, v)),
                None => pre,
            });
            if spec_code_out(code) is Some {
                assert(pre.push((char_pos, spec_code_out(code)->0)) =~= pre + seq![
                    (char_pos, spec_code_out(code)->0),
                ]);
            }
        }
        proof {
            if skip_ext && len - i < 16 {
                assert(spec_para_pos_scalars(data@, i + spec_next_off(code), char_pos + 1) =~= Seq::<
                    (u32, u32),
                >::empty());
                assert(spec_para_pos_scalars(data@, len as int, char_pos + 1) =~= Seq::<
                    (u32, u32),
                >::empty());
            }
        }
        if skip_ext {
            if len - i >= 16 {
                i += 16;
            } else {
                i = len;
            }
        } else {
            i += 2;
        }
        char_pos = char_pos + 1;
    }
    proof {
        assert(spec_para_pos_scalars(data@, i as int, char_pos as int) =~= Seq::<(u32, u32)>::empty());
        assert(out@.map_values(|p: (u32, char)| (p.0, p.1 as u32)) + Seq::<(u32, u32)>::empty()
            =~= out@.map_values(|p: (u32, char)| (p.0, p.1 as u32)));
    }
    out
}

/// Character-level formatting decoded from a `CHAR_SHAPE` record.
#[derive(Debug, Clone, Default, PartialEq, Eq, Structural)]
pub struct CharShape {
    pub bold: bool,
    pub italic: bool,
    pub underline: bool,
    pub strikeout: bool,
}

/// The shape encoded in a `CHAR_SHAPE` attribute word: bit 0 is italic,
/// bit 1 bold, bits 2 to 3 the underline kind, bits 18 to 21 the strikeout
/// kind; a nonzero kind means the attribute is on.
pub open spec fn spec_char_shape_of(attr: u32) -> CharShape {
    CharShape {
        bold: attr & 0x02 != 0,
        italic: attr & 0x01 != 0,
        underline: (attr >> 2) & 0x03 != 0,
        strikeout: (attr >> 18) & 0x0F != 0,
    }
}

/// Decodes the formatting attributes of a `CHAR_SHAPE` record payload, whose
/// attribute word sits at bytes 46 to 49; shorter payloads are rejected.
pub fn parse_char_shape(data: &[u8]) -> (r: Option<CharShape>)
    ensures
        data@.len() < 50 ==> r is None,
        data@.len() >= 50 ==> r == Some(spec_char_shape_of(le32(data@, 46))),
{
    if data.len() < 50 {
        return None;
    }
    let attr = read_u32_le(data, 46);
    let italic = (attr & 0x01) != 0;
    let bold = (attr & 0x02) != 0;
    let underline_type = (attr >> 2) & 0x03;
    let strikeout_type = (attr >> 18) & 0x0F;
    Some(
        CharShape { bold, italic, underline: underline_type != 0, strikeout: strikeout_type != 0 },
    )
}

/// A paragraph's run-length style assignment: `(text position, shape id)`
/// pairs, ascending by position; the style at position `p` is the id of the
/// last pair at or before `p`.
#[derive(Debug, Clone)]
pub struct ParaCharShapeMapping {
    pub mappings: Vec<(u32, u32)>,
}

/// The `(position, shape id)` pairs packed as eight-byte little-endian
/// entries from offset `i` on.
pub open spec fn spec_shape_pairs(b: Seq<u8>, i: int) -> Seq<(u32, u32)>
    decreases b.len() - i,
    when 0 <= i
{
    if i + 8 > b.len() {
        Seq::empty()
    } else {
        seq![(le32(b, i), le32(b, i + 4))] + spec_shape_pairs(b, i + 8)
    }
}

/// Decodes a `PARA_CHAR_SHAPE` record payload: a packed array of
/// `(position, shape id)` pairs; payloads shorter than one pair are rejected.
pub fn parse_para_char_shape(data: &[u8]) -> (r: Option<ParaCharShapeMapping>)
    ensures
        data@.len() < 8 ==> r is None,
        data@.len() >= 8 ==> (r matches Some(m) && m.mappings@ == spec_shape_pairs(data@, 0)),
{
    let len = data.len();
    if len < 8 {
        return None;
    }
    let mut mappings: Vec<(u32, u32)> = Vec::new();
    let mut pos: usize = 0;
    proof {
        assert(mappings@ + spec_shape_pairs(data@, 0) =~= spec_shape_pairs(data@, 0));
    }
    while len - pos >= 8
        invariant
            len == data@.len(),
            pos <= len,
            spec_shape_pairs(data@, 0) == mappings@ + spec_shape_pairs(data@, pos as int),
        decreases len - pos,
    {
        let ghost pre = mappings@;
        let text_pos = read_u32_le(data, pos);
        let shape_id = read_u32_le(data, pos + 4);
        mappings.push((text_pos, shape_id));
        proof {
            assert(mappings@ =~= pre + seq![(text_pos, shape_id)]);
            assert(pre + (seq![(text_pos, shape_id)] + spec_shape_pairs(data@, pos + 8)) =~= (pre
                + seq![(text_pos, shape_id)]) + spec_shape_pairs(data@, pos + 8));
        }
        pos += 8;
    }
    proof {
        assert(spec_shape_pairs(data@, pos as int) =~= Seq::<(u32, u32)>::empty());
        assert(mappings@ + Seq::<(u32, u32)>::empty() =~= mappings@);
    }
    Some(ParaCharShapeMapping { mappings })
}

/// The shape id in force at `pos`: the id of the last pair at or before
/// `pos` among the entries from `i` on, stopping at the first later pair.
pub open spec fn spec_style_from(ms: Seq<(u32, u32)>, i: int, pos: u32) -> Option<u32>
    decreases ms.len() - i,
    when 0 <= i
{
    if i >= ms.len() {
        None
    } else if ms[i].0 > pos {
        None
    } else {
        match spec_style_from(ms, i + 1, pos) {
            None => Some(ms[i].1),
            Some(x) => Some(x),
        }
    }
}

/// The shape id in force at `pos` under the mapping `ms`.
pub open spec fn spec_style_at(ms: Seq<(u32, u32)>, pos: u32) -> Option<u32> {
    spec_style_from(ms, 0, pos)
}

fn style_from(ms: &Vec<(u32, u32)>, i: usize, pos: u32) -> (r: Option<u32>)
    requires
        i <= ms@.len(),
    ensures
        r == spec_style_from(ms@, i as int, pos),
    decreases ms@.len() - i,
{
    if i >= ms.len() {
        None
    } else if ms[i].0 > pos {
        None
    } else {
        match style_from(ms, i + 1, pos) {
            None => Some(ms[i].1),
            Some(x) => Some(x),
        }
    }
}

/// The shape id in force at text position `pos`, or `None` before the first
/// mapping entry.
pub fn find_style_for_position(pos: u32, mapping: &ParaCharShapeMapping) -> (r: Option<u32>)
    ensures
        r == spec_style_at(mapping.mappings@, pos),
{
    style_from(&mapping.mappings, 0, pos)
}

/// The markdown rendering of a run: strikeout markers innermost, then bold
/// and italic stars, then an underline element outermost; an empty run stays
/// empty.
pub open spec fn spec_md(t: Seq<char>, sh: CharShape) -> Seq<char> {
    if t.len() == 0 {
        Seq::empty()
    } else {
        let s1 = if sh.strikeout {
            seq!['~', '~'] + t + seq!['~', '~']
        } else {
            t
        };
        let s2 = if sh.bold && sh.italic {
            seq!['*', '*', '*'] + s1 + seq!['*', '*', '*']
        } else if sh.bold {
            seq!['*', '*'] + s1 + seq!['*', '*']
        } else if sh.italic {
            seq!['*'] + s1 + seq!['*']
        } else {
            s1
        };
        if sh.underline {
            seq!['<', 'u', '>'] + s2 + seq!['<', '/', 'u', '>']
        } else {
            s2
        }
    }
}

fn wrap_markers(pre: &str, s: String, post: &str) -> (r: String)
    ensures
        r@ == pre@ + s@ + post@,
{
    let mut r = String::from_str(pre);
    r.append(s.as_str());
    r.append(post);
    r
}

/// Renders one style run as markdown, nesting markers in the fixed order
/// that `spec_md` states.
pub fn apply_markdown_formatting(text: &str, style: &CharShape) -> (r: String)
    ensures
        r@ == spec_md(text@, *style),
{
    if text.unicode_len() == 0 {
        return String::new();
    }
    let mut cur = String::from_str(text);
    if style.strikeout {
        cur = wrap_markers("~~", cur, "~~");
        proof {
            reveal_strlit("~~");
            assert("~~"@ =~= seq!['~', '~']);
        }
    }
    if style.bold && style.italic {
        cur = wrap_markers("***", cur, "***");
        proof {
            reveal_strlit("***");
            assert("***"@ =~= seq!['*', '*', '*']);
        }
    } else if style.bold {
        cur = wrap_markers("**", cur, "**");
        proof {
            reveal_strlit("**");
            assert("**"@ =~= seq!['*', '*']);
        }
    } else if style.italic {
        cur = wrap_markers("*", cur, "*");
        proof {
            reveal_strlit("*");
            assert("*"@ =~= seq!['*']);
        }
    }
    if style.underline {
        cur = wrap_markers("<u>", cur, "</u>");
        proof {
            reveal_strlit("<u>");
            reveal_strlit("</u>");
            assert("<u>"@ =~= seq!['<', 'u', '>']);
            assert("</u>"@ =~= seq!['<', '/', 'u', '>']);
        }
    }
    cur
}

/// What a flushed run contributes: the run rendered with its shape, the run
/// itself when the shape id is absent from the table or there is none, and
/// nothing for an empty run.
pub open spec fn spec_flush(run: Seq<char>, cur: Option<u32>, shapes: Map<u32, CharShape>) -> Seq<
    char,
> {
    if run.len() == 0 {
        Seq::empty()
    } else {
        match cur {
            None => run,
            Some(id) => if shapes.contains_key(id) {
                spec_md(run, shapes[id])
            } else {
                run
            },
        }
    }
}

/// The styled text built from position `i` on, with `cur` the style of the
/// run accumulated so far in `run`: whenever the style changes, the run is
/// flushed through `spec_flush` and a new run starts.
pub open spec fn spec_fmt_runs(
    tp: Seq<(u32, char)>,
    ms: Seq<(u32, u32)>,
    shapes: Map<u32, CharShape>,
    i: int,
    cur: Option<u32>,
    run: Seq<char>,
) -> Seq<char>
    decreases tp.len() - i,
    when 0 <= i
{
    if i >= tp.len() {
        spec_flush(run, cur, shapes)
    } else {
        let sid = spec_style_at(ms, tp[i].0);
        let ch = tp[i].1;
        if sid != cur && run.len() > 0 {
            spec_flush(run, cur, shapes) + spec_fmt_runs(tp, ms, shapes, i + 1, sid, seq![ch])
        } else {
            spec_fmt_runs(tp, ms, shapes, i + 1, sid, run.push(ch))
        }
    }
}

/// The positions and scalar values of position-character pairs.
pub open spec fn pairs_scalars(tp: Seq<(u32, char)>) -> Seq<(u32, u32)> {
    tp.map_values(|p: (u32, char)| (p.0, p.1 as u32))
}

/// The pairs `tp` carry exactly the positions and scalar values `sc`.
pub open spec fn tp_matches(tp: Seq<(u32, char)>, sc: Seq<(u32, u32)>) -> bool {
    tp.map_values(|p: (u32, char)| (p.0, p.1 as u32)) == sc
}

/// The `(position, character)` pairs decoded from a `PARA_TEXT` payload.
pub open spec fn pos_pairs_of(b: Seq<u8>) -> Seq<(u32, char)> {
    choose|tp: Seq<(u32, char)>| (#[trigger] pairs_scalars(tp)) == spec_para_pos_scalars(b, 0, 0)
}

/// A pair sequence whose scalars match the decode equals `pos_pairs_of`.
pub proof fn lemma_pos_pairs_pinned(b: Seq<u8>, tp: Seq<(u32, char)>)
    requires
        pairs_scalars(tp) == spec_para_pos_scalars(b, 0, 0),
    ensures
        pos_pairs_of(b) == tp,
{
    assert(exists|t: Seq<(u32, char)>|
        (#[trigger] pairs_scalars(t)) == spec_para_pos_scalars(b, 0, 0)) by {
        assert(pairs_scalars(tp) == spec_para_pos_scalars(b, 0, 0));
    }
    lemma_tp_unique(pos_pairs_of(b), tp);
}

/// The styled text of a paragraph, straight from its `PARA_TEXT` payload.
pub open spec fn spec_formatted_text(
    b: Seq<u8>,
    maps: Option<Seq<(u32, u32)>>,
    shapes: Map<u32, CharShape>,
) -> Seq<char> {
    spec_formatted_out(pos_pairs_of(b), maps, shapes)
}

/// The styled text of a paragraph: its decoded `(position, character)`
/// pairs grouped into style runs under the mapping, or the plain characters
/// where no mapping entry exists.
pub open spec fn spec_formatted_out(
    tp: Seq<(u32, char)>,
    maps: Option<Seq<(u32, u32)>>,
    shapes: Map<u32, CharShape>,
) -> Seq<char> {
    match maps {
        Some(ms) => if ms.len() > 0 {
            spec_fmt_runs(tp, ms, shapes, 0, None, Seq::empty())
        } else {
            tp.map_values(|p: (u32, char)| p.1)
        },
        None => tp.map_values(|p: (u32, char)| p.1),
    }
}

/// The mapping view of an optional `ParaCharShapeMapping`.
pub open spec fn spec_mapping_view(m: Option<&ParaCharShapeMapping>) -> Option<Seq<(u32, u32)>> {
    match m {
        Some(mm) => Some(mm.mappings@),
        None => None,
    }
}

/// Two pair sequences with the same positions and scalar values are equal.
proof fn lemma_tp_unique(a: Seq<(u32, char)>, b: Seq<(u32, char)>)
    requires
        a.map_values(|p: (u32, char)| (p.0, p.1 as u32)) == b.map_values(
            |p: (u32, char)| (p.0, p.1 as u32),
        ),
    ensures
        a == b,
{
    assert(a.map_values(|p: (u32, char)| (p.0, p.1 as u32)).len() == a.len());
    assert(b.map_values(|p: (u32, char)| (p.0, p.1 as u32)).len() == b.len());
    assert(a.len() == b.len());
    assert forall|i: int| 0 <= i < a.len() implies a[i] == b[i] by {
        assert(a.map_values(|p: (u32, char)| (p.0, p.1 as u32))[i] == (a[i].0, a[i].1 as u32));
        assert(b.map_values(|p: (u32, char)| (p.0, p.1 as u32))[i] == (b[i].0, b[i].1 as u32));
        assert(a[i].0 == b[i].0);
        assert(a[i].1 as u32 == b[i].1 as u32);
        char_scalar_inj(a[i].1, b[i].1);
        assert(a[i].1 == b[i].1);
    }
    assert(a =~= b);
}

fn opt_u32_eq(a: &Option<u32>, b: &Option<u32>) -> (r: bool)
    ensures
        r == (*a == *b),
{
    match (a, b) {
        (Some(x), Some(y)) => *x == *y,
        (None, None) => true,
        _ => false,
    }
}

fn flush_run(run: &str, cur: &Option<u32>, shapes: &HashMap<u32, CharShape>) -> (r: String)
    ensures
        r@ == spec_flush(run@, *cur, shapes@),
{
    if run.unicode_len() == 0 {
        return String::new();
    }
    match cur {
        None => String::from_str(run),
        Some(id) => {
            match shapes.get(id) {
                Some(style) => apply_markdown_formatting(run, style),
                None => String::from_str(run),
            }
        },
    }
}

/// Reconstructs a paragraph's styled text: the decoded characters grouped
/// into maximal same-style runs, each rendered as markdown. Without mapping
/// entries the plain characters are returned.
pub fn extract_para_text_formatted(
    text_data: &[u8],
    char_shape_mapping: Option<&ParaCharShapeMapping>,
    char_shapes: &HashMap<u32, CharShape>,
) -> (r: String)
    requires
        text_data@.len() <= 0xFFFF_FFFF,
    ensures
        r@ == spec_formatted_text(text_data@, spec_mapping_view(char_shape_mapping), char_shapes@),
{
    let tpv = extract_para_text_with_positions(text_data);
    let ghost tp0 = tpv@;
    let mapping_nonempty = match char_shape_mapping {
        Some(m) => m.mappings.len() > 0,
        None => false,
    };
    let r: String;
    if !mapping_nonempty {
        let mut out = String::new();
        let mut i: usize = 0;
        proof {
            assert(out@ =~= tp0.map_values(|p: (u32, char)| p.1).subrange(0, 0));
        }
        while i < tpv.len()
            invariant
                tpv@ == tp0,
                i <= tp0.len(),
                out@ == tp0.map_values(|p: (u32, char)| p.1).subrange(0, i as int),
            decreases tp0.len() - i,
        {
            out.push(tpv[i].1);
            proof {
                assert(out@ =~= tp0.map_values(|p: (u32, char)| p.1).subrange(0, i + 1));
            }
            i += 1;
        }
        proof {
            assert(tp0.map_values(|p: (u32, char)| p.1).subrange(
                0,
                tp0.len() as int,
            ) =~= tp0.map_values(|p: (u32, char)| p.1));
        }
        r = out;
    } else {
        let mapping = match char_shape_mapping {
            Some(m) => m,
            None => {
                // unreachable: mapping_nonempty implies a mapping is present
                return String::new();
            },
        };
        let ghost ms = mapping.mappings@;
        let mut out = String::new();
        let mut run = String::new();
        let mut cur: Option<u32> = None;
        let mut i: usize = 0;
        proof {
            assert(Seq::<char>::empty() + spec_fmt_runs(
                tp0,
                ms,
                char_shapes@,
                0,
                None,
                Seq::empty(),
            ) =~= spec_fmt_runs(tp0, ms, char_shapes@, 0, None, Seq::empty()));
            assert(run@ =~= Seq::<char>::empty());
        }
        while i < tpv.len()
            invariant
                tpv@ == tp0,
                ms == mapping.mappings@,
                i <= tp0.len(),
                spec_fmt_runs(tp0, ms, char_shapes@, 0, None, Seq::empty()) == out@
                    + spec_fmt_runs(tp0, ms, char_shapes@, i as int, cur, run@),
            decreases tp0.len() - i,
        {
            let sid = find_style_for_position(tpv[i].0, mapping);
            let changed = !opt_u32_eq(&sid, &cur);
            if changed && run.as_str().unicode_len() > 0 {
                let flushed = flush_run(run.as_str(), &cur, char_shapes);
                out.append(flushed.as_str());
                run = String::new();
                run.push(tpv[i].1);
                proof {
                    assert(run@ =~= seq![tp0[i as int].1]);
                }
            } else {
                run.push(tpv[i].1);
            }
            cur = sid;
            i += 1;
        }
        let flushed = flush_run(run.as_str(), &cur, char_shapes);
        out.append(flushed.as_str());
        r = out;
    }
    proof {
        lemma_pos_pairs_pinned(text_data@, tp0);
    }
    r
}

} // verus!
