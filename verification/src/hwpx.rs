//! The XML-based sibling format: character styles from `header.xml`, table
//! grids, and attribute and cell-text scanning over section markup. The zip
//! archive reading that feeds these scanners lives outside the library.

use crate::strings::{
    find_sub_from, match_at, parse_u32_dec, spec_find_from, spec_join, spec_parse_dec,
    spec_replace, spec_trim, contains_sub, replace_sub, str_eq, trim_str,
};
use std::collections::HashMap;
use vstd::prelude::*;

verus! {

broadcast use vstd::std_specs::hash::group_hash_axioms;

/// Character-level formatting named by a `charPr` style definition.
#[derive(Debug, Clone, Default, PartialEq, Eq, Structural)]
pub struct CharStyle {
    pub bold: bool,
    pub italic: bool,
    pub underline: bool,
    pub strikeout: bool,
}

/// An embedded image with its manifest metadata.
#[derive(Debug, Clone)]
pub struct ImageInfo {
    pub id: String,
    pub path: String,
    pub media_type: String,
    pub data: Vec<u8>,
}

/// A parsed document: its version, section texts, image names and data,
/// preview text and tables.
#[derive(Debug, Clone)]
pub struct HwpxDocument {
    pub version: String,
    pub sections: Vec<String>,
    pub images: Vec<String>,
    pub image_info: Vec<ImageInfo>,
    pub preview_text: String,
    pub tables: Vec<Table>,
}

/// A table grid with its header marking.
#[derive(Debug, Clone)]
pub struct Table {
    pub rows: usize,
    pub cols: usize,
    pub cells: Vec<Vec<String>>,
    pub has_header: bool,
}

/// A cell as it appears in the markdown: trimmed, newlines flattened.
pub open spec fn spec_hx_cell(c: Seq<char>) -> Seq<char> {
    spec_replace(spec_trim(c), seq!['\n'], seq![' '])
}

/// One markdown row: each cell between delimiters.
pub open spec fn spec_hx_row_cells(row: Seq<String>, k: int) -> Seq<char>
    decreases row.len() - k,
    when 0 <= k
{
    if k >= row.len() {
        Seq::empty()
    } else {
        seq![' '] + spec_hx_cell(row[k]@) + seq![' ', '|'] + spec_hx_row_cells(row, k + 1)
    }
}

/// `n` separator cells.
pub open spec fn spec_hx_sep(n: int) -> Seq<char>
    decreases n,
    when n >= 0
{
    if n <= 0 {
        Seq::empty()
    } else {
        seq!['-', '-', '-', '|'] + spec_hx_sep(n - 1)
    }
}

/// The markdown lines of the grid from row `i` on; a header table gets a
/// separator line after its first row.
pub open spec fn spec_hx_lines(
    g: Seq<Vec<String>>,
    i: int,
    cols: int,
    has_header: bool,
) -> Seq<char>
    decreases g.len() - i,
    when 0 <= i
{
    if i >= g.len() {
        Seq::empty()
    } else {
        let line = seq!['|'] + spec_hx_row_cells(g[i]@, 0) + seq!['\n'];
        let sep: Seq<char> = if i == 0 && has_header {
            seq!['|'] + spec_hx_sep(cols) + seq!['\n']
        } else {
            Seq::empty()
        };
        line + sep + spec_hx_lines(g, i + 1, cols, has_header)
    }
}

fn hx_cell(c: &str) -> (r: String)
    ensures
        r@ == spec_hx_cell(c@),
{
    proof {
        reveal_strlit("\n");
        reveal_strlit(" ");
        assert("\n"@ =~= seq!['\n']);
        assert(" "@ =~= seq![' ']);
    }
    let t = trim_str(c);
    replace_sub(t.as_str(), "\n", " ")
}

fn hx_row_cells(row: &Vec<String>, k: usize) -> (r: String)
    requires
        k <= row@.len(),
    ensures
        r@ == spec_hx_row_cells(row@, k as int),
    decreases row@.len() - k,
{
    if k >= row.len() {
        String::new()
    } else {
        let mut out = String::from_str(" ");
        let cell = hx_cell(row[k].as_str());
        out.append(cell.as_str());
        out.append(" |");
        let rest = hx_row_cells(row, k + 1);
        out.append(rest.as_str());
        proof {
            reveal_strlit(" ");
            reveal_strlit(" |");
            assert(" "@ =~= seq![' ']);
            assert(" |"@ =~= seq![' ', '|']);
            assert(out@ =~= spec_hx_row_cells(row@, k as int));
        }
        out
    }
}

fn hx_sep(n: usize) -> (r: String)
    ensures
        r@ == spec_hx_sep(n as int),
    decreases n,
{
    if n == 0 {
        String::new()
    } else {
        let mut out = String::from_str("---|");
        let rest = hx_sep(n - 1);
        out.append(rest.as_str());
        proof {
            reveal_strlit("---|");
            assert("---|"@ =~= seq!['-', '-', '-', '|']);
            assert(out@ =~= spec_hx_sep(n as int));
        }
        out
    }
}

fn hx_lines(g: &Vec<Vec<String>>, i: usize, cols: usize, has_header: bool) -> (r: String)
    requires
        i <= g@.len(),
    ensures
        r@ == spec_hx_lines(g@, i as int, cols as int, has_header),
    decreases g@.len() - i,
{
    if i >= g.len() {
        String::new()
    } else {
        let mut out = String::from_str("|");
        let cells = hx_row_cells(&g[i], 0);
        out.append(cells.as_str());
        out.append("\n");
        if i == 0 && has_header {
            out.append("|");
            let sep = hx_sep(cols);
            out.append(sep.as_str());
            out.append("\n");
        }
        let rest = hx_lines(g, i + 1, cols, has_header);
        out.append(rest.as_str());
        proof {
            reveal_strlit("|");
            reveal_strlit("\n");
            assert("|"@ =~= seq!['|']);
            assert("\n"@ =~= seq!['\n']);
            assert(out@ =~= spec_hx_lines(g@, i as int, cols as int, has_header));
        }
        out
    }
}

impl Table {
    /// Renders the table as markdown; a header table gets a separator line
    /// after its first row, and a table without cells or columns renders
    /// empty.
    pub fn to_markdown(&self) -> (r: String)
        ensures
            (self.cells@.len() == 0 || self.cols == 0) ==> r@ == Seq::<char>::empty(),
            (self.cells@.len() > 0 && self.cols > 0) ==> r@ == spec_hx_lines(
                self.cells@,
                0,
                self.cols as int,
                self.has_header,
            ),
    {
        if self.cells.len() == 0 || self.cols == 0 {
            return String::new();
        }
        hx_lines(&self.cells, 0, self.cols, self.has_header)
    }
}

/// The value of the first `name="value"` attribute occurrence: the
/// characters between the quote after the first `name="` and the next quote.
pub open spec fn spec_attr(xml: Seq<char>, pattern: Seq<char>) -> Option<Seq<char>> {
    match spec_find_from(xml, pattern, 0) {
        Some(start) => {
            let vstart = start + pattern.len();
            match spec_find_from(xml, seq!['"'], vstart) {
                Some(vend) => Some(xml.subrange(vstart, vend)),
                None => None,
            }
        },
        None => None,
    }
}

/// Reads an attribute value out of an XML fragment: the text between
/// `attr="` and the following quote.
pub fn extract_attr(xml: &str, attr: &str) -> (r: Option<String>)
    ensures
        match r {
            Some(v) => spec_attr(xml@, attr@ + "=\""@) == Some(v@),
            None => spec_attr(xml@, attr@ + "=\""@) is None,
        },
{
    proof {
        reveal_strlit("=\"");
        reveal_strlit("\"");
        assert("\""@ =~= seq!['"']);
    }
    let xl = xml.unicode_len();
    let mut pattern = String::from_str(attr);
    pattern.append("=\"");
    match find_sub_from(xml, pattern.as_str(), 0) {
        Some(start) => {
            proof {
                crate::strings::lemma_find_in_range(xml@, pattern@, 0, start as int);
            }
            let vstart = start + pattern.as_str().unicode_len();
            match find_sub_from(xml, "\"", vstart) {
                Some(vend) => {
                    proof {
                        crate::strings::lemma_find_in_range(xml@, "\""@, vstart as int, vend as int);
                    }
                    Some(String::from_str(xml.substring_char(vstart, vend)))
                },
                None => None,
            }
        },
        None => None,
    }
}

/// Collects the text of a table cell: every `<hp:t>` body inside the cell
/// markup joined by single spaces; where none exists, the body of the first
/// attributed `<hp:t ...>` element; the result trimmed.
pub open spec fn spec_cell_texts(xml: Seq<char>, pos: int) -> Seq<Seq<char>>
    decreases xml.len() - pos,
    when 0 <= pos
    via spec_cell_texts_decreases
{
    match spec_find_from(xml, "<hp:t>"@, pos) {
        Some(t0) => {
            let start = t0 + 6;
            match spec_find_from(xml, "</hp:t>"@, start) {
                Some(t1) => seq![xml.subrange(start, t1)] + spec_cell_texts(xml, t1 + 7),
                None => Seq::empty(),
            }
        },
        None => Seq::empty(),
    }
}

#[via_fn]
proof fn spec_cell_texts_decreases(xml: Seq<char>, pos: int) {
    match spec_find_from(xml, "<hp:t>"@, pos) {
        Some(t0) => {
            crate::strings::lemma_find_in_range(xml, "<hp:t>"@, pos, t0);
            match spec_find_from(xml, "</hp:t>"@, t0 + 6) {
                Some(t1) => {
                    crate::strings::lemma_find_in_range(xml, "</hp:t>"@, t0 + 6, t1);
                    proof_strlit_lens();
                },
                None => {},
            }
        },
        None => {},
    }
}

proof fn proof_strlit_lens()
    ensures
        "<hp:t>"@.len() == 6,
        "</hp:t>"@.len() == 7,
        "<hp:t "@.len() == 6,
{
    reveal_strlit("<hp:t>");
    reveal_strlit("</hp:t>");
    reveal_strlit("<hp:t ");
}

/// The nonempty pieces joined by single spaces, as the cell text gathers
/// them: an empty piece neither adds a space nor text.
pub open spec fn spec_space_joined(parts: Seq<Seq<char>>, i: int, acc: Seq<char>) -> Seq<char>
    decreases parts.len() - i,
    when 0 <= i
{
    if i >= parts.len() {
        acc
    } else {
        let p = parts[i];
        let acc2 = if acc.len() > 0 && p.len() > 0 {
            acc + seq![' '] + p
        } else {
            acc + p
        };
        spec_space_joined(parts, i + 1, acc2)
    }
}

proof fn lemma_space_joined_shift(p: Seq<char>, rest: Seq<Seq<char>>, i: int, a: Seq<char>)
    requires
        0 <= i <= rest.len(),
    ensures
        spec_space_joined(seq![p] + rest, i + 1, a) == spec_space_joined(rest, i, a),
    decreases rest.len() - i,
{
    assert((seq![p] + rest).len() == rest.len() + 1);
    if i < rest.len() {
        assert((seq![p] + rest)[i + 1] == rest[i]);
        let q = rest[i];
        let a2 = if a.len() > 0 && q.len() > 0 {
            a + seq![' '] + q
        } else {
            a + q
        };
        lemma_space_joined_shift(p, rest, i + 1, a2);
    }
}

/// The fallback body: the text between the first `<hp:t ...>` element's
/// closing bracket and the following `</hp:t>`.
pub open spec fn spec_cell_fallback(xml: Seq<char>) -> Seq<char> {
    match spec_find_from(xml, "<hp:t "@, 0) {
        Some(t0) => {
            match spec_find_from(xml, seq!['>'], t0) {
                Some(gt) => {
                    match spec_find_from(xml, "</hp:t>"@, gt + 1) {
                        Some(t1) => xml.subrange(gt + 1, t1),
                        None => Seq::empty(),
                    }
                },
                None => Seq::empty(),
            }
        },
        None => Seq::empty(),
    }
}

/// The trimmed text of a table cell.
pub open spec fn spec_cell_text(xml: Seq<char>) -> Seq<char> {
    let joined = spec_space_joined(spec_cell_texts(xml, 0), 0, Seq::empty());
    if joined.len() == 0 {
        spec_trim(spec_cell_fallback(xml))
    } else {
        spec_trim(joined)
    }
}

/// Extracts a table cell's text from its markup.
#[verifier::rlimit(100)]
pub fn extract_cell_text(xml: &str) -> (r: String)
    ensures
        r@ == spec_cell_text(xml@),
{
    let xl = xml.unicode_len();
    proof {
        proof_strlit_lens();
        reveal_strlit(">");
        assert(">"@ =~= seq!['>']);
        reveal_strlit(" ");
        assert(" "@ =~= seq![' ']);
    }
    let mut result = String::new();
    let mut pos: usize = 0;
    let ghost parts = spec_cell_texts(xml@, 0);
    let mut stop = false;
    while !stop
        invariant
            xl == xml@.len(),
            pos <= xml@.len(),
            !stop ==> spec_space_joined(parts, 0, Seq::empty()) == spec_space_joined(
                spec_cell_texts(xml@, pos as int),
                0,
                result@,
            ),
            !stop ==> parts =~= spec_cell_texts(xml@, 0),
            stop ==> result@ == spec_space_joined(parts, 0, Seq::empty()),
        decreases xml@.len() - pos + (if stop {
            0int
        } else {
            1int
        }),
    {
        match find_sub_from(xml, "<hp:t>", pos) {
            Some(t0) => {
                proof {
                    proof_strlit_lens();
                    crate::strings::lemma_find_in_range(xml@, "<hp:t>"@, pos as int, t0 as int);
                }
                let start = t0 + 6;
                match find_sub_from(xml, "</hp:t>", start) {
                    Some(t1) => {
                        proof {
                            proof_strlit_lens();
                            crate::strings::lemma_find_in_range(
                                xml@,
                                "</hp:t>"@,
                                start as int,
                                t1 as int,
                            );
                        }
                        let ghost pos0 = pos as int;
                        let ghost pre = result@;
                        let text = xml.substring_char(start, t1);
                        if result.as_str().unicode_len() > 0 && text.unicode_len() > 0 {
                            result.push(' ');
                        }
                        result.append(text);
                        pos = t1 + 7;
                        proof {
                            let piece = xml@.subrange(start as int, t1 as int);
                            let rest = spec_cell_texts(xml@, pos as int);
                            assert(spec_cell_texts(xml@, pos0) =~= seq![piece] + rest);
                            assert(result@ =~= (if pre.len() > 0 && piece.len() > 0 {
                                pre + seq![' '] + piece
                            } else {
                                pre + piece
                            }));
                            assert(spec_space_joined(seq![piece] + rest, 0, pre)
                                == spec_space_joined(seq![piece] + rest, 1, result@));
                            lemma_space_joined_shift(piece, rest, 0, result@);
                        }
                    },
                    None => {
                        proof {
                            assert(spec_cell_texts(xml@, pos as int) =~= Seq::<Seq<char>>::empty());
                        }
                        stop = true;
                    },
                }
            },
            None => {
                proof {
                    assert(spec_cell_texts(xml@, pos as int) =~= Seq::<Seq<char>>::empty());
                }
                stop = true;
            },
        }
    }
    if result.as_str().unicode_len() == 0 {
        // fall back to the first attributed text element
        let fb: String;
        match find_sub_from(xml, "<hp:t ", 0) {
            Some(t0) => {
                proof {
                    proof_strlit_lens();
                    crate::strings::lemma_find_in_range(xml@, "<hp:t "@, 0, t0 as int);
                }
                match find_sub_from(xml, ">", t0) {
                    Some(gt) => {
                        proof {
                            reveal_strlit(">");
                            assert(">"@ =~= seq!['>']);
                            crate::strings::lemma_find_in_range(xml@, ">"@, t0 as int, gt as int);
                        }
                        match find_sub_from(xml, "</hp:t>", gt + 1) {
                            Some(t1) => {
                                proof {
                                    proof_strlit_lens();
                                    crate::strings::lemma_find_in_range(
                                        xml@,
                                        "</hp:t>"@,
                                        gt as int + 1,
                                        t1 as int,
                                    );
                                }
                                fb = String::from_str(xml.substring_char(gt + 1, t1));
                            },
                            None => {
                                fb = String::new();
                            },
                        }
                    },
                    None => {
                        fb = String::new();
                    },
                }
            },
            None => {
                fb = String::new();
            },
        }
        trim_str(fb.as_str())
    } else {
        trim_str(result.as_str())
    }
}

/// Renders one style run as markdown: strikeout markers innermost, then bold
/// and italic stars, then an underline element outermost.
pub fn apply_markdown_formatting(text: &str, style: &CharStyle) -> (r: String)
    ensures
        r@ == spec_hx_md(text@, *style),
{
    let mut cur = String::from_str(text);
    if style.strikeout {
        let mut w = String::from_str("~~");
        w.append(cur.as_str());
        w.append("~~");
        cur = w;
        proof {
            reveal_strlit("~~");
            assert("~~"@ =~= seq!['~', '~']);
        }
    }
    if style.bold && style.italic {
        let mut w = String::from_str("***");
        w.append(cur.as_str());
        w.append("***");
        cur = w;
        proof {
            reveal_strlit("***");
            assert("***"@ =~= seq!['*', '*', '*']);
        }
    } else if style.bold {
        let mut w = String::from_str("**");
        w.append(cur.as_str());
        w.append("**");
        cur = w;
        proof {
            reveal_strlit("**");
            assert("**"@ =~= seq!['*', '*']);
        }
    } else if style.italic {
        let mut w = String::from_str("*");
        w.append(cur.as_str());
        w.append("*");
        cur = w;
        proof {
            reveal_strlit("*");
            assert("*"@ =~= seq!['*']);
        }
    }
    if style.underline {
        let mut w = String::from_str("<u>");
        w.append(cur.as_str());
        w.append("</u>");
        cur = w;
        proof {
            reveal_strlit("<u>");
            reveal_strlit("</u>");
            assert("<u>"@ =~= seq!['<', 'u', '>']);
            assert("</u>"@ =~= seq!['<', '/', 'u', '>']);
        }
    }
    cur
}

/// The markdown rendering of a run under a style: strikeout innermost, bold
/// and italic next, underline outermost.
pub open spec fn spec_hx_md(t: Seq<char>, sh: CharStyle) -> Seq<char> {
    let s1 = if sh.strikeout {
        seq!['~', '~'] + t + seq!['~', '~']
    } else {
        t
    };
    let s2 = if sh.bold && sh.italic {
        seq!['*', '*', '*'] + s1 + seq!['*', '*', '*']
    } else if sh.bold {
        seq!['*', '*'] + s1 + seq!['*', '*']
    } else if sh.italic {
        seq!['*'] + s1 + seq!['*']
    } else {
        s1
    };
    if sh.underline {
        seq!['<', 'u', '>'] + s2 + seq!['<', '/', 'u', '>']
    } else {
        s2
    }
}

} // verus!

verus! {

/// The style a `charPr` fragment declares: bold and italic by the presence
/// of their elements, underline by a `type` other than `NONE`, strikeout by
/// a `shape` other than `NONE`.
pub open spec fn spec_style_of_fragment(f: Seq<char>) -> CharStyle {
    CharStyle {
        bold: spec_find_from(f, "<hh:bold"@, 0) is Some,
        italic: spec_find_from(f, "<hh:italic"@, 0) is Some,
        underline: match spec_find_from(f, "<hh:underline "@, 0) {
            Some(u) => match spec_attr(f.skip(u), "type=\""@) {
                Some(v) => v != "NONE"@,
                None => false,
            },
            None => false,
        },
        strikeout: match spec_find_from(f, "<hh:strikeout "@, 0) {
            Some(u) => match spec_attr(f.skip(u), "shape=\""@) {
                Some(v) => v != "NONE"@,
                None => false,
            },
            None => false,
        },
    }
}

/// The style table `header.xml` defines from position `pos` on: each
/// `charPr` fragment's style under its numeric id.
pub open spec fn spec_char_props(xml: Seq<char>, pos: int, m: Map<u32, CharStyle>) -> Map<
    u32,
    CharStyle,
>
    decreases xml.len() - pos,
    when 0 <= pos
    via spec_char_props_decreases
{
    match spec_find_from(xml, "<hh:charPr "@, pos) {
        Some(start) => {
            match spec_find_from(xml, "</hh:charPr>"@, start) {
                Some(endp) => {
                    let frag = xml.subrange(start, endp + 12);
                    let m2 = match spec_attr(frag, "id=\""@) {
                        Some(ids) => match spec_parse_dec(ids, u32::MAX as int) {
                            Some(v) => m.insert((v as u32), spec_style_of_fragment(frag)),
                            None => m,
                        },
                        None => m,
                    };
                    spec_char_props(xml, endp + 12, m2)
                },
                None => m,
            }
        },
        None => m,
    }
}

#[via_fn]
proof fn spec_char_props_decreases(xml: Seq<char>, pos: int, m: Map<u32, CharStyle>) {
    match spec_find_from(xml, "<hh:charPr "@, pos) {
        Some(start) => {
            crate::strings::lemma_find_in_range(xml, "<hh:charPr "@, pos, start);
            match spec_find_from(xml, "</hh:charPr>"@, start) {
                Some(endp) => {
                    crate::strings::lemma_find_in_range(xml, "</hh:charPr>"@, start, endp);
                    reveal_strlit("<hh:charPr ");
                    reveal_strlit("</hh:charPr>");
                },
                None => {},
            }
        },
        None => {},
    }
}

/// Reads the character style definitions out of `header.xml` markup.
pub fn parse_char_properties(header_xml: &str) -> (r: HashMap<u32, CharStyle>)
    ensures
        r@ == spec_char_props(header_xml@, 0, Map::empty()),
{
    let xl = header_xml.unicode_len();
    let mut styles: HashMap<u32, CharStyle> = HashMap::new();
    let mut pos: usize = 0;
    let mut stop = false;
    while !stop
        invariant
            xl == header_xml@.len(),
            pos <= xl,
            !stop ==> spec_char_props(header_xml@, 0, Map::empty()) == spec_char_props(
                header_xml@,
                pos as int,
                styles@,
            ),
            stop ==> styles@ == spec_char_props(header_xml@, 0, Map::empty()),
        decreases xl - pos + (if stop {
            0int
        } else {
            1int
        }),
    {
        let ghost pos0 = pos as int;
        match find_sub_from(header_xml, "<hh:charPr ", pos) {
            Some(start) => {
                proof {
                    reveal_strlit("<hh:charPr ");
                    crate::strings::lemma_find_in_range(
                        header_xml@,
                        "<hh:charPr "@,
                        pos as int,
                        start as int,
                    );
                }
                match find_sub_from(header_xml, "</hh:charPr>", start) {
                    Some(endp) => {
                        proof {
                            reveal_strlit("</hh:charPr>");
                            crate::strings::lemma_find_in_range(
                                header_xml@,
                                "</hh:charPr>"@,
                                start as int,
                                endp as int,
                            );
                        }
                        let frag_str = header_xml.substring_char(start, endp + 12);
                        proof {
                            assert(frag_str@ =~= header_xml@.subrange(start as int, endp + 12));
                            reveal_strlit("id");
                            reveal_strlit("id=\"");
                            reveal_strlit("=\"");
                            assert("id"@ + "=\""@ =~= "id=\""@);
                        }
                        let style = fragment_style(frag_str);
                        match extract_attr(frag_str, "id") {
                            Some(ids) => {
                                match parse_u32_dec(ids.as_str()) {
                                    Some(idn) => {
                                        styles.insert(idn, style);
                                    },
                                    None => {},
                                }
                            },
                            None => {},
                        }
                        pos = endp + 12;
                    },
                    None => {
                        stop = true;
                    },
                }
            },
            None => {
                stop = true;
            },
        }
    }
    styles
}

fn fragment_style(frag: &str) -> (r: CharStyle)
    ensures
        r == spec_style_of_fragment(frag@),
{
    let fl = frag.unicode_len();
    let bold = contains_sub(frag, "<hh:bold");
    let italic = contains_sub(frag, "<hh:italic");
    let underline: bool;
    match find_sub_from(frag, "<hh:underline ", 0) {
        Some(u) => {
            proof {
                reveal_strlit("<hh:underline ");
                crate::strings::lemma_find_in_range(frag@, "<hh:underline "@, 0, u as int);
            }
            let tail = frag.substring_char(u, fl);
            proof {
                assert(tail@ =~= frag@.skip(u as int));
                reveal_strlit("type");
                reveal_strlit("type=\"");
                reveal_strlit("=\"");
                assert("type"@ + "=\""@ =~= "type=\""@);
            }
            match extract_attr(tail, "type") {
                Some(v) => {
                    underline = !str_eq(v.as_str(), "NONE");
                },
                None => {
                    underline = false;
                },
            }
        },
        None => {
            underline = false;
        },
    }
    let strikeout: bool;
    match find_sub_from(frag, "<hh:strikeout ", 0) {
        Some(u) => {
            proof {
                reveal_strlit("<hh:strikeout ");
                crate::strings::lemma_find_in_range(frag@, "<hh:strikeout "@, 0, u as int);
            }
            let tail = frag.substring_char(u, fl);
            proof {
                assert(tail@ =~= frag@.skip(u as int));
                reveal_strlit("shape");
                reveal_strlit("shape=\"");
                reveal_strlit("=\"");
                assert("shape"@ + "=\""@ =~= "shape=\""@);
            }
            match extract_attr(tail, "shape") {
                Some(v) => {
                    strikeout = !str_eq(v.as_str(), "NONE");
                },
                None => {
                    strikeout = false;
                },
            }
        },
        None => {
            strikeout = false;
        },
    }
    CharStyle { bold, italic, underline, strikeout }
}

} // verus!

verus! {

/// One rewrite of the tag remover: the first opening tag and everything up
/// to its self-closing mark — or, where no self-closing mark follows, up to
/// one character past its closing tag — exchanged for a single space.
pub open spec fn spec_remove_step(s: Seq<char>, open: Seq<char>, close: Seq<char>) -> Option<
    Seq<char>,
> {
    match spec_find_from(s, open, 0) {
        Some(start) => match spec_find_from(s, "/>"@, start) {
            Some(j) => Some(s.subrange(0, start) + seq![' '] + s.skip(j + 2)),
            None => match spec_find_from(s, seq!['>'], start) {
                Some(g) => match spec_find_from(s, close, g) {
                    Some(c) => {
                        let cut = if c + close.len() + 1 <= s.len() {
                            c + close.len() + 1
                        } else {
                            s.len() as int
                        };
                        Some(s.subrange(0, start) + seq![' '] + s.skip(cut))
                    },
                    None => None,
                },
                None => None,
            },
        },
        None => None,
    }
}

/// The text with every such tag removed: rewrites are applied until none
/// applies or one fails to shrink the text.
pub open spec fn spec_remove_tags(s: Seq<char>, open: Seq<char>, close: Seq<char>) -> Seq<char>
    decreases s.len(),
    when true
    via spec_remove_tags_decreases
{
    match spec_remove_step(s, open, close) {
        Some(s2) => if s2.len() < s.len() {
            spec_remove_tags(s2, open, close)
        } else {
            s2
        },
        None => s,
    }
}

#[via_fn]
proof fn spec_remove_tags_decreases(s: Seq<char>, open: Seq<char>, close: Seq<char>) {
}

fn remove_step(s: &str, open: &str, close: &str) -> (r: Option<String>)
    ensures
        match r {
            Some(s2) => spec_remove_step(s@, open@, close@) == Some(s2@),
            None => spec_remove_step(s@, open@, close@) is None,
        },
{
    let len = s.unicode_len();
    proof {
        reveal_strlit("/>");
        reveal_strlit(">");
        assert(">"@ =~= seq!['>']);
        reveal_strlit(" ");
        assert(" "@ =~= seq![' ']);
    }
    match find_sub_from(s, open, 0) {
        Some(start) => {
            proof {
                crate::strings::lemma_find_in_range(s@, open@, 0, start as int);
            }
            match find_sub_from(s, "/>", start) {
                Some(j) => {
                    proof {
                        crate::strings::lemma_find_in_range(s@, "/>"@, start as int, j as int);
                    }
                    let mut out = String::from_str(s.substring_char(0, start));
                    out.append(" ");
                    out.append(s.substring_char(j + 2, len));
                    proof {
                        assert(out@ =~= s@.subrange(0, start as int) + seq![' '] + s@.skip(
                            j + 2,
                        ));
                    }
                    Some(out)
                },
                None => {
                    match find_sub_from(s, ">", start) {
                        Some(g) => {
                            proof {
                                crate::strings::lemma_find_in_range(s@, ">"@, start as int, g as int);
                            }
                            match find_sub_from(s, close, g) {
                                Some(c) => {
                                    proof {
                                        crate::strings::lemma_find_in_range(
                                            s@,
                                            close@,
                                            g as int,
                                            c as int,
                                        );
                                    }
                                    let close_len = close.unicode_len();
                                    let rem = len - c - close_len;
                                    let cut = if rem >= 1 {
                                        c + close_len + 1
                                    } else {
                                        len
                                    };
                                    let mut out = String::from_str(s.substring_char(0, start));
                                    out.append(" ");
                                    out.append(s.substring_char(cut, len));
                                    proof {
                                        assert(out@ =~= s@.subrange(0, start as int) + seq![' ']
                                            + s@.skip(cut as int));
                                    }
                                    Some(out)
                                },
                                None => None,
                            }
                        },
                        None => None,
                    }
                },
            }
        },
        None => None,
    }
}

fn remove_tags_from(s: String, open: &str, close: &str) -> (r: String)
    ensures
        r@ == spec_remove_tags(s@, open@, close@),
    decreases s@.len(),
{
    match remove_step(s.as_str(), open, close) {
        Some(s2) => {
            if s2.as_str().unicode_len() < s.as_str().unicode_len() {
                remove_tags_from(s2, open, close)
            } else {
                s2
            }
        },
        None => s,
    }
}

/// Removes every element of the named tag from the text, each occurrence
/// leaving a single space in its place.
pub fn remove_xml_tags(text: &str, tag_name: &str) -> (r: String)
    ensures
        r@ == spec_remove_tags(
            text@,
            seq!['<'] + tag_name@ + seq![' '],
            seq!['<', '/'] + tag_name@ + seq!['>'],
        ),
{
    proof {
        reveal_strlit("<");
        reveal_strlit(" ");
        reveal_strlit("</");
        reveal_strlit(">");
        assert("<"@ =~= seq!['<']);
        assert(" "@ =~= seq![' ']);
        assert("</"@ =~= seq!['<', '/']);
        assert(">"@ =~= seq!['>']);
    }
    let mut open = String::from_str("<");
    open.append(tag_name);
    open.append(" ");
    let mut close = String::from_str("</");
    close.append(tag_name);
    close.append(">");
    remove_tags_from(String::from_str(text), open.as_str(), close.as_str())
}

} // verus!
