//! The DOCX document model and its markdown rendering: styled text runs,
//! paragraphs with heading and list styles, tables and metadata. The XML and
//! archive reading that fills this model lives outside the library.

use crate::strings::{push_dec, push_repeat, spec_dec, spec_join, spec_repeat, spec_replace,
    spec_trim, str_eq, replace_sub, trim_str};
use vstd::prelude::*;

verus! {

/// A run of text sharing one set of character attributes.
#[derive(Debug, Clone)]
pub struct TextRun {
    pub text: String,
    pub bold: bool,
    pub italic: bool,
    pub underline: bool,
    pub strike: bool,
    pub font_size: Option<u32>,
    pub font_name: Option<String>,
    pub color: Option<String>,
}

impl Default for TextRun {
    /// An empty, unformatted run.
    fn default() -> (r: Self)
        ensures
            r.text@ == Seq::<char>::empty(),
            !r.bold && !r.italic && !r.underline && !r.strike,
            r.font_size is None && r.font_name is None && r.color is None,
    {
        TextRun {
            text: String::new(),
            bold: false,
            italic: false,
            underline: false,
            strike: false,
            font_size: None,
            font_name: None,
            color: None,
        }
    }
}

/// The markdown rendering of a run: bold and italic stars first, then
/// strike markers around the whole.
pub open spec fn spec_run_md(t: Seq<char>, bold: bool, italic: bool, strike: bool) -> Seq<char> {
    let s1 = if bold && italic {
        seq!['*', '*', '*'] + t + seq!['*', '*', '*']
    } else if bold {
        seq!['*', '*'] + t + seq!['*', '*']
    } else if italic {
        seq!['*'] + t + seq!['*']
    } else {
        t
    };
    if strike {
        seq!['~', '~'] + s1 + seq!['~', '~']
    } else {
        s1
    }
}

impl TextRun {
    /// Renders the run as markdown.
    pub fn to_markdown(&self) -> (r: String)
        ensures
            r@ == spec_run_md(self.text@, self.bold, self.italic, self.strike),
    {
        proof {
            reveal_strlit("***");
            reveal_strlit("**");
            reveal_strlit("*");
            reveal_strlit("~~");
            assert("***"@ =~= seq!['*', '*', '*']);
            assert("**"@ =~= seq!['*', '*']);
            assert("*"@ =~= seq!['*']);
            assert("~~"@ =~= seq!['~', '~']);
        }
        let mut out = String::new();
        if self.bold && self.italic {
            out.append("***");
            out.append(self.text.as_str());
            out.append("***");
        } else if self.bold {
            out.append("**");
            out.append(self.text.as_str());
            out.append("**");
        } else if self.italic {
            out.append("*");
            out.append(self.text.as_str());
            out.append("*");
        } else {
            out.append(self.text.as_str());
        }
        if self.strike {
            let mut wrapped = String::from_str("~~");
            wrapped.append(out.as_str());
            wrapped.append("~~");
            proof {
                assert(wrapped@ =~= spec_run_md(self.text@, self.bold, self.italic, self.strike));
            }
            wrapped
        } else {
            proof {
                assert(out@ =~= spec_run_md(self.text@, self.bold, self.italic, self.strike));
            }
            out
        }
    }
}

/// A paragraph: its runs, an optional named style, and list placement.
#[derive(Debug, Clone)]
pub struct Paragraph {
    pub runs: Vec<TextRun>,
    pub style: Option<String>,
    pub alignment: Option<String>,
    pub indent_level: u32,
    pub is_list_item: bool,
    pub list_type: Option<String>,
}

impl Default for Paragraph {
    /// An empty body paragraph.
    fn default() -> (r: Self)
        ensures
            r.runs@.len() == 0,
            r.style is None && r.alignment is None && r.list_type is None,
            r.indent_level == 0 && !r.is_list_item,
    {
        Paragraph {
            runs: Vec::new(),
            style: None,
            alignment: None,
            indent_level: 0,
            is_list_item: false,
            list_type: None,
        }
    }
}

/// The plain text of runs from `k` on, concatenated.
pub open spec fn spec_runs_text(rs: Seq<TextRun>, k: int) -> Seq<char>
    decreases rs.len() - k,
    when 0 <= k
{
    if k >= rs.len() {
        Seq::empty()
    } else {
        rs[k].text@ + spec_runs_text(rs, k + 1)
    }
}

/// The markdown of runs from `k` on, concatenated.
pub open spec fn spec_runs_md(rs: Seq<TextRun>, k: int) -> Seq<char>
    decreases rs.len() - k,
    when 0 <= k
{
    if k >= rs.len() {
        Seq::empty()
    } else {
        spec_run_md(rs[k].text@, rs[k].bold, rs[k].italic, rs[k].strike) + spec_runs_md(rs, k + 1)
    }
}

/// The markdown of a paragraph: nothing where its content trims to nothing;
/// a heading prefix for the heading and title styles; a bullet or numbered
/// list marker, indented two spaces per level, for list items; else the
/// content alone.
pub open spec fn spec_para_md(p: Paragraph) -> Seq<char> {
    let content = spec_runs_md(p.runs@, 0);
    if spec_trim(content).len() == 0 {
        Seq::empty()
    } else {
        match p.style {
            Some(st) => {
                if st@ == "Heading1"@ || st@ == "1"@ || st@ == "Title"@ {
                    "# "@ + content
                } else if st@ == "Heading2"@ || st@ == "2"@ || st@ == "Subtitle"@ {
                    "## "@ + content
                } else if st@ == "Heading3"@ || st@ == "3"@ {
                    "### "@ + content
                } else if st@ == "Heading4"@ || st@ == "4"@ {
                    "#### "@ + content
                } else {
                    spec_para_body(p, content)
                }
            },
            None => spec_para_body(p, content),
        }
    }
}

/// The markdown of a non-heading paragraph body.
pub open spec fn spec_para_body(p: Paragraph, content: Seq<char>) -> Seq<char> {
    if p.is_list_item {
        let indent = spec_repeat("  "@, p.indent_level as int);
        match p.list_type {
            Some(lt) => if lt@ == "number"@ {
                indent + "1. "@ + content
            } else {
                indent + "- "@ + content
            },
            None => indent + "- "@ + content,
        }
    } else {
        content
    }
}

impl Paragraph {
    /// The paragraph's plain text: its runs concatenated.
    pub fn text(&self) -> (r: String)
        ensures
            r@ == spec_runs_text(self.runs@, 0),
    {
        runs_text(&self.runs, 0)
    }

    /// Renders the paragraph as markdown: heading styles become heading
    /// prefixes, list items get their marker and indent, and a paragraph
    /// whose content trims to nothing renders empty.
    pub fn to_markdown(&self) -> (r: String)
        ensures
            r@ == spec_para_md(*self),
    {
        let content = runs_md(&self.runs, 0);
        let trimmed = trim_str(content.as_str());
        if trimmed.as_str().unicode_len() == 0 {
            return String::new();
        }
        let heading: Option<&str> = match &self.style {
            Some(st) => {
                if str_eq(st.as_str(), "Heading1") || str_eq(st.as_str(), "1") || str_eq(
                    st.as_str(),
                    "Title",
                ) {
                    Some("# ")
                } else if str_eq(st.as_str(), "Heading2") || str_eq(st.as_str(), "2") || str_eq(
                    st.as_str(),
                    "Subtitle",
                ) {
                    Some("## ")
                } else if str_eq(st.as_str(), "Heading3") || str_eq(st.as_str(), "3") {
                    Some("### ")
                } else if str_eq(st.as_str(), "Heading4") || str_eq(st.as_str(), "4") {
                    Some("#### ")
                } else {
                    None
                }
            },
            None => None,
        };
        match heading {
            Some(prefix) => {
                let mut out = String::from_str(prefix);
                out.append(content.as_str());
                out
            },
            None => {
                if self.is_list_item {
                    let mut out = String::new();
                    push_repeat(&mut out, "  ", self.indent_level as usize);
                    let numbered = match &self.list_type {
                        Some(lt) => str_eq(lt.as_str(), "number"),
                        None => false,
                    };
                    if numbered {
                        out.append("1. ");
                    } else {
                        out.append("- ");
                    }
                    out.append(content.as_str());
                    proof {
                        assert(Seq::<char>::empty() + spec_repeat("  "@, self.indent_level as int)
                            =~= spec_repeat("  "@, self.indent_level as int));
                        assert(out@ =~= spec_para_md(*self));
                    }
                    out
                } else {
                    content
                }
            },
        }
    }
}

fn runs_text(rs: &Vec<TextRun>, k: usize) -> (r: String)
    requires
        k <= rs@.len(),
    ensures
        r@ == spec_runs_text(rs@, k as int),
    decreases rs@.len() - k,
{
    if k >= rs.len() {
        String::new()
    } else {
        let mut out = rs[k].text.clone();
        let rest = runs_text(rs, k + 1);
        out.append(rest.as_str());
        out
    }
}

fn runs_md(rs: &Vec<TextRun>, k: usize) -> (r: String)
    requires
        k <= rs@.len(),
    ensures
        r@ == spec_runs_md(rs@, k as int),
    decreases rs@.len() - k,
{
    if k >= rs.len() {
        String::new()
    } else {
        let mut out = rs[k].to_markdown();
        let rest = runs_md(rs, k + 1);
        out.append(rest.as_str());
        out
    }
}

/// A table cell with its merged-cell spans.
#[derive(Debug, Clone)]
pub struct TableCell {
    pub content: String,
    pub col_span: u32,
    pub row_span: u32,
}

impl Default for TableCell {
    /// An empty unmerged cell.
    fn default() -> (r: Self)
        ensures
            r.content@ == Seq::<char>::empty(),
            r.col_span == 1 && r.row_span == 1,
    {
        TableCell { content: String::new(), col_span: 1, row_span: 1 }
    }
}

/// A table: its rows of cells, and whether the first row is a header.
#[derive(Debug, Clone)]
pub struct DocxTable {
    pub rows: Vec<Vec<TableCell>>,
    pub has_header: bool,
}

/// A cell as it appears in the markdown table: pipes escaped and newlines
/// flattened.
pub open spec fn spec_dx_cell(c: Seq<char>) -> Seq<char> {
    spec_replace(spec_replace(c, seq!['|'], seq!['\\', '|']), seq!['\n'], seq![' '])
}

/// The cleaned texts of one row's cells.
pub open spec fn spec_dx_row(row: Seq<TableCell>, k: int) -> Seq<Seq<char>>
    decreases row.len() - k,
    when 0 <= k
{
    if k >= row.len() {
        Seq::empty()
    } else {
        seq![spec_dx_cell(row[k].content@)] + spec_dx_row(row, k + 1)
    }
}

/// `n` separator cells.
pub open spec fn spec_dx_dashes(n: int) -> Seq<Seq<char>>
    decreases n,
    when n >= 0
{
    if n <= 0 {
        Seq::empty()
    } else {
        spec_dx_dashes(n - 1).push(seq!['-', '-', '-'])
    }
}

/// The markdown lines of the table's rows from `i` on, with a separator
/// line sized to the first row after it.
pub open spec fn spec_dx_lines(g: Seq<Vec<TableCell>>, i: int) -> Seq<Seq<char>>
    decreases g.len() - i,
    when 0 <= i
{
    if i >= g.len() {
        Seq::empty()
    } else {
        let cells = spec_dx_row(g[i]@, 0);
        let line = seq!['|', ' '] + spec_join(cells, seq![' ', '|', ' ']) + seq![' ', '|'];
        let sep: Seq<Seq<char>> = if i == 0 {
            seq![
                seq!['|', ' '] + spec_join(spec_dx_dashes(g[i]@.len() as int), seq![' ', '|', ' '])
                    + seq![' ', '|'],
            ]
        } else {
            Seq::empty()
        };
        seq![line] + sep + spec_dx_lines(g, i + 1)
    }
}

/// The markdown of the whole table: its lines joined by newlines; a table
/// without rows renders empty.
pub open spec fn spec_dx_md(g: Seq<Vec<TableCell>>) -> Seq<char> {
    if g.len() == 0 {
        Seq::empty()
    } else {
        spec_join(spec_dx_lines(g, 0), seq!['\n'])
    }
}

fn dx_cell(c: &str) -> (r: String)
    ensures
        r@ == spec_dx_cell(c@),
{
    proof {
        reveal_strlit("|");
        reveal_strlit("\\|");
        reveal_strlit("\n");
        reveal_strlit(" ");
        assert("|"@ =~= seq!['|']);
        assert("\\|"@ =~= seq!['\\', '|']);
        assert("\n"@ =~= seq!['\n']);
        assert(" "@ =~= seq![' ']);
    }
    let s1 = replace_sub(c, "|", "\\|");
    replace_sub(s1.as_str(), "\n", " ")
}

fn dx_row(row: &Vec<TableCell>, k: usize) -> (r: Vec<String>)
    requires
        k <= row@.len(),
    ensures
        crate::table::strs_view(r@) == spec_dx_row(row@, k as int),
    decreases row@.len() - k,
{
    if k >= row.len() {
        let r: Vec<String> = Vec::new();
        proof {
            assert(crate::table::strs_view(r@) =~= spec_dx_row(row@, k as int));
        }
        r
    } else {
        let first = dx_cell(row[k].content.as_str());
        let rest = dx_row(row, k + 1);
        let mut out: Vec<String> = Vec::new();
        out.push(first);
        let mut i: usize = 0;
        let ghost base = crate::table::strs_view(out@);
        while i < rest.len()
            invariant
                i <= rest@.len(),
                crate::table::strs_view(out@) =~= base + crate::table::strs_view(rest@).take(
                    i as int,
                ),
            decreases rest@.len() - i,
        {
            let ghost po = out@;
            out.push(rest[i].clone());
            proof {
                assert(crate::table::strs_view(out@) =~= crate::table::strs_view(po).push(
                    rest@[i as int]@,
                ));
                assert(crate::table::strs_view(rest@).take(i + 1) =~= crate::table::strs_view(
                    rest@,
                ).take(i as int).push(rest@[i as int]@));
            }
            i += 1;
        }
        proof {
            assert(crate::table::strs_view(rest@).take(rest@.len() as int) =~= crate::table::strs_view(
                rest@,
            ));
            assert(crate::table::strs_view(out@) =~= spec_dx_row(row@, k as int));
        }
        out
    }
}

fn dx_dashes(n: usize) -> (r: Vec<String>)
    ensures
        crate::table::strs_view(r@) == spec_dx_dashes(n as int),
    decreases n,
{
    if n == 0 {
        let r: Vec<String> = Vec::new();
        proof {
            assert(crate::table::strs_view(r@) =~= spec_dx_dashes(0));
        }
        r
    } else {
        let mut r = dx_dashes(n - 1);
        r.push(String::from_str("---"));
        proof {
            reveal_strlit("---");
            assert("---"@ =~= seq!['-', '-', '-']);
            assert(crate::table::strs_view(r@) =~= spec_dx_dashes(n as int));
        }
        r
    }
}

fn dx_line_of(contents: &Vec<String>) -> (r: String)
    ensures
        r@ == seq!['|', ' '] + spec_join(
            crate::table::strs_view(contents@),
            seq![' ', '|', ' '],
        ) + seq![' ', '|'],
{
    proof {
        reveal_strlit("| ");
        reveal_strlit(" | ");
        reveal_strlit(" |");
        assert("| "@ =~= seq!['|', ' ']);
        assert(" | "@ =~= seq![' ', '|', ' ']);
        assert(" |"@ =~= seq![' ', '|']);
    }
    let mut line = String::from_str("| ");
    let joined = crate::strings::join_strings(contents, " | ");
    line.append(joined.as_str());
    line.append(" |");
    line
}

fn dx_lines(g: &Vec<Vec<TableCell>>, i: usize) -> (r: Vec<String>)
    requires
        i <= g@.len(),
    ensures
        crate::table::strs_view(r@) == spec_dx_lines(g@, i as int),
    decreases g@.len() - i,
{
    if i >= g.len() {
        let r: Vec<String> = Vec::new();
        proof {
            assert(crate::table::strs_view(r@) =~= spec_dx_lines(g@, i as int));
        }
        r
    } else {
        let cells = dx_row(&g[i], 0);
        let line = dx_line_of(&cells);
        let rest = dx_lines(g, i + 1);
        let mut out: Vec<String> = Vec::new();
        out.push(line);
        if i == 0 {
            let sep_cells = dx_dashes(g[i].len());
            let sep = dx_line_of(&sep_cells);
            out.push(sep);
        }
        let mut k: usize = 0;
        let ghost base = crate::table::strs_view(out@);
        while k < rest.len()
            invariant
                k <= rest@.len(),
                crate::table::strs_view(out@) =~= base + crate::table::strs_view(rest@).take(
                    k as int,
                ),
            decreases rest@.len() - k,
        {
            let ghost po = out@;
            out.push(rest[k].clone());
            proof {
                assert(crate::table::strs_view(out@) =~= crate::table::strs_view(po).push(
                    rest@[k as int]@,
                ));
                assert(crate::table::strs_view(rest@).take(k + 1) =~= crate::table::strs_view(
                    rest@,
                ).take(k as int).push(rest@[k as int]@));
            }
            k += 1;
        }
        proof {
            assert(crate::table::strs_view(rest@).take(rest@.len() as int) =~= crate::table::strs_view(
                rest@,
            ));
            assert(crate::table::strs_view(out@) =~= spec_dx_lines(g@, i as int));
        }
        out
    }
}

impl DocxTable {
    /// Renders the table as markdown, cells escaped and flattened, with a
    /// separator line after the first row.
    pub fn to_markdown(&self) -> (r: String)
        ensures
            r@ == spec_dx_md(self.rows@),
    {
        if self.rows.len() == 0 {
            return String::new();
        }
        let lines = dx_lines(&self.rows, 0);
        let joined = crate::strings::join_strings(&lines, "\n");
        proof {
            reveal_strlit("\n");
            assert("\n"@ =~= seq!['\n']);
            assert(crate::table::strs_view(lines@) == lines@.map_values(|x: String| x@));
        }
        joined
    }
}

/// An image reference inside the document.
#[derive(Debug, Clone)]
pub struct DocxImage {
    pub id: String,
    pub filename: String,
    pub path: String,
    pub alt_text: Option<String>,
    pub width: Option<u32>,
    pub height: Option<u32>,
    pub data: Option<Vec<u8>>,
}

/// Document properties from the core and app metadata parts.
#[derive(Debug, Clone)]
pub struct DocxMetadata {
    pub title: Option<String>,
    pub author: Option<String>,
    pub subject: Option<String>,
    pub created: Option<String>,
    pub modified: Option<String>,
    pub revision: Option<u32>,
    pub word_count: Option<u32>,
    pub page_count: Option<u32>,
}

impl Default for DocxMetadata {
    /// Metadata with every property absent.
    fn default() -> (r: Self)
        ensures
            r.title is None && r.author is None && r.subject is None,
            r.created is None && r.modified is None,
            r.revision is None && r.word_count is None && r.page_count is None,
    {
        DocxMetadata {
            title: None,
            author: None,
            subject: None,
            created: None,
            modified: None,
            revision: None,
            word_count: None,
            page_count: None,
        }
    }
}

/// A parsed document: its paragraphs, tables, images and metadata.
#[derive(Debug)]
pub struct DocxDocument {
    pub paragraphs: Vec<Paragraph>,
    pub tables: Vec<DocxTable>,
    pub images: Vec<DocxImage>,
    pub metadata: DocxMetadata,
}

/// The plain texts of paragraphs from `i` on.
pub open spec fn spec_doc_texts(ps: Seq<Paragraph>, i: int) -> Seq<Seq<char>>
    decreases ps.len() - i,
    when 0 <= i
{
    if i >= ps.len() {
        Seq::empty()
    } else {
        seq![spec_runs_text(ps[i].runs@, 0)] + spec_doc_texts(ps, i + 1)
    }
}

/// The nonempty markdown renderings of paragraphs from `i` on.
pub open spec fn spec_doc_mds(ps: Seq<Paragraph>, i: int) -> Seq<Seq<char>>
    decreases ps.len() - i,
    when 0 <= i
{
    if i >= ps.len() {
        Seq::empty()
    } else {
        let md = spec_para_md(ps[i]);
        let rest = spec_doc_mds(ps, i + 1);
        if md.len() > 0 {
            seq![md] + rest
        } else {
            rest
        }
    }
}

impl DocxDocument {
    /// The document's plain text: its paragraphs joined by newlines.
    pub fn text(&self) -> (r: String)
        ensures
            r@ == spec_join(spec_doc_texts(self.paragraphs@, 0), seq!['\n']),
    {
        let mut parts: Vec<String> = Vec::new();
        let mut i: usize = 0;
        proof {
            assert(parts@.map_values(|s: String| s@) + spec_doc_texts(self.paragraphs@, 0)
                =~= spec_doc_texts(self.paragraphs@, 0));
        }
        while i < self.paragraphs.len()
            invariant
                i <= self.paragraphs@.len(),
                spec_doc_texts(self.paragraphs@, 0) == parts@.map_values(|s: String| s@)
                    + spec_doc_texts(self.paragraphs@, i as int),
            decreases self.paragraphs@.len() - i,
        {
            let ghost pre = parts@.map_values(|s: String| s@);
            let t = self.paragraphs[i].text();
            parts.push(t);
            proof {
                assert(parts@.map_values(|s: String| s@) =~= pre.push(
                    spec_runs_text(self.paragraphs@[i as int].runs@, 0),
                ));
            }
            i += 1;
        }
        proof {
            assert(spec_doc_texts(self.paragraphs@, i as int) =~= Seq::<Seq<char>>::empty());
            assert(parts@.map_values(|s: String| s@) + Seq::<Seq<char>>::empty()
                =~= parts@.map_values(|s: String| s@));
        }
        let joined = crate::strings::join_strings(&parts, "\n");
        proof {
            reveal_strlit("\n");
            assert("\n"@ =~= seq!['\n']);
        }
        joined
    }

    /// The document as markdown: its paragraphs' nonempty renderings joined
    /// by blank lines.
    pub fn to_markdown(&self) -> (r: String)
        ensures
            r@ == spec_join(spec_doc_mds(self.paragraphs@, 0), seq!['\n', '\n']),
    {
        let mut parts: Vec<String> = Vec::new();
        let mut i: usize = 0;
        proof {
            assert(parts@.map_values(|s: String| s@) + spec_doc_mds(self.paragraphs@, 0)
                =~= spec_doc_mds(self.paragraphs@, 0));
        }
        while i < self.paragraphs.len()
            invariant
                i <= self.paragraphs@.len(),
                spec_doc_mds(self.paragraphs@, 0) == parts@.map_values(|s: String| s@)
                    + spec_doc_mds(self.paragraphs@, i as int),
            decreases self.paragraphs@.len() - i,
        {
            let ghost pre = parts@.map_values(|s: String| s@);
            let md = self.paragraphs[i].to_markdown();
            if md.as_str().unicode_len() > 0 {
                parts.push(md);
                proof {
                    assert(parts@.map_values(|s: String| s@) =~= pre.push(
                        spec_para_md(self.paragraphs@[i as int]),
                    ));
                }
            }
            i += 1;
        }
        proof {
            assert(spec_doc_mds(self.paragraphs@, i as int) =~= Seq::<Seq<char>>::empty());
            assert(parts@.map_values(|s: String| s@) + Seq::<Seq<char>>::empty()
                =~= parts@.map_values(|s: String| s@));
        }
        let joined = crate::strings::join_strings(&parts, "\n\n");
        proof {
            reveal_strlit("\n\n");
            assert("\n\n"@ =~= seq!['\n', '\n']);
        }
        joined
    }
}

} // verus!

verus! {

/// A quoted front-matter value: double quotes escaped.
pub open spec fn spec_quoted(s: Seq<char>) -> Seq<char> {
    spec_replace(s, seq!['"'], seq!['\\', '"'])
}

/// The MDX front matter of a document: optional title and author lines, the
/// source file name, and the format marker.
pub open spec fn spec_dx_front(
    title: Option<String>,
    author: Option<String>,
    source: Seq<char>,
) -> Seq<char> {
    let t: Seq<char> = match title {
        Some(ti) => "title: \""@ + spec_quoted(ti@) + "\"\n"@,
        None => Seq::empty(),
    };
    let a: Seq<char> = match author {
        Some(au) => "author: \""@ + spec_quoted(au@) + "\"\n"@,
        None => Seq::empty(),
    };
    "---\n"@ + t + a + "source: \""@ + source + "\"\n"@ + "format: docx\n"@ + "---\n\n"@
}

/// The table appendix: each table preceded by a numbered comment marker.
pub open spec fn spec_dx_tables(ts: Seq<DocxTable>, i: int) -> Seq<char>
    decreases ts.len() - i,
    when 0 <= i
{
    if i >= ts.len() {
        Seq::empty()
    } else {
        "\n\n<!-- Table "@ + spec_dec(i + 1) + " -->\n"@ + spec_dx_md(ts[i].rows@)
            + spec_dx_tables(ts, i + 1)
    }
}

fn quoted(s: &str) -> (r: String)
    ensures
        r@ == spec_quoted(s@),
{
    proof {
        reveal_strlit("\"");
        reveal_strlit("\\\"");
        assert("\""@ =~= seq!['"']);
        assert("\\\""@ =~= seq!['\\', '"']);
    }
    replace_sub(s, "\"", "\\\"")
}

fn dx_tables_md(ts: &Vec<DocxTable>, i: usize) -> (r: String)
    requires
        i <= ts@.len(),
    ensures
        r@ == spec_dx_tables(ts@, i as int),
    decreases ts@.len() - i,
{
    if i >= ts.len() {
        String::new()
    } else {
        let mut out = String::from_str("\n\n<!-- Table ");
        push_dec(&mut out, (i as u64) + 1);
        out.append(" -->\n");
        let md = ts[i].to_markdown();
        out.append(md.as_str());
        let rest = dx_tables_md(ts, i + 1);
        out.append(rest.as_str());
        proof {
            reveal_strlit("\n\n<!-- Table ");
            reveal_strlit(" -->\n");
            assert("\n\n<!-- Table "@ =~= seq![
                '\n', '\n', '<', '!', '-', '-', ' ', 'T', 'a', 'b', 'l', 'e', ' ',
            ]);
            assert(out@ =~= spec_dx_tables(ts@, i as int));
        }
        out
    }
}

impl DocxDocument {
    /// Renders the document as MDX: front matter naming the source file,
    /// the markdown content, then each table under a numbered marker.
    pub fn to_mdx(&self, source_filename: &str) -> (r: String)
        ensures
            r@ == spec_dx_front(self.metadata.title, self.metadata.author, source_filename@)
                + spec_join(spec_doc_mds(self.paragraphs@, 0), seq!['\n', '\n']) + spec_dx_tables(
                self.tables@,
                0,
            ),
    {
        let mut out = String::from_str("---\n");
        match &self.metadata.title {
            Some(title) => {
                out.append("title: \"");
                let q = quoted(title.as_str());
                out.append(q.as_str());
                out.append("\"\n");
            },
            None => {},
        }
        match &self.metadata.author {
            Some(author) => {
                out.append("author: \"");
                let q = quoted(author.as_str());
                out.append(q.as_str());
                out.append("\"\n");
            },
            None => {},
        }
        out.append("source: \"");
        out.append(source_filename);
        out.append("\"\n");
        out.append("format: docx\n");
        out.append("---\n\n");
        let body = self.to_markdown();
        out.append(body.as_str());
        let tables = dx_tables_md(&self.tables, 0);
        out.append(tables.as_str());
        out
    }
}

} // verus!
