//! Table reconstruction: the `TABLE` record gives the grid size, each cell's
//! `LIST_HEADER` gives its merged-cell span, and the cell texts arrive as
//! `PARA_TEXT` records; a flat cell list is regrouped row-major.

use crate::byteops::le16;
use crate::record::{HwpRecord, RecordV};
use crate::byteops::read_u16_le;
use crate::strings::{replace_sub, spec_replace, spec_trim, trim_str};
use vstd::prelude::*;

verus! {

/// A merged cell: its grid position and how many rows and columns it spans.
#[derive(Debug, Clone, Copy, Default, PartialEq, Eq, Structural)]
pub struct CellSpan {
    pub row: u16,
    pub col: u16,
    pub row_span: u16,
    pub col_span: u16,
}

/// One cell of a reconstructed table grid.
#[derive(Debug, Clone)]
pub struct TableCell {
    pub row: u16,
    pub col: u16,
    pub row_span: u16,
    pub col_span: u16,
    pub content: String,
    pub is_header: bool,
    pub background_color: Option<u32>,
    pub border_style: Option<u8>,
}

impl Default for TableCell {
    /// An unmerged, empty cell at the grid origin.
    fn default() -> (r: Self)
        ensures
            r.row == 0 && r.col == 0 && r.row_span == 1 && r.col_span == 1,
            r.content@ == Seq::<char>::empty(),
            !r.is_header && r.background_color is None && r.border_style is None,
    {
        TableCell {
            row: 0,
            col: 0,
            row_span: 1,
            col_span: 1,
            content: String::new(),
            is_header: false,
            background_color: None,
            border_style: None,
        }
    }
}

/// The fixed leading fields of a `TABLE` record.
#[derive(Debug, Clone)]
pub struct TableInfo {
    pub rows: u16,
    pub cols: u16,
    pub cell_count: u16,
    pub cell_spans: Vec<CellSpan>,
    pub row_heights: Vec<u16>,
    pub col_widths: Vec<u16>,
}

impl Default for TableInfo {
    /// An empty table description.
    fn default() -> (r: Self)
        ensures
            r.rows == 0 && r.cols == 0 && r.cell_count == 0,
            r.cell_spans@ == Seq::<CellSpan>::empty(),
            r.row_heights@ == Seq::<u16>::empty(),
            r.col_widths@ == Seq::<u16>::empty(),
    {
        TableInfo {
            rows: 0,
            cols: 0,
            cell_count: 0,
            cell_spans: Vec::new(),
            row_heights: Vec::new(),
            col_widths: Vec::new(),
        }
    }
}

/// The row-height words that follow the table margins at offset 18, present
/// only when the payload is long enough to hold one per row.
pub open spec fn spec_row_heights(b: Seq<u8>, rows: int) -> Seq<u16> {
    if b.len() >= 18 + rows * 2 {
        Seq::new(rows as nat, |i: int| le16(b, 18 + 2 * i))
    } else {
        Seq::empty()
    }
}

/// Decodes the leading fields of a `TABLE` record payload: the row count at
/// bytes 4 to 5, the column count at bytes 6 to 7, the derived cell count
/// (wrapping at sixteen bits), and the row heights where present. Payloads
/// of fewer than eight bytes are rejected.
pub fn parse_table_info(data: &[u8]) -> (r: Option<TableInfo>)
    ensures
        data@.len() < 8 ==> r is None,
        data@.len() >= 8 ==> (r matches Some(ti) && {
            &&& ti.rows == le16(data@, 4)
            &&& ti.cols == le16(data@, 6)
            &&& ti.cell_count as int == (le16(data@, 4) as int * le16(data@, 6) as int) % 0x10000
            &&& ti.row_heights@ == spec_row_heights(data@, le16(data@, 4) as int)
            &&& ti.cell_spans@ == Seq::<CellSpan>::empty()
            &&& ti.col_widths@ == Seq::<u16>::empty()
        }),
{
    if data.len() < 8 {
        return None;
    }
    let rows = read_u16_le(data, 4);
    let cols = read_u16_le(data, 6);
    let cell_count = rows.wrapping_mul(cols);
    let mut row_heights: Vec<u16> = Vec::new();
    if data.len() >= 18 + (rows as usize) * 2 {
        let mut i: usize = 0;
        while i < rows as usize
            invariant
                data@.len() >= 18 + (rows as int) * 2,
                i <= rows as usize,
                row_heights@.len() == i,
                forall|k: int| 0 <= k < i ==> row_heights@[k] == le16(data@, 18 + 2 * k),
            decreases rows as usize - i,
        {
            let h = read_u16_le(data, 18 + i * 2);
            row_heights.push(h);
            i += 1;
        }
        proof {
            assert(row_heights@ =~= spec_row_heights(data@, rows as int));
        }
    } else {
        proof {
            assert(row_heights@ =~= spec_row_heights(data@, rows as int));
        }
    }
    Some(
        TableInfo {
            rows,
            cols,
            cell_count,
            cell_spans: Vec::new(),
            row_heights,
            col_widths: Vec::new(),
        },
    )
}

/// The span a cell `LIST_HEADER` declares: the column span at bytes 22 to 23
/// and the row span at bytes 24 to 25, each raised to at least one; the grid
/// position is left at zero for the caller to fill in. Payloads of fewer
/// than 26 bytes are rejected.
pub fn parse_cell_list_header(data: &[u8]) -> (r: Option<CellSpan>)
    ensures
        data@.len() < 26 ==> r is None,
        data@.len() >= 26 ==> r == Some(
            CellSpan {
                row: 0,
                col: 0,
                row_span: if le16(data@, 24) == 0 {
                    1u16
                } else {
                    le16(data@, 24)
                },
                col_span: if le16(data@, 22) == 0 {
                    1u16
                } else {
                    le16(data@, 22)
                },
            },
        ),
{
    if data.len() < 26 {
        return None;
    }
    let col_span = read_u16_le(data, 22);
    let row_span = read_u16_le(data, 24);
    Some(
        CellSpan {
            row: 0,
            col: 0,
            row_span: if row_span == 0 {
                1
            } else {
                row_span
            },
            col_span: if col_span == 0 {
                1
            } else {
                col_span
            },
        },
    )
}

/// The character sequences of a list of strings.
pub open spec fn strs_view(v: Seq<String>) -> Seq<Seq<char>> {
    v.map_values(|s: String| s@)
}

/// The character sequences of a grid of strings.
pub open spec fn grid_view(v: Seq<Vec<String>>) -> Seq<Seq<Seq<char>>> {
    v.map_values(|r: Vec<String>| strs_view(r@))
}

/// The flat list `s` cut into rows of `cols` entries, row-major; the last
/// row keeps whatever remains.
pub open spec fn spec_chunks(s: Seq<Seq<char>>, cols: int) -> Seq<Seq<Seq<char>>>
    decreases s.len(),
    when cols > 0
{
    if s.len() == 0 {
        Seq::empty()
    } else if s.len() <= cols {
        seq![s]
    } else {
        seq![s.take(cols)] + spec_chunks(s.skip(cols), cols)
    }
}

fn clone_range(cells: &Vec<String>, i: usize, j: usize) -> (r: Vec<String>)
    requires
        i <= j <= cells@.len(),
    ensures
        strs_view(r@) == strs_view(cells@).subrange(i as int, j as int),
{
    let mut out: Vec<String> = Vec::new();
    let mut k: usize = i;
    while k < j
        invariant
            i <= k <= j <= cells@.len(),
            out@.len() == k - i,
            forall|m: int| 0 <= m < out@.len() ==> out@[m]@ == cells@[i + m]@,
        decreases j - k,
    {
        out.push(cells[k].clone());
        k += 1;
    }
    proof {
        assert(strs_view(out@) =~= strs_view(cells@).subrange(i as int, j as int));
    }
    out
}

/// Regroups a flat cell list into rows of `cols` strings each, row-major;
/// zero columns give an empty grid.
pub fn organize_cells(cells: &Vec<String>, cols: usize) -> (r: Vec<Vec<String>>)
    ensures
        cols == 0 ==> r@.len() == 0,
        cols > 0 ==> grid_view(r@) == spec_chunks(strs_view(cells@), cols as int),
{
    if cols == 0 {
        return Vec::new();
    }
    let len = cells.len();
    let mut out: Vec<Vec<String>> = Vec::new();
    let mut i: usize = 0;
    proof {
        assert(strs_view(cells@).skip(0) =~= strs_view(cells@));
        assert(grid_view(out@) + spec_chunks(strs_view(cells@), cols as int) =~= spec_chunks(
            strs_view(cells@),
            cols as int,
        ));
    }
    while i < len
        invariant
            cols > 0,
            i <= len,
            len == cells@.len(),
            spec_chunks(strs_view(cells@), cols as int) == grid_view(out@) + spec_chunks(
                strs_view(cells@).skip(i as int),
                cols as int,
            ),
        decreases len - i,
    {
        let ghost pre = grid_view(out@);
        let ghost rest = strs_view(cells@).skip(i as int);
        let j = if len - i < cols {
            len
        } else {
            i + cols
        };
        let row = clone_range(cells, i, j);
        out.push(row);
        proof {
            assert(grid_view(out@) =~= pre.push(strs_view(cells@).subrange(i as int, j as int)));
            if len - i <= cols {
                assert(rest =~= strs_view(cells@).subrange(i as int, len as int));
                assert(spec_chunks(rest, cols as int) =~= seq![rest]);
                assert(pre.push(rest) =~= pre + seq![rest]);
                assert(strs_view(cells@).skip(len as int) =~= Seq::<Seq<char>>::empty());
                assert(spec_chunks(strs_view(cells@).skip(len as int), cols as int) =~= Seq::<
                    Seq<Seq<char>>,
                >::empty());
                assert(grid_view(out@) + Seq::<Seq<Seq<char>>>::empty() =~= grid_view(out@));
            } else {
                assert(rest.take(cols as int) =~= strs_view(cells@).subrange(i as int, j as int));
                assert(rest.skip(cols as int) =~= strs_view(cells@).skip(j as int));
                assert(spec_chunks(rest, cols as int) =~= seq![rest.take(cols as int)]
                    + spec_chunks(strs_view(cells@).skip(j as int), cols as int));
                assert(pre + spec_chunks(rest, cols as int) =~= grid_view(out@) + spec_chunks(
                    strs_view(cells@).skip(j as int),
                    cols as int,
                ));
            }
        }
        i = j;
    }
    proof {
        assert(strs_view(cells@).skip(i as int) =~= Seq::<Seq<char>>::empty());
        assert(spec_chunks(strs_view(cells@).skip(i as int), cols as int) =~= Seq::<
            Seq<Seq<char>>,
        >::empty());
        assert(grid_view(out@) + Seq::<Seq<Seq<char>>>::empty() =~= grid_view(out@));
    }
    out
}

/// A reconstructed table: its grid size, its cell texts row-major, and the
/// spans of its merged cells.
#[derive(Debug, Clone)]
pub struct TableData {
    pub rows: usize,
    pub cols: usize,
    pub cells: Vec<Vec<String>>,
    pub cell_spans: Vec<CellSpan>,
}

/// A cell as it appears in a markdown table: newlines flattened to spaces
/// and the edges trimmed.
pub open spec fn spec_flat_cell(c: Seq<char>) -> Seq<char> {
    spec_trim(spec_replace(c, seq!['\n'], seq![' ']))
}

/// The cells of one markdown row, each followed by a cell delimiter.
pub open spec fn spec_td_cells(row: Seq<Seq<char>>, k: int) -> Seq<char>
    decreases row.len() - k,
    when 0 <= k
{
    if k >= row.len() {
        Seq::empty()
    } else {
        spec_flat_cell(row[k]) + seq![' ', '|', ' '] + spec_td_cells(row, k + 1)
    }
}

/// `n` markdown separator cells.
pub open spec fn spec_td_sep(n: int) -> Seq<char>
    decreases n,
    when n >= 0
{
    if n <= 0 {
        Seq::empty()
    } else {
        seq!['-', '-', '-', ' ', '|', ' '] + spec_td_sep(n - 1)
    }
}

/// The markdown lines of the grid from row `i` on, with a separator line of
/// `cols` cells after the first row.
pub open spec fn spec_td_lines(g: Seq<Seq<Seq<char>>>, i: int, cols: int) -> Seq<char>
    decreases g.len() - i,
    when 0 <= i
{
    if i >= g.len() {
        Seq::empty()
    } else {
        let line = seq!['|', ' '] + spec_td_cells(g[i], 0) + seq!['\n'];
        let sep = if i == 0 {
            seq!['|', ' '] + spec_td_sep(cols) + seq!['\n']
        } else {
            Seq::empty()
        };
        line + sep + spec_td_lines(g, i + 1, cols)
    }
}

fn flat_cell(c: &str) -> (r: String)
    ensures
        r@ == spec_flat_cell(c@),
{
    proof {
        reveal_strlit("\n");
        reveal_strlit(" ");
        assert("\n"@ =~= seq!['\n']);
        assert(" "@ =~= seq![' ']);
    }
    let replaced = replace_sub(c, "\n", " ");
    trim_str(replaced.as_str())
}

fn td_cells(row: &Vec<String>, k: usize) -> (r: String)
    requires
        k <= row@.len(),
    ensures
        r@ == spec_td_cells(strs_view(row@), k as int),
    decreases row@.len() - k,
{
    if k >= row.len() {
        String::new()
    } else {
        let mut out = flat_cell(row[k].as_str());
        out.append(" | ");
        let rest = td_cells(row, k + 1);
        out.append(rest.as_str());
        proof {
            reveal_strlit(" | ");
            assert(" | "@ =~= seq![' ', '|', ' ']);
            assert(out@ =~= spec_td_cells(strs_view(row@), k as int));
        }
        out
    }
}

fn td_sep(n: usize) -> (r: String)
    ensures
        r@ == spec_td_sep(n as int),
    decreases n,
{
    if n == 0 {
        String::new()
    } else {
        let mut out = String::from_str("--- | ");
        let rest = td_sep(n - 1);
        out.append(rest.as_str());
        proof {
            reveal_strlit("--- | ");
            assert("--- | "@ =~= seq!['-', '-', '-', ' ', '|', ' ']);
            assert(out@ =~= spec_td_sep(n as int));
        }
        out
    }
}

fn td_lines(cells: &Vec<Vec<String>>, i: usize, cols: usize) -> (r: String)
    requires
        i <= cells@.len(),
    ensures
        r@ == spec_td_lines(grid_view(cells@), i as int, cols as int),
    decreases cells@.len() - i,
{
    if i >= cells.len() {
        String::new()
    } else {
        let mut out = String::from_str("| ");
        let body = td_cells(&cells[i], 0);
        out.append(body.as_str());
        out.append("\n");
        if i == 0 {
            out.append("| ");
            let sep = td_sep(cols);
            out.append(sep.as_str());
            out.append("\n");
        }
        let rest = td_lines(cells, i + 1, cols);
        out.append(rest.as_str());
        proof {
            reveal_strlit("| ");
            reveal_strlit("\n");
            assert("| "@ =~= seq!['|', ' ']);
            assert("\n"@ =~= seq!['\n']);
            assert(grid_view(cells@)[i as int] == strs_view(cells@[i as int]@));
            assert(out@ =~= spec_td_lines(grid_view(cells@), i as int, cols as int));
        }
        out
    }
}

impl TableData {
    /// Renders the table as markdown: one line per row, each cell flattened
    /// and followed by a delimiter, with a separator line of `cols` cells
    /// after the first row; a table without cells or columns renders empty.
    pub fn to_markdown(&self) -> (r: String)
        ensures
            (self.cells@.len() == 0 || self.cols == 0) ==> r@ == Seq::<char>::empty(),
            (self.cells@.len() > 0 && self.cols > 0) ==> r@ == spec_td_lines(
                grid_view(self.cells@),
                0,
                self.cols as int,
            ),
    {
        if self.cells.len() == 0 || self.cols == 0 {
            return String::new();
        }
        td_lines(&self.cells, 0, self.cols)
    }
}

/// The mathematical image of a grid cell.
pub ghost struct TableCellV {
    pub row: u16,
    pub col: u16,
    pub row_span: u16,
    pub col_span: u16,
    pub content: Seq<char>,
    pub is_header: bool,
    pub background_color: Option<u32>,
    pub border_style: Option<u8>,
}

impl View for TableCell {
    type V = TableCellV;

    open spec fn view(&self) -> TableCellV {
        TableCellV {
            row: self.row,
            col: self.col,
            row_span: self.row_span,
            col_span: self.col_span,
            content: self.content@,
            is_header: self.is_header,
            background_color: self.background_color,
            border_style: self.border_style,
        }
    }
}

/// A table grid with its size description.
#[derive(Debug, Clone)]
pub struct HwpTable {
    pub info: TableInfo,
    pub cells: Vec<Vec<TableCell>>,
}

/// The view of one grid row.
pub open spec fn cells_view(row: Seq<TableCell>) -> Seq<TableCellV> {
    row.map_values(|c: TableCell| c@)
}

/// Sixteen-bit wrapping addition, as the grid coordinates use.
pub open spec fn wrap_add16(a: u16, b: u16) -> u16 {
    ((a + b) % 0x10000) as u16
}

/// The low sixteen bits of a nonnegative value.
pub open spec fn trunc16(x: int) -> u16 {
    (x % 0x10000) as u16
}

/// A cell as it appears in a markdown table here: pipes escaped, newlines
/// flattened, edges trimmed.
pub open spec fn spec_ht_clean(c: Seq<char>) -> Seq<char> {
    spec_trim(spec_replace(spec_replace(c, seq!['|'], seq!['\\', '|']), seq!['\n'], seq![' ']))
}

/// The grid positions a merged cell at `(ri, ci)` covers in one of its rows,
/// for column offsets `c` to `cs - 1`; the cell's own position is left out.
pub open spec fn spec_cov_cols(ri: u16, ci: u16, r: u16, cs: int, c: int) -> Seq<(u16, u16)>
    decreases cs - c,
    when 0 <= c
{
    if c >= cs {
        Seq::empty()
    } else {
        let here: Seq<(u16, u16)> = if r == 0 && c == 0 {
            Seq::empty()
        } else {
            seq![(wrap_add16(ri, r), wrap_add16(ci, trunc16(c)))]
        };
        here + spec_cov_cols(ri, ci, r, cs, c + 1)
    }
}

/// The grid positions a merged cell at `(ri, ci)` covers, for row offsets
/// `r` to `rs - 1`.
pub open spec fn spec_cov_rows(ri: u16, ci: u16, rs: int, cs: int, r: int) -> Seq<(u16, u16)>
    decreases rs - r,
    when 0 <= r
{
    if r >= rs {
        Seq::empty()
    } else {
        spec_cov_cols(ri, ci, trunc16(r), cs, 0) + spec_cov_rows(ri, ci, rs, cs, r + 1)
    }
}

/// One row's markdown cell texts and the updated set of covered positions:
/// a covered cell is left out, and a merged cell marks the positions it
/// covers so that later rows skip them. `cu` is the column coordinate of the
/// cell at index `ci`, wrapping at sixteen bits as the coordinates do.
pub open spec fn spec_ht_row(
    row: Seq<TableCellV>,
    ri: u16,
    ci: int,
    cu: u16,
    skip: Seq<(u16, u16)>,
) -> (Seq<Seq<char>>, Seq<(u16, u16)>)
    decreases row.len() - ci,
    when 0 <= ci
{
    if ci >= row.len() {
        (Seq::empty(), skip)
    } else {
        let cell = row[ci];
        if skip.contains((ri, cu)) {
            spec_ht_row(row, ri, ci + 1, wrap_add16(cu, 1), skip)
        } else {
            let skip2 = if cell.row_span > 1 || cell.col_span > 1 {
                skip + spec_cov_rows(ri, cu, cell.row_span as int, cell.col_span as int, 0)
            } else {
                skip
            };
            let (rest, skip3) = spec_ht_row(row, ri, ci + 1, wrap_add16(cu, 1), skip2);
            (seq![spec_ht_clean(cell.content)] + rest, skip3)
        }
    }
}

/// `n` separator cell texts.
pub open spec fn spec_dashes(n: int) -> Seq<Seq<char>>
    decreases n,
    when n >= 0
{
    if n <= 0 {
        Seq::empty()
    } else {
        spec_dashes(n - 1).push(seq!['-', '-', '-'])
    }
}

/// The markdown lines of the grid from row `ri` on, carrying the covered
/// positions across rows; the first row is followed by a separator line
/// with one cell per text the first row produced.
pub open spec fn spec_ht_lines(
    g: Seq<Seq<TableCellV>>,
    ri: int,
    riu: u16,
    skip: Seq<(u16, u16)>,
) -> Seq<Seq<char>>
    decreases g.len() - ri,
    when 0 <= ri
{
    if ri >= g.len() {
        Seq::empty()
    } else {
        let (contents, skip2) = spec_ht_row(g[ri], riu, 0, 0, skip);
        let line = seq!['|', ' '] + crate::strings::spec_join(contents, seq![' ', '|', ' '])
            + seq![' ', '|'];
        let sep: Seq<Seq<char>> = if ri == 0 {
            seq![
                seq!['|', ' '] + crate::strings::spec_join(
                    spec_dashes(contents.len() as int),
                    seq![' ', '|', ' '],
                ) + seq![' ', '|'],
            ]
        } else {
            Seq::empty()
        };
        seq![line] + sep + spec_ht_lines(g, ri + 1, wrap_add16(riu, 1), skip2)
    }
}

/// The full markdown rendering of a grid: its lines joined by newlines; an
/// empty grid renders empty.
pub open spec fn spec_ht_md(g: Seq<Seq<TableCellV>>) -> Seq<char> {
    if g.len() == 0 {
        Seq::empty()
    } else {
        crate::strings::spec_join(spec_ht_lines(g, 0, 0, Seq::empty()), seq!['\n'])
    }
}

fn pair_contains(v: &Vec<(u16, u16)>, p: (u16, u16)) -> (r: bool)
    ensures
        r == v@.contains(p),
{
    let mut i: usize = 0;
    while i < v.len()
        invariant
            i <= v@.len(),
            forall|k: int| 0 <= k < i ==> v@[k] != p,
        decreases v@.len() - i,
    {
        if v[i].0 == p.0 && v[i].1 == p.1 {
            proof {
                assert(v@[i as int] == p);
            }
            return true;
        }
        i += 1;
    }
    false
}

fn cov_cols(out: &mut Vec<(u16, u16)>, ri: u16, ci: u16, r: u16, cs: u16, c: u16)
    ensures
        final(out)@ == old(out)@ + spec_cov_cols(ri, ci, r, cs as int, c as int),
    decreases cs as int - c as int,
{
    if c >= cs {
        assert(out@ =~= old(out)@ + spec_cov_cols(ri, ci, r, cs as int, c as int));
    } else {
        if r != 0 || c != 0 {
            out.push((ri.wrapping_add(r), ci.wrapping_add(c)));
        }
        cov_cols(out, ri, ci, r, cs, c + 1);
        proof {
            assert(trunc16(c as int) == c);
            assert(wrap_add16(ri, r) == ri.wrapping_add(r));
            assert(wrap_add16(ci, c) == ci.wrapping_add(c));
            assert(out@ =~= old(out)@ + spec_cov_cols(ri, ci, r, cs as int, c as int));
        }
    }
}

fn cov_rows(out: &mut Vec<(u16, u16)>, ri: u16, ci: u16, rs: u16, cs: u16, r: u16)
    ensures
        final(out)@ == old(out)@ + spec_cov_rows(ri, ci, rs as int, cs as int, r as int),
    decreases rs as int - r as int,
{
    if r >= rs {
        assert(out@ =~= old(out)@ + spec_cov_rows(ri, ci, rs as int, cs as int, r as int));
    } else {
        cov_cols(out, ri, ci, r, cs, 0);
        cov_rows(out, ri, ci, rs, cs, r + 1);
        proof {
            assert(trunc16(r as int) == r);
            assert(out@ =~= old(out)@ + spec_cov_rows(ri, ci, rs as int, cs as int, r as int));
        }
    }
}

fn ht_row(row: &Vec<TableCell>, ri: u16, ci: usize, cu: u16, skip: Vec<(u16, u16)>) -> (r: (
    Vec<String>,
    Vec<(u16, u16)>,
))
    requires
        ci <= row@.len(),
    ensures
        (strs_view(r.0@), r.1@) == spec_ht_row(cells_view(row@), ri, ci as int, cu, skip@),
    decreases row@.len() - ci,
{
    if ci >= row.len() {
        proof {
            assert(strs_view(Seq::<String>::empty()) =~= Seq::<Seq<char>>::empty());
        }
        (Vec::new(), skip)
    } else {
        proof {
            assert(cells_view(row@)[ci as int] == row@[ci as int]@);
        }
        if pair_contains(&skip, (ri, cu)) {
            ht_row(row, ri, ci + 1, cu.wrapping_add(1), skip)
        } else {
            let cell = &row[ci];
            let mut skip2 = skip;
            if cell.row_span > 1 || cell.col_span > 1 {
                cov_rows(&mut skip2, ri, cu, cell.row_span, cell.col_span, 0);
            }
            let cleaned = ht_clean(cell.content.as_str());
            let ghost cleaned_view = cleaned@;
            let (rest, skip3) = ht_row(row, ri, ci + 1, cu.wrapping_add(1), skip2);
            let mut contents: Vec<String> = Vec::new();
            contents.push(cleaned);
            proof {
                assert(cu.wrapping_add(1) == wrap_add16(cu, 1));
                assert(strs_view(contents@) =~= seq![cleaned_view]);
                assert(cleaned_view == spec_ht_clean(cells_view(row@)[ci as int].content));
                assert(strs_view(contents@) =~= seq![
                    spec_ht_clean(cells_view(row@)[ci as int].content),
                ] + strs_view(rest@).take(0));
            }
            let mut k: usize = 0;
            while k < rest.len()
                invariant
                    k <= rest@.len(),
                    contents@.len() == k + 1,
                    strs_view(contents@) =~= seq![spec_ht_clean(cells_view(row@)[ci as int].content)]
                        + strs_view(rest@).take(k as int),
                decreases rest@.len() - k,
            {
                let ghost pc = contents@;
                contents.push(rest[k].clone());
                proof {
                    assert(strs_view(contents@) =~= strs_view(pc).push(rest@[k as int]@));
                    assert(strs_view(rest@).take(k + 1) =~= strs_view(rest@).take(k as int).push(
                        rest@[k as int]@,
                    ));
                    assert(strs_view(contents@) =~= seq![
                        spec_ht_clean(cells_view(row@)[ci as int].content),
                    ] + strs_view(rest@).take(k + 1));
                }
                k += 1;
            }
            proof {
                assert(strs_view(rest@).take(rest@.len() as int) =~= strs_view(rest@));
            }
            (contents, skip3)
        }
    }
}

fn ht_clean(c: &str) -> (r: String)
    ensures
        r@ == spec_ht_clean(c@),
{
    proof {
        reveal_strlit("|");
        reveal_strlit("\\|");
        reveal_strlit("\n");
        reveal_strlit(" ");
        assert("|"@ =~= seq!['|']);
        assert("\\|"@ =~= seq!['\\', '|']);
        assert("\n"@ =~= seq!['\n']);
        assert(" "@ =~= seq![' ']);
    }
    let s1 = replace_sub(c, "|", "\\|");
    let s2 = replace_sub(s1.as_str(), "\n", " ");
    trim_str(s2.as_str())
}

fn dashes(n: usize) -> (r: Vec<String>)
    ensures
        strs_view(r@) == spec_dashes(n as int),
    decreases n,
{
    if n == 0 {
        let r: Vec<String> = Vec::new();
        proof {
            assert(strs_view(r@) =~= spec_dashes(0));
        }
        r
    } else {
        let mut r = dashes(n - 1);
        r.push(String::from_str("---"));
        proof {
            reveal_strlit("---");
            assert("---"@ =~= seq!['-', '-', '-']);
            assert(strs_view(r@) =~= spec_dashes(n as int));
        }
        r
    }
}

fn ht_line_of(contents: &Vec<String>) -> (r: String)
    ensures
        r@ == seq!['|', ' '] + crate::strings::spec_join(strs_view(contents@), seq![' ', '|', ' '])
            + seq![' ', '|'],
{
    proof {
        reveal_strlit("| ");
        reveal_strlit(" | ");
        reveal_strlit(" |");
        assert("| "@ =~= seq!['|', ' ']);
        assert(" | "@ =~= seq![' ', '|', ' ']);
        assert(" |"@ =~= seq![' ', '|']);
    }
    let mut line = String::from_str("| ");
    let joined = crate::strings::join_strings(contents, " | ");
    line.append(joined.as_str());
    line.append(" |");
    line
}

fn ht_lines(cells: &Vec<Vec<TableCell>>, ri: usize, riu: u16, skip: Vec<(u16, u16)>) -> (r: Vec<
    String,
>)
    requires
        ri <= cells@.len(),
    ensures
        strs_view(r@) == spec_ht_lines(
            cells@.map_values(|row: Vec<TableCell>| cells_view(row@)),
            ri as int,
            riu,
            skip@,
        ),
    decreases cells@.len() - ri,
{
    let ghost g = cells@.map_values(|row: Vec<TableCell>| cells_view(row@));
    if ri >= cells.len() {
        let r: Vec<String> = Vec::new();
        proof {
            assert(strs_view(r@) =~= spec_ht_lines(g, ri as int, riu, skip@));
        }
        r
    } else {
        proof {
            assert(g[ri as int] == cells_view(cells@[ri as int]@));
        }
        let (contents, skip2) = ht_row(&cells[ri], riu, 0, 0, skip);
        let line = ht_line_of(&contents);
        let rest = ht_lines(cells, ri + 1, riu.wrapping_add(1), skip2);
        proof {
            assert(riu.wrapping_add(1) == wrap_add16(riu, 1));
        }
        let mut out: Vec<String> = Vec::new();
        out.push(line);
        if ri == 0 {
            let sep_cells = dashes(contents.len());
            let sep = ht_line_of(&sep_cells);
            out.push(sep);
        }
        let mut k: usize = 0;
        let ghost base = strs_view(out@);
        while k < rest.len()
            invariant
                k <= rest@.len(),
                strs_view(out@) =~= base + strs_view(rest@).take(k as int),
            decreases rest@.len() - k,
        {
            let ghost po = out@;
            out.push(rest[k].clone());
            proof {
                assert(strs_view(out@) =~= strs_view(po).push(rest@[k as int]@));
                assert(strs_view(rest@).take(k + 1) =~= strs_view(rest@).take(k as int).push(
                    rest@[k as int]@,
                ));
                assert(strs_view(out@) =~= base + strs_view(rest@).take(k + 1));
            }
            k += 1;
        }
        proof {
            assert(strs_view(rest@).take(rest@.len() as int) =~= strs_view(rest@));
            assert(strs_view(out@) =~= spec_ht_lines(g, ri as int, riu, skip@));
        }
        out
    }
}

impl HwpTable {
    /// A grid of `rows` by `cols` empty unmerged cells, each knowing its
    /// position; the size description carries the same counts.
    pub fn new(rows: u16, cols: u16) -> (r: Self)
        ensures
            r.info.rows == rows && r.info.cols == cols,
            r.info.cell_count as int == (rows as int * cols as int) % 0x10000,
            r.cells@.len() == rows as int,
            forall|i: int|
                0 <= i < rows as int ==> (#[trigger] r.cells@[i])@.len() == cols as int,
            forall|i: int, j: int|
                0 <= i < rows as int && 0 <= j < cols as int ==> {
                    let c = #[trigger] r.cells@[i]@[j]@;
                    c.row == i && c.col == j && c.row_span == 1 && c.col_span == 1 && c.content
                        =~= Seq::<char>::empty() && !c.is_header
                },
    {
        let mut cells: Vec<Vec<TableCell>> = Vec::new();
        let mut r: u16 = 0;
        while r < rows
            invariant
                r <= rows,
                cells@.len() == r as int,
                forall|i: int| 0 <= i < r as int ==> (#[trigger] cells@[i])@.len() == cols as int,
                forall|i: int, j: int|
                    0 <= i < r as int && 0 <= j < cols as int ==> {
                        let c = #[trigger] cells@[i]@[j]@;
                        c.row == i && c.col == j && c.row_span == 1 && c.col_span == 1 && c.content
                            =~= Seq::<char>::empty() && !c.is_header
                    },
            decreases rows as int - r as int,
        {
            let mut row: Vec<TableCell> = Vec::new();
            let mut c: u16 = 0;
            while c < cols
                invariant
                    c <= cols,
                    row@.len() == c as int,
                    forall|j: int|
                        0 <= j < c as int ==> {
                            let cl = (#[trigger] row@[j])@;
                            cl.row == r && cl.col == j && cl.row_span == 1 && cl.col_span == 1
                                && cl.content =~= Seq::<char>::empty() && !cl.is_header
                        },
                decreases cols as int - c as int,
            {
                row.push(
                    TableCell {
                        row: r,
                        col: c,
                        row_span: 1,
                        col_span: 1,
                        content: String::new(),
                        is_header: false,
                        background_color: None,
                        border_style: None,
                    },
                );
                c += 1;
            }
            cells.push(row);
            r += 1;
        }
        HwpTable {
            info: TableInfo {
                rows,
                cols,
                cell_count: rows.wrapping_mul(cols),
                cell_spans: Vec::new(),
                row_heights: Vec::new(),
                col_widths: Vec::new(),
            },
            cells,
        }
    }

    /// Renders the grid as markdown, skipping every position a merged cell
    /// covers, with a separator line after the first row; an empty grid
    /// renders empty.
    pub fn to_markdown(&self) -> (r: String)
        ensures
            r@ == spec_ht_md(self.cells@.map_values(|row: Vec<TableCell>| cells_view(row@))),
    {
        if self.cells.len() == 0 {
            return String::new();
        }
        let lines = ht_lines(&self.cells, 0, 0, Vec::new());
        let joined = crate::strings::join_strings(&lines, "\n");
        proof {
            reveal_strlit("\n");
            assert("\n"@ =~= seq!['\n']);
            assert(strs_view(lines@) == lines@.map_values(|x: String| x@));
        }
        joined
    }
}

/// The mathematical image of a reconstructed table.
pub ghost struct TableDataV {
    pub rows: usize,
    pub cols: usize,
    pub cells: Seq<Seq<Seq<char>>>,
    pub cell_spans: Seq<CellSpan>,
}

impl View for TableData {
    type V = TableDataV;

    open spec fn view(&self) -> TableDataV {
        TableDataV {
            rows: self.rows,
            cols: self.cols,
            cells: grid_view(self.cells@),
            cell_spans: self.cell_spans@,
        }
    }
}

/// What `organize_cells` yields: the flat list regrouped row-major, or an
/// empty grid where the column count is zero.
pub open spec fn spec_organized(cells: Seq<Seq<char>>, cols: usize) -> Seq<Seq<Seq<char>>> {
    if cols == 0 {
        Seq::empty()
    } else {
        spec_chunks(cells, cols as int)
    }
}

/// The table scan's state: the open table's size, the flat cell texts and
/// merged-cell spans gathered so far, the running cell coordinate (wrapping
/// at sixteen bits, as the span fields do), and the finished tables.
pub ghost struct TScanV {
    pub cur: Option<(usize, usize)>,
    pub cells: Seq<Seq<char>>,
    pub spans: Seq<CellSpan>,
    pub in_table: bool,
    pub info: Option<(u16, u16)>,
    pub cell_index: u16,
    pub tables: Seq<TableDataV>,
}

/// Closing the open table: its gathered cells are regrouped into rows and
/// the table is emitted; without an open table nothing changes.
pub open spec fn spec_close(st: TScanV) -> TScanV {
    match st.cur {
        Some((r, c)) => TScanV {
            cur: None,
            cells: Seq::empty(),
            spans: Seq::empty(),
            tables: st.tables.push(
                TableDataV { rows: r, cols: c, cells: spec_organized(st.cells, c), cell_spans: st.spans },
            ),
            ..st
        },
        None => st,
    }
}

/// One step of the table scan, on one record. A `TABLE` record closes any
/// open table and opens a new one where its payload decodes; a cell's
/// `LIST_HEADER` advances the cell coordinate and keeps the span where the
/// cell is merged; a `PARA_TEXT` adds one cell text and closes the table
/// once the grid is full. All other records are ignored by this pass.
pub open spec fn spec_scan_step(st: TScanV, rec: RecordV) -> TScanV {
    if rec.tag_id == crate::record::HWPTAG_TABLE {
        let st1 = spec_close(st);
        if rec.data.len() >= 8 {
            TScanV {
                cur: Some((le16(rec.data, 4) as usize, le16(rec.data, 6) as usize)),
                in_table: true,
                info: Some((le16(rec.data, 4), le16(rec.data, 6))),
                cell_index: 0,
                ..st1
            }
        } else {
            st1
        }
    } else if rec.tag_id == crate::record::HWPTAG_LIST_HEADER && st.in_table {
        match st.info {
            Some((_r0, cols)) => {
                let st1 = if rec.data.len() >= 26 {
                    let rsp = if le16(rec.data, 24) == 0 {
                        1u16
                    } else {
                        le16(rec.data, 24)
                    };
                    let csp = if le16(rec.data, 22) == 0 {
                        1u16
                    } else {
                        le16(rec.data, 22)
                    };
                    let row = if cols > 0 {
                        (st.cell_index / cols) as u16
                    } else {
                        0u16
                    };
                    let col = if cols > 0 {
                        (st.cell_index % cols) as u16
                    } else {
                        0u16
                    };
                    if rsp > 1 || csp > 1 {
                        TScanV {
                            spans: st.spans.push(
                                CellSpan { row, col, row_span: rsp, col_span: csp },
                            ),
                            ..st
                        }
                    } else {
                        st
                    }
                } else {
                    st
                };
                TScanV { cell_index: wrap_add16(st.cell_index, 1), ..st1 }
            },
            None => st,
        }
    } else if rec.tag_id == crate::record::HWPTAG_PARA_TEXT && st.in_table {
        let st1 = TScanV { cells: st.cells.push(crate::hwptext::spec_para_chars(rec.data)), ..st };
        match st1.info {
            Some((rows, cols)) => {
                if st1.cells.len() >= rows as int * cols as int && st1.cur is Some {
                    TScanV { in_table: false, info: None, ..spec_close(st1) }
                } else {
                    st1
                }
            },
            None => st1,
        }
    } else {
        st
    }
}

/// The scan state after the first `i` records.
pub open spec fn spec_scan(recs: Seq<RecordV>, i: int) -> TScanV
    decreases i,
    when 0 <= i
{
    if i <= 0 {
        TScanV {
            cur: None,
            cells: Seq::empty(),
            spans: Seq::empty(),
            in_table: false,
            info: None,
            cell_index: 0,
            tables: Seq::empty(),
        }
    } else {
        spec_scan_step(spec_scan(recs, i - 1), recs[i - 1])
    }
}

/// The tables a record list yields: the scan over all records, with a still
/// open table closed at the end.
pub open spec fn spec_tables_of(recs: Seq<RecordV>) -> Seq<TableDataV> {
    spec_close(spec_scan(recs, recs.len() as int)).tables
}

fn copy_spans(v: &Vec<CellSpan>) -> (r: Vec<CellSpan>)
    ensures
        r@ == v@,
{
    let mut out: Vec<CellSpan> = Vec::new();
    let mut i: usize = 0;
    while i < v.len()
        invariant
            i <= v@.len(),
            out@ == v@.take(i as int),
        decreases v@.len() - i,
    {
        out.push(v[i]);
        proof {
            assert(v@.take(i + 1) =~= v@.take(i as int).push(v@[i as int]));
        }
        i += 1;
    }
    proof {
        assert(v@.take(v@.len() as int) =~= v@);
    }
    out
}

fn close_current(
    tables: &mut Vec<TableData>,
    cells: &mut Vec<String>,
    spans: &mut Vec<CellSpan>,
    cur: &mut Option<(usize, usize)>,
)
    ensures
        match *old(cur) {
            Some((r, c)) => {
                &&& final(tables)@.map_values(|t: TableData| t@) == old(tables)@.map_values(
                    |t: TableData| t@,
                ).push(
                    TableDataV {
                        rows: r,
                        cols: c,
                        cells: spec_organized(strs_view(old(cells)@), c),
                        cell_spans: old(spans)@,
                    },
                )
                &&& strs_view(final(cells)@) == Seq::<Seq<char>>::empty()
                &&& final(spans)@ == Seq::<CellSpan>::empty()
                &&& *final(cur) is None
            },
            None => {
                &&& final(tables)@ == old(tables)@
                &&& final(cells)@ == old(cells)@
                &&& final(spans)@ == old(spans)@
                &&& *final(cur) == *old(cur)
            },
        },
{
    match *cur {
        Some((r, c)) => {
            let ghost pre = tables@.map_values(|t: TableData| t@);
            let organized = organize_cells(cells, c);
            let kept_spans = copy_spans(spans);
            let td = TableData { rows: r, cols: c, cells: organized, cell_spans: kept_spans };
            proof {
                if c == 0 {
                    assert(td@.cells =~= spec_organized(strs_view(cells@), c));
                }
            }
            tables.push(td);
            cells.clear();
            spans.clear();
            *cur = None;
            proof {
                assert(tables@.map_values(|t: TableData| t@) =~= pre.push(td@));
                assert(strs_view(cells@) =~= Seq::<Seq<char>>::empty());
            }
        },
        None => {},
    }
}

/// Walks one section's records and reconstructs its tables: grid sizes from
/// `TABLE` records, merged-cell spans from `LIST_HEADER` records, and cell
/// texts from `PARA_TEXT` records, regrouped row-major.
pub fn extract_tables_from_records(records: &Vec<HwpRecord>) -> (r: Vec<TableData>)
    requires
        forall|i: int|
            0 <= i < records@.len() ==> (#[trigger] records@[i]).data@.len() <= 0xFFFF_FFFF,
    ensures
        r@.map_values(|t: TableData| t@) == spec_tables_of(
            records@.map_values(|x: HwpRecord| x@),
        ),
{
    let ghost recs = records@.map_values(|x: HwpRecord| x@);
    let mut tables: Vec<TableData> = Vec::new();
    let mut cells: Vec<String> = Vec::new();
    let mut spans: Vec<CellSpan> = Vec::new();
    let mut cur: Option<(usize, usize)> = None;
    let mut in_table: bool = false;
    let mut info: Option<(u16, u16)> = None;
    let mut cell_index: u16 = 0;
    let mut j: usize = 0;
    proof {
        assert(strs_view(cells@) =~= Seq::<Seq<char>>::empty());
        assert(tables@.map_values(|t: TableData| t@) =~= Seq::<TableDataV>::empty());
    }
    while j < records.len()
        invariant
            recs == records@.map_values(|x: HwpRecord| x@),
            recs.len() == records@.len(),
            forall|i: int|
                0 <= i < records@.len() ==> (#[trigger] records@[i]).data@.len() <= 0xFFFF_FFFF,
            j <= recs.len(),
            spec_scan(recs, j as int) == (TScanV {
                cur,
                cells: strs_view(cells@),
                spans: spans@,
                in_table,
                info,
                cell_index,
                tables: tables@.map_values(|t: TableData| t@),
            }),
        decreases recs.len() - j,
    {
        let ghost st = spec_scan(recs, j as int);
        proof {
            assert(spec_scan(recs, j + 1) == spec_scan_step(st, recs[j as int]));
            assert(recs[j as int] == records@[j as int]@);
        }
        let rec = &records[j];
        if rec.tag_id == crate::record::HWPTAG_TABLE {
            close_current(&mut tables, &mut cells, &mut spans, &mut cur);
            match parse_table_info(rec.data.as_slice()) {
                Some(ti) => {
                    cur = Some((ti.rows as usize, ti.cols as usize));
                    info = Some((ti.rows, ti.cols));
                    in_table = true;
                    cell_index = 0;
                },
                None => {},
            }
        } else if rec.tag_id == crate::record::HWPTAG_LIST_HEADER && in_table {
            match info {
                Some((_r0, cols)) => {
                    match parse_cell_list_header(rec.data.as_slice()) {
                        Some(sp) => {
                            let row: u16 = if cols > 0 {
                                cell_index / cols
                            } else {
                                0
                            };
                            let col: u16 = if cols > 0 {
                                cell_index % cols
                            } else {
                                0
                            };
                            if sp.row_span > 1 || sp.col_span > 1 {
                                spans.push(
                                    CellSpan {
                                        row,
                                        col,
                                        row_span: sp.row_span,
                                        col_span: sp.col_span,
                                    },
                                );
                            }
                        },
                        None => {},
                    }
                    cell_index = cell_index.wrapping_add(1);
                },
                None => {},
            }
        } else if rec.tag_id == crate::record::HWPTAG_PARA_TEXT && in_table {
            let ghost pre_cells = strs_view(cells@);
            let text = crate::hwptext::extract_para_text(rec.data.as_slice());
            cells.push(text);
            proof {
                assert(strs_view(cells@) =~= pre_cells.push(
                    crate::hwptext::spec_para_chars(recs[j as int].data),
                ));
            }
            match info {
                Some((rows, cols)) => {
                    proof {
                        assert(rows as int * cols as int <= 0xFFFF * 0xFFFF) by (nonlinear_arith)
                            requires
                                rows as int <= 0xFFFF,
                                cols as int <= 0xFFFF,
                                0 <= rows as int,
                                0 <= cols as int,
                        ;
                    }
                    let full = (rows as u32) * (cols as u32);
                    if cells.len() >= full as usize {
                        match cur {
                            Some(_) => {
                                close_current(&mut tables, &mut cells, &mut spans, &mut cur);
                                in_table = false;
                                info = None;
                            },
                            None => {},
                        }
                    }
                },
                None => {},
            }
        }
        j += 1;
        proof {
            assert(spec_scan(recs, j as int) == (TScanV {
                cur,
                cells: strs_view(cells@),
                spans: spans@,
                in_table,
                info,
                cell_index,
                tables: tables@.map_values(|t: TableData| t@),
            }));
        }
    }
    close_current(&mut tables, &mut cells, &mut spans, &mut cur);
    tables
}

} // verus!

