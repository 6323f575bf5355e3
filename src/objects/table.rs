//! Tables: proportional column layout, word-wrapped cells with rows as tall
//! as their tallest cell, box-drawing borders, and editor overlay styling.
use vstd::prelude::*;
use crate::types::{Color, DrawOp, NamedColor, Style};
use crate::source::{Coordinate, FrameRange, Position};
use super::{REACH, Resolve, emit_at, op_at};
use super::hline::row_ops;
use super::label::{push_text_rows, split_lines, split_newlines, text_rows_ops};
use super::wrap::{chars_of, rows_view, wrap_spec, wrap_text_line};

verus! {

/// Column fractions are stored in billionths: `FRACTION_SCALE` is the whole width.
pub const FRACTION_SCALE: u64 = 1_000_000_000;

/// Row offsets at or beyond this value lie below any addressable row; they
/// are not tracked further.
pub const FAR: u64 = 65536;

/// One table cell: its text and an optional style of its own.
#[derive(Debug, Clone)]
pub struct TableCell {
    pub content: String,
    pub style: Option<Style>,
}

impl TableCell {
    /// An empty cell without a style of its own.
    pub fn empty() -> (r: TableCell)
        ensures
            r.content@ == Seq::<char>::empty(),
            r.style is None,
    {
        TableCell { content: String::new(), style: None }
    }
}

impl Default for TableCell {
    fn default() -> (r: TableCell)
        ensures
            r.content@ == Seq::<char>::empty(),
            r.style is None,
    {
        TableCell::empty()
    }
}

/// A grid of text cells.
#[derive(Debug, Clone)]
pub struct Table {
    pub position: Position,
    pub width: Coordinate,
    /// Unused by layout: the height follows from the content.
    pub height: Coordinate,
    /// Column widths as fractions of the table width, in billionths
    /// (see `FRACTION_SCALE`); they should sum to about one whole.
    pub col_widths: Vec<u64>,
    /// Number of rows.
    pub rows: usize,
    /// Cell data, `cells[row][col]`; missing cells are empty.
    pub cells: Vec<Vec<TableCell>>,
    /// Whether the first row is drawn bold.
    pub header_bold: bool,
    /// Whether box-drawing borders surround every cell.
    pub borders: bool,
    pub style: Style,
    pub frames: FrameRange,
    pub z_order: i32,
}

/// Editor state that changes how a table is drawn.
#[derive(Debug, Clone)]
pub struct Overlay {
    /// A column about to be removed (drawn red).
    pub highlighted_col: Option<usize>,
    /// Selected cells, as (row, column) (drawn red, the others dimmed).
    pub selected: Vec<(usize, usize)>,
    /// Whether cell selection is active (unselected cells and borders dimmed).
    pub cell_mode: bool,
}

/// The editor overlay as mathematical values.
pub struct OverlayView {
    pub highlighted_col: Option<usize>,
    pub selected: Seq<(usize, usize)>,
    pub cell_mode: bool,
}

impl Overlay {
    /// This overlay as mathematical values.
    pub open spec fn view(&self) -> OverlayView {
        OverlayView { highlighted_col: self.highlighted_col, selected: self.selected@, cell_mode: self.cell_mode }
    }
}

/// The rows of cell text wrapped to width `w`: each line wrapped on its own,
/// without list indentation; a single empty row when `w` is zero.
pub open spec fn wrap_cell_spec(c: Seq<char>, w: int) -> Seq<Seq<char>> {
    if w <= 0 {
        seq![Seq::empty()]
    } else {
        let lines = split_lines(c);
        cell_lines(lines, lines.len() as int, w)
    }
}

/// The wrapped rows of the first `n` lines.
pub open spec fn cell_lines(lines: Seq<Seq<char>>, n: int, w: int) -> Seq<Seq<char>>
    decreases n,
{
    if n <= 0 {
        Seq::empty()
    } else {
        cell_lines(lines, n - 1, w) + wrap_spec(lines[n - 1], w, 0)
    }
}

/// Text columns left for content out of `total`, after border bars.
pub open spec fn avail_of(n: int, total: int, borders: bool) -> int {
    if !borders {
        total
    } else if total > n + 1 {
        total - (n + 1)
    } else {
        0
    }
}

/// The width of column `i`, given the columns used before it: its fraction
/// of the available width rounded down, the last column taking what remains.
pub open spec fn width_given(fr: Seq<u64>, avail: int, i: int, used: int) -> int {
    let rest = if avail > used { avail - used } else { 0 };
    if i == fr.len() - 1 {
        rest
    } else {
        let raw = avail * (fr[i] as int) / (FRACTION_SCALE as int);
        if raw < rest {
            raw
        } else {
            rest
        }
    }
}

/// The columns used by the first `k` columns.
pub open spec fn used_before(fr: Seq<u64>, avail: int, k: int) -> int
    decreases k,
{
    if k <= 0 {
        0
    } else {
        used_before(fr, avail, k - 1) + width_given(fr, avail, k - 1, used_before(fr, avail, k - 1))
    }
}

/// The content width of column `i`.
pub open spec fn col_width(fr: Seq<u64>, avail: int, i: int) -> int {
    width_given(fr, avail, i, used_before(fr, avail, i))
}

/// The offset of column `i`'s content from the table's left edge.
pub open spec fn col_start(fr: Seq<u64>, avail: int, i: int, borders: bool) -> int {
    if borders {
        1 + used_before(fr, avail, i) + i
    } else {
        used_before(fr, avail, i)
    }
}

/// `v` capped at `FAR`.
pub open spec fn far_cap(v: int) -> int {
    if v < FAR as int {
        v
    } else {
        FAR as int
    }
}

impl Table {
    /// One cell of border between rows and columns when borders are drawn.
    pub open spec fn gap(self) -> int {
        if self.borders {
            1
        } else {
            0
        }
    }

    /// The text of cell `(r, c)`; empty where the cell is missing.
    pub open spec fn content_at(self, r: int, c: int) -> Seq<char> {
        if 0 <= r < self.cells@.len() && 0 <= c < self.cells@[r]@.len() {
            self.cells@[r]@[c].content@
        } else {
            Seq::empty()
        }
    }

    /// The own style of cell `(r, c)`, if it has one.
    pub open spec fn own_style(self, r: int, c: int) -> Option<Style> {
        if 0 <= r < self.cells@.len() && 0 <= c < self.cells@[r]@.len() {
            self.cells@[r]@[c].style
        } else {
            None
        }
    }

    /// The text columns available for content at table width `total`.
    pub open spec fn avail(self, total: int) -> int {
        avail_of(self.col_widths@.len() as int, total, self.borders)
    }

    /// The height of row `r` considering its first `k` columns: at least one,
    /// and the wrapped line count of each cell in a column of positive width.
    pub open spec fn height_upto(self, r: int, k: int, avail: int) -> int
        decreases k,
    {
        if k <= 0 {
            1
        } else {
            let prev = self.height_upto(r, k - 1, avail);
            let cw = col_width(self.col_widths@, avail, k - 1);
            let lines = if cw > 0 {
                wrap_cell_spec(self.content_at(r, k - 1), cw).len() as int
            } else {
                0
            };
            if lines > prev {
                lines
            } else {
                prev
            }
        }
    }

    /// The height of row `r`.
    pub open spec fn row_h(self, r: int, avail: int) -> int {
        self.height_upto(r, self.col_widths@.len() as int, avail)
    }

    /// The offset of row `r`'s content from the table's top edge (capped at `FAR`).
    pub open spec fn row_off(self, r: int, avail: int) -> int
        decreases r,
    {
        if r <= 0 {
            self.gap()
        } else {
            far_cap(self.row_off(r - 1, avail) + self.row_h(r - 1, avail) + self.gap())
        }
    }
}

/// Columns already used never exceed the available width.
proof fn lemma_used_bounded(fr: Seq<u64>, avail: int, k: int)
    requires
        avail >= 0,
    ensures
        0 <= used_before(fr, avail, k) <= avail,
    decreases k,
{
    if k > 0 {
        lemma_used_bounded(fr, avail, k - 1);
        lemma_width_given(fr, avail, k - 1, used_before(fr, avail, k - 1));
    }
}

/// A column takes between none and all of what remains.
proof fn lemma_width_given(fr: Seq<u64>, avail: int, i: int, used: int)
    requires
        avail >= 0,
        0 <= used <= avail,
    ensures
        0 <= width_given(fr, avail, i, used) <= avail - used,
{
    if 0 <= i < fr.len() {
        assert(0 <= avail * (fr[i] as int)) by (nonlinear_arith)
            requires
                avail >= 0,
                fr[i] >= 0,
        ;
    }
}

/// Wrap cell text to width `w` (see `wrap_cell_spec`).
pub fn wrap_cell_content(content: &Vec<char>, w: usize) -> (rows: Vec<Vec<char>>)
    ensures
        rows_view(rows@) == wrap_cell_spec(content@, w as int),
{
    let mut rows: Vec<Vec<char>> = Vec::new();
    if w == 0 {
        rows.push(Vec::new());
        assert(rows_view(rows@) =~= seq![Seq::<char>::empty()]);
        return rows;
    }
    let lines = split_newlines(content);
    let ghost lv = rows_view(lines@);
    let mut k: usize = 0;
    while k < lines.len()
        invariant
            k <= lines@.len(),
            w > 0,
            lv == rows_view(lines@),
            lv == split_lines(content@),
            rows_view(rows@) == cell_lines(lv, k as int, w as int),
        decreases lines@.len() - k,
    {
        let mut wrapped = wrap_text_line(&lines[k], w, 0);
        let ghost before = rows_view(rows@);
        let ghost wv = rows_view(wrapped@);
        rows.append(&mut wrapped);
        assert(rows_view(rows@) =~= before + wv);
        assert(lv[k as int] == lines@[k as int]@);
        k = k + 1;
    }
    rows
}

impl Table {
    /// The number of columns.
    pub fn col_count(&self) -> (r: usize)
        ensures
            r == self.col_widths@.len(),
    {
        self.col_widths.len()
    }

    /// The content widths and content offsets of the columns at table width
    /// `total_width`; both empty when there are no columns or no width.
    pub fn layout(&self, total_width: usize) -> (r: (Vec<usize>, Vec<usize>))
        ensures
            self.col_widths@.len() == 0 || total_width == 0 ==> r.0@.len() == 0 && r.1@.len() == 0,
            self.col_widths@.len() > 0 && total_width > 0 ==> {
                &&& r.0@.len() == self.col_widths@.len()
                &&& r.1@.len() == self.col_widths@.len()
                &&& forall|i: int| 0 <= i < r.0@.len() ==> (#[trigger] r.0@[i]) as int == col_width(self.col_widths@, self.avail(total_width as int), i)
                &&& forall|i: int| 0 <= i < r.1@.len() ==> (#[trigger] r.1@[i]) as int == col_start(self.col_widths@, self.avail(total_width as int), i, self.borders)
            },
    {
        let n = self.col_widths.len();
        let mut widths: Vec<usize> = Vec::new();
        let mut starts: Vec<usize> = Vec::new();
        if n == 0 || total_width == 0 {
            return (widths, starts);
        }
        let avail: usize = if !self.borders {
            total_width
        } else if total_width > n && total_width - n > 1 {
            total_width - (n + 1)
        } else {
            0
        };
        let ghost fr = self.col_widths@;
        assert(avail as int == self.avail(total_width as int));
        let mut used: usize = 0;
        let mut i: usize = 0;
        while i < n
            invariant
                n == fr.len(),
                fr == self.col_widths@,
                avail as int == self.avail(total_width as int),
                self.borders ==> avail + n + 1 <= total_width || avail == 0,
                i <= n,
                used as int == used_before(fr, avail as int, i as int),
                used <= avail,
                widths@.len() == i,
                starts@.len() == i,
                forall|j: int| 0 <= j < i ==> (#[trigger] widths@[j]) as int == col_width(fr, avail as int, j),
                forall|j: int| 0 <= j < i ==> (#[trigger] starts@[j]) as int == col_start(fr, avail as int, j, self.borders),
            decreases n - i,
        {
            proof {
                lemma_used_bounded(fr, avail as int, i as int);
                lemma_width_given(fr, avail as int, i as int, used as int);
                assert(avail as int * (self.col_widths@[i as int] as int) <= u128::MAX) by (nonlinear_arith)
                    requires
                        0 <= avail <= u64::MAX,
                        0 <= self.col_widths@[i as int] <= u64::MAX,
                ;
            }
            let rest = avail - used;
            let w: usize = if i + 1 == n {
                rest
            } else {
                let raw = (avail as u128 * self.col_widths[i] as u128) / (FRACTION_SCALE as u128);
                if raw < rest as u128 {
                    raw as usize
                } else {
                    rest
                }
            };
            assert(w as int == col_width(fr, avail as int, i as int));
            let start: usize = if self.borders { 1 + used + i } else { used };
            widths.push(w);
            starts.push(start);
            used = used + w;
            i = i + 1;
        }
        (widths, starts)
    }
}

/// Red text, used for cells and columns the editor highlights.
pub open spec fn red() -> Color {
    Color::Named(NamedColor::Red)
}

/// Dim white, used for everything the editor's cell selection does not pick.
pub open spec fn dim_white() -> Style {
    Style { fg: Some(Color::Named(NamedColor::White)), bg: None, bold: false, dim: true }
}

impl Table {
    /// The style of cell `(r, c)`: its own style or the table's, bold in a bold
    /// header row, and under an editor overlay red when highlighted or
    /// selected, dim white when cell selection is active and it is not selected.
    pub open spec fn cell_style(self, ov: OverlayView, r: int, c: int) -> Style {
        let base = match self.own_style(r, c) {
            Some(st) => st,
            None => self.style,
        };
        let is_header = r == 0 && self.header_bold;
        let selected = ov.selected.contains((r as usize, c as usize));
        let in_col = ov.highlighted_col == Some(c as usize);
        if in_col || selected {
            Style { fg: Some(red()), bg: base.bg, bold: is_header || base.bold, dim: false }
        } else if ov.cell_mode {
            dim_white()
        } else if is_header {
            Style { fg: base.fg, bg: base.bg, bold: true, dim: base.dim }
        } else {
            base
        }
    }

    /// The style of a border piece belonging to column `ci` (or to none).
    pub open spec fn border_style(self, ov: OverlayView, ci: Option<int>) -> Style {
        let in_col = ov.highlighted_col is Some && ci is Some && ci->0 == ov.highlighted_col->0 as int;
        if ov.cell_mode && !in_col {
            dim_white()
        } else if in_col {
            Style { fg: Some(red()), bg: None, bold: false, dim: false }
        } else {
            self.style
        }
    }
}

/// Where one table is drawn at one frame.
pub struct Place {
    pub bx: int,
    pub by: int,
    pub avail: int,
}

/// The junction glyph at column `ci` of horizontal border line `br` of `nrows + 1`.
pub open spec fn junction(br: int, nrows: int, ci: int) -> char {
    if br == 0 {
        if ci == 0 { '┌' } else { '┬' }
    } else if br == nrows {
        if ci == 0 { '└' } else { '┴' }
    } else {
        if ci == 0 { '├' } else { '┼' }
    }
}

/// The right-end glyph of horizontal border line `br`.
pub open spec fn right_end(br: int, nrows: int) -> char {
    if br == 0 {
        '┐'
    } else if br == nrows {
        '┘'
    } else {
        '┤'
    }
}

impl Table {
    /// The row of horizontal border line `br`: the top edge, or just below row `br - 1`.
    pub open spec fn border_y(self, p: Place, br: int) -> int {
        if br == 0 {
            p.by
        } else {
            p.by + self.row_off(br - 1, p.avail) + self.row_h(br - 1, p.avail)
        }
    }

    /// The first `k` column pieces of horizontal border line `br` at row `y`:
    /// a junction, then a dash over each content column.
    pub open spec fn hline_cols(self, ov: OverlayView, p: Place, br: int, y: int, k: int) -> Seq<DrawOp>
        decreases k,
    {
        if k <= 0 {
            Seq::empty()
        } else {
            let ci = k - 1;
            let fr = self.col_widths@;
            let x = p.bx + ci + used_before(fr, p.avail, ci);
            self.hline_cols(ov, p, br, y, k - 1)
                + op_at(x, y, junction(br, self.rows as int, ci), self.border_style(ov, if ci > 0 { Some(ci) } else { None }), self.z_order)
                + row_ops(x + 1, y, col_width(fr, p.avail, ci), '─', self.border_style(ov, Some(ci)), self.z_order)
        }
    }

    /// Horizontal border line `br`.
    pub open spec fn hline(self, ov: OverlayView, p: Place, br: int) -> Seq<DrawOp> {
        let n = self.col_widths@.len() as int;
        let y = self.border_y(p, br);
        self.hline_cols(ov, p, br, y, n)
            + op_at(p.bx + n + used_before(self.col_widths@, p.avail, n), y, right_end(br, self.rows as int), self.border_style(ov, Some(n - 1)), self.z_order)
    }

    /// The first `k` horizontal border lines.
    pub open spec fn hlines(self, ov: OverlayView, p: Place, k: int) -> Seq<DrawOp>
        decreases k,
    {
        if k <= 0 {
            Seq::empty()
        } else {
            self.hlines(ov, p, k - 1) + self.hline(ov, p, k - 1)
        }
    }

    /// The column separator bars of the first `k` columns on row `y`.
    pub open spec fn bar_cols(self, ov: OverlayView, p: Place, y: int, k: int) -> Seq<DrawOp>
        decreases k,
    {
        if k <= 0 {
            Seq::empty()
        } else {
            let ci = k - 1;
            let fr = self.col_widths@;
            self.bar_cols(ov, p, y, k - 1)
                + op_at(p.bx + col_start(fr, p.avail, ci, self.borders) + col_width(fr, p.avail, ci), y, '│', self.border_style(ov, Some(ci)), self.z_order)
        }
    }

    /// The vertical bars of one content line at row `y`: the left edge, then
    /// the separator after each column.
    pub open spec fn bar_line(self, ov: OverlayView, p: Place, y: int) -> Seq<DrawOp> {
        op_at(p.bx, y, '│', self.border_style(ov, None), self.z_order) + self.bar_cols(ov, p, y, self.col_widths@.len() as int)
    }

    /// The bars of the first `k` lines of row `r`.
    pub open spec fn bar_row(self, ov: OverlayView, p: Place, r: int, k: int) -> Seq<DrawOp>
        decreases k,
    {
        if k <= 0 {
            Seq::empty()
        } else {
            self.bar_row(ov, p, r, k - 1) + self.bar_line(ov, p, p.by + self.row_off(r, p.avail) + (k - 1))
        }
    }

    /// The bars of the first `k` rows.
    pub open spec fn bars(self, ov: OverlayView, p: Place, k: int) -> Seq<DrawOp>
        decreases k,
    {
        if k <= 0 {
            Seq::empty()
        } else {
            self.bars(ov, p, k - 1) + self.bar_row(ov, p, k - 1, self.row_h(k - 1, p.avail))
        }
    }

    /// The text of cell `(r, c)`, wrapped to its column and drawn in the cell's
    /// style; spaces only with a background. Nothing in a column of width zero.
    pub open spec fn cell_ops(self, ov: OverlayView, p: Place, r: int, c: int) -> Seq<DrawOp> {
        let fr = self.col_widths@;
        let cw = col_width(fr, p.avail, c);
        let st = self.cell_style(ov, r, c);
        if cw == 0 {
            Seq::empty()
        } else {
            text_rows_ops(
                wrap_cell_spec(self.content_at(r, c), cw),
                None,
                st.bg is Some,
                p.bx + col_start(fr, p.avail, c, self.borders),
                p.by + self.row_off(r, p.avail),
                st,
                self.z_order,
            )
        }
    }

    /// The first `k` cells of row `r`.
    pub open spec fn row_cells(self, ov: OverlayView, p: Place, r: int, k: int) -> Seq<DrawOp>
        decreases k,
    {
        if k <= 0 {
            Seq::empty()
        } else {
            self.row_cells(ov, p, r, k - 1) + self.cell_ops(ov, p, r, k - 1)
        }
    }

    /// The cells of the first `k` rows.
    pub open spec fn all_cells(self, ov: OverlayView, p: Place, k: int) -> Seq<DrawOp>
        decreases k,
    {
        if k <= 0 {
            Seq::empty()
        } else {
            self.all_cells(ov, p, k - 1) + self.row_cells(ov, p, k - 1, self.col_widths@.len() as int)
        }
    }

    /// The whole table at a place: with borders, the horizontal lines top to
    /// bottom and the vertical bars row by row; then the cell text.
    pub open spec fn table_ops(self, ov: OverlayView, p: Place) -> Seq<DrawOp> {
        let nrows = self.rows as int;
        (if self.borders {
            self.hlines(ov, p, nrows + 1) + self.bars(ov, p, nrows)
        } else {
            Seq::empty()
        }) + self.all_cells(ov, p, nrows)
    }

    /// The operations of this table at `frame` under editor overlay `ov`.
    pub open spec fn overlay_ops(self, ov: OverlayView, frame: int) -> Seq<DrawOp> {
        let total = self.width.value_at(frame);
        if !self.frames.holds(frame) || total == 0 || self.col_widths@.len() == 0 || self.rows == 0 {
            Seq::empty()
        } else {
            self.table_ops(ov, Place {
                bx: self.position.x.value_at(frame),
                by: self.position.y.value_at(frame),
                avail: self.avail(total),
            })
        }
    }
}

/// No editor overlay.
pub open spec fn no_overlay() -> OverlayView {
    OverlayView { highlighted_col: None, selected: Seq::empty(), cell_mode: false }
}

/// The computed layout of a table at one frame.
pub struct Grid {
    pub bx: u16,
    pub by: u16,
    pub avail: usize,
    pub widths: Vec<usize>,
    pub starts: Vec<usize>,
    pub heights: Vec<usize>,
    pub offs: Vec<u64>,
}

impl Grid {
    /// The place this layout draws at.
    pub open spec fn place(self) -> Place {
        Place { bx: self.bx as int, by: self.by as int, avail: self.avail as int }
    }

    /// Whether this layout is the one of table `t`.
    pub open spec fn fits(self, t: Table) -> bool {
        let n = t.col_widths@.len();
        let fr = t.col_widths@;
        &&& self.widths@.len() == n
        &&& self.starts@.len() == n
        &&& forall|i: int| 0 <= i < n ==> (#[trigger] self.widths@[i]) as int == col_width(fr, self.avail as int, i)
        &&& forall|i: int| 0 <= i < n ==> (#[trigger] self.starts@[i]) as int == col_start(fr, self.avail as int, i, t.borders)
        &&& self.heights@.len() == t.rows
        &&& self.offs@.len() == t.rows
        &&& forall|r: int| 0 <= r < t.rows ==> (#[trigger] self.heights@[r]) as int == t.row_h(r, self.avail as int)
        &&& forall|r: int| 0 <= r < t.rows ==> (#[trigger] self.offs@[r]) as int == t.row_off(r, self.avail as int)
    }
}

impl Table {
    /// The text of cell `(r, c)` as characters.
    fn content_chars(&self, r: usize, c: usize) -> (v: Vec<char>)
        ensures
            v@ == self.content_at(r as int, c as int),
    {
        if r < self.cells.len() && c < self.cells[r].len() {
            chars_of(self.cells[r][c].content.as_str())
        } else {
            Vec::new()
        }
    }

    /// The style of cell `(r, c)` under overlay `ov`.
    fn style_of_cell(&self, ov: &Overlay, r: usize, c: usize) -> (st: Style)
        ensures
            st == self.cell_style(ov.view(), r as int, c as int),
    {
        let own = if r < self.cells.len() && c < self.cells[r].len() {
            self.cells[r][c].style
        } else {
            None
        };
        let base = match own {
            Some(st) => st,
            None => self.style,
        };
        let is_header = r == 0 && self.header_bold;
        let mut selected = false;
        let mut k: usize = 0;
        while k < ov.selected.len()
            invariant
                k <= ov.selected@.len(),
                selected == exists|j: int| 0 <= j < k && ov.selected@[j] == (r, c),
            decreases ov.selected@.len() - k,
        {
            if ov.selected[k].0 == r && ov.selected[k].1 == c {
                selected = true;
            }
            k = k + 1;
        }
        let in_col = match ov.highlighted_col {
            Some(h) => h == c,
            None => false,
        };
        if in_col || selected {
            Style { fg: Some(Color::Named(NamedColor::Red)), bg: base.bg, bold: is_header || base.bold, dim: false }
        } else if ov.cell_mode {
            Style { fg: Some(Color::Named(NamedColor::White)), bg: None, bold: false, dim: true }
        } else if is_header {
            Style { fg: base.fg, bg: base.bg, bold: true, dim: base.dim }
        } else {
            base
        }
    }

    /// The style of a border piece of column `ci` under overlay `ov`.
    fn style_of_border(&self, ov: &Overlay, ci: Option<usize>) -> (st: Style)
        ensures
            st == self.border_style(ov.view(), match ci {
                Some(c) => Some(c as int),
                None => None,
            }),
    {
        let in_col = match (ov.highlighted_col, ci) {
            (Some(h), Some(c)) => h == c,
            _ => false,
        };
        if ov.cell_mode && !in_col {
            Style { fg: Some(Color::Named(NamedColor::White)), bg: None, bold: false, dim: true }
        } else if in_col {
            Style { fg: Some(Color::Named(NamedColor::Red)), bg: None, bold: false, dim: false }
        } else {
            self.style
        }
    }

    /// The height of row `r` given the column widths.
    fn row_height(&self, r: usize, widths: &Vec<usize>, avail: usize) -> (h: usize)
        requires
            widths@.len() == self.col_widths@.len(),
            forall|i: int| 0 <= i < widths@.len() ==> (#[trigger] widths@[i]) as int == col_width(self.col_widths@, avail as int, i),
        ensures
            h as int == self.row_h(r as int, avail as int),
            h >= 1,
    {
        let mut m: usize = 1;
        let mut c: usize = 0;
        while c < widths.len()
            invariant
                c <= widths@.len(),
                widths@.len() == self.col_widths@.len(),
                forall|i: int| 0 <= i < widths@.len() ==> (#[trigger] widths@[i]) as int == col_width(self.col_widths@, avail as int, i),
                m as int == self.height_upto(r as int, c as int, avail as int),
                m >= 1,
            decreases widths@.len() - c,
        {
            let cw = widths[c];
            if cw > 0 {
                let content = self.content_chars(r, c);
                let lines = wrap_cell_content(&content, cw).len();
                if lines > m {
                    m = lines;
                }
            }
            c = c + 1;
        }
        m
    }

    /// Lay the table out for drawing at `(bx, by)` with `avail` text columns.
    fn grid(&self, bx: u16, by: u16, total: usize) -> (g: Grid)
        requires
            total > 0,
            self.col_widths@.len() > 0,
        ensures
            g.fits(*self),
            g.bx == bx,
            g.by == by,
            g.avail as int == self.avail(total as int),
    {
        let (widths, starts) = self.layout(total);
        let n = self.col_widths.len();
        let avail: usize = if !self.borders {
            total
        } else if total > n && total - n > 1 {
            total - (n + 1)
        } else {
            0
        };
        let mut heights: Vec<usize> = Vec::new();
        let mut offs: Vec<u64> = Vec::new();
        let gap: u64 = if self.borders { 1 } else { 0 };
        let mut off: u64 = gap;
        let mut r: usize = 0;
        while r < self.rows
            invariant
                r <= self.rows,
                widths@.len() == self.col_widths@.len(),
                avail as int == self.avail(total as int),
                forall|i: int| 0 <= i < widths@.len() ==> (#[trigger] widths@[i]) as int == col_width(self.col_widths@, avail as int, i),
                gap as int == self.gap(),
                off as int == self.row_off(r as int, avail as int),
                off <= FAR,
                heights@.len() == r,
                offs@.len() == r,
                forall|j: int| 0 <= j < r ==> (#[trigger] heights@[j]) as int == self.row_h(j, avail as int),
                forall|j: int| 0 <= j < r ==> (#[trigger] offs@[j]) as int == self.row_off(j, avail as int),
            decreases self.rows - r,
        {
            let h = self.row_height(r, &widths, avail);
            heights.push(h);
            offs.push(off);
            let next: u128 = off as u128 + h as u128 + gap as u128;
            off = if next < FAR as u128 { next as u64 } else { FAR };
            r = r + 1;
        }
        Grid { bx, by, avail, widths, starts, heights, offs }
    }
}

/// Append `n` cells of `ch` on row `y` from column `x`.
fn push_run(ops: &mut Vec<DrawOp>, x: i128, y: i128, n: usize, ch: char, st: Style, z: i32)
    requires
        0 <= x <= REACH,
        0 <= y <= REACH,
    ensures
        final(ops)@ == old(ops)@ + row_ops(x as int, y as int, n as int, ch, st, z),
{
    let mut i: usize = 0;
    while i < n
        invariant
            i <= n,
            0 <= x <= REACH,
            0 <= y <= REACH,
            ops@ == old(ops)@ + row_ops(x as int, y as int, i as int, ch, st, z),
        decreases n - i,
    {
        emit_at(ops, x + i as i128, y, ch, st, z);
        i = i + 1;
        assert(ops@ =~= old(ops)@ + row_ops(x as int, y as int, i as int, ch, st, z));
    }
}

impl Table {
    /// Append horizontal border line `br` at row `y`.
    fn push_hline(&self, ops: &mut Vec<DrawOp>, ov: &Overlay, g: &Grid, br: usize, y: i128)
        requires
            g.fits(*self),
            self.borders,
            self.col_widths@.len() > 0,
            y == self.border_y(g.place(), br as int),
            0 <= y <= REACH,
        ensures
            final(ops)@ == old(ops)@ + self.hline(ov.view(), g.place(), br as int),
    {
        let n = g.widths.len();
        let ghost p = g.place();
        let ghost fr = self.col_widths@;
        let mut ci: usize = 0;
        while ci < n
            invariant
                g.fits(*self),
                self.borders,
                n == fr.len(),
                fr == self.col_widths@,
                p == g.place(),
                ci <= n,
                0 <= y <= REACH,
                ops@ == old(ops)@ + self.hline_cols(ov.view(), p, br as int, y as int, ci as int),
            decreases n - ci,
        {
            proof {
                lemma_used_bounded(fr, g.avail as int, ci as int);
            }
            let x = g.bx as i128 + g.starts[ci] as i128 - 1;
            assert(x == p.bx + ci + used_before(fr, p.avail, ci as int));
            let corner_style = self.style_of_border(ov, if ci > 0 { Some(ci) } else { None });
            let ch = if br == 0 {
                if ci == 0 { '┌' } else { '┬' }
            } else if br == self.rows {
                if ci == 0 { '└' } else { '┴' }
            } else {
                if ci == 0 { '├' } else { '┼' }
            };
            emit_at(ops, x, y, ch, corner_style, self.z_order);
            let dash_style = self.style_of_border(ov, Some(ci));
            push_run(ops, x + 1, y, g.widths[ci], '─', dash_style, self.z_order);
            ci = ci + 1;
            assert(ops@ =~= old(ops)@ + self.hline_cols(ov.view(), p, br as int, y as int, ci as int));
        }
        proof {
            lemma_used_bounded(fr, g.avail as int, n - 1);
        }
        let last_x = g.bx as i128 + g.starts[n - 1] as i128 + g.widths[n - 1] as i128;
        assert(last_x == p.bx + n + used_before(fr, p.avail, n as int));
        let end = if br == 0 {
            '┐'
        } else if br == self.rows {
            '┘'
        } else {
            '┤'
        };
        let end_style = self.style_of_border(ov, Some(n - 1));
        emit_at(ops, last_x, y, end, end_style, self.z_order);
    }

    /// Append every horizontal border line.
    fn push_hlines(&self, ops: &mut Vec<DrawOp>, ov: &Overlay, g: &Grid)
        requires
            g.fits(*self),
            self.borders,
            self.col_widths@.len() > 0,
            self.rows > 0,
        ensures
            final(ops)@ == old(ops)@ + self.hlines(ov.view(), g.place(), self.rows as int + 1),
    {
        let ghost p = g.place();
        self.push_hline(ops, ov, g, 0, g.by as i128);
        assert(self.hlines(ov.view(), p, 1) == self.hlines(ov.view(), p, 0) + self.hline(ov.view(), p, 0));
        assert(ops@ =~= old(ops)@ + self.hlines(ov.view(), p, 1));
        let mut k: usize = 0;
        while k < self.rows
            invariant
                g.fits(*self),
                self.borders,
                self.col_widths@.len() > 0,
                p == g.place(),
                k <= self.rows,
                ops@ == old(ops)@ + self.hlines(ov.view(), p, k + 1),
            decreases self.rows - k,
        {
            let y: i128 = g.by as i128 + g.offs[k] as i128 + g.heights[k] as i128;
            self.push_hline(ops, ov, g, k + 1, y);
            k = k + 1;
        }
    }

    /// Append the vertical bars of one content line at row `y`.
    fn push_bar_line(&self, ops: &mut Vec<DrawOp>, ov: &Overlay, g: &Grid, y: i128)
        requires
            g.fits(*self),
            0 <= y <= REACH,
        ensures
            final(ops)@ == old(ops)@ + self.bar_line(ov.view(), g.place(), y as int),
    {
        let ghost p = g.place();
        let left = self.style_of_border(ov, None);
        emit_at(ops, g.bx as i128, y, '│', left, self.z_order);
        let ghost mid = ops@;
        let mut ci: usize = 0;
        while ci < g.widths.len()
            invariant
                g.fits(*self),
                p == g.place(),
                ci <= g.widths@.len(),
                0 <= y <= REACH,
                ops@ == mid + self.bar_cols(ov.view(), p, y as int, ci as int),
            decreases g.widths@.len() - ci,
        {
            let st = self.style_of_border(ov, Some(ci));
            emit_at(ops, g.bx as i128 + g.starts[ci] as i128 + g.widths[ci] as i128, y, '│', st, self.z_order);
            ci = ci + 1;
            assert(ops@ =~= mid + self.bar_cols(ov.view(), p, y as int, ci as int));
        }
        assert(ops@ =~= old(ops)@ + self.bar_line(ov.view(), p, y as int));
    }

    /// Append the vertical bars of every content line.
    fn push_bars(&self, ops: &mut Vec<DrawOp>, ov: &Overlay, g: &Grid)
        requires
            g.fits(*self),
        ensures
            final(ops)@ == old(ops)@ + self.bars(ov.view(), g.place(), self.rows as int),
    {
        let ghost p = g.place();
        let mut r: usize = 0;
        while r < self.rows
            invariant
                g.fits(*self),
                p == g.place(),
                r <= self.rows,
                ops@ == old(ops)@ + self.bars(ov.view(), p, r as int),
            decreases self.rows - r,
        {
            let ghost before = ops@;
            let h = g.heights[r];
            let mut line: usize = 0;
            while line < h
                invariant
                    g.fits(*self),
                    p == g.place(),
                    r < self.rows,
                    h as int == self.row_h(r as int, p.avail),
                    line <= h,
                    ops@ == before + self.bar_row(ov.view(), p, r as int, line as int),
                decreases h - line,
            {
                let y = g.by as i128 + g.offs[r] as i128 + line as i128;
                self.push_bar_line(ops, ov, g, y);
                line = line + 1;
            }
            r = r + 1;
        }
    }

    /// Append the text of every cell.
    fn push_cells(&self, ops: &mut Vec<DrawOp>, ov: &Overlay, g: &Grid)
        requires
            g.fits(*self),
        ensures
            final(ops)@ == old(ops)@ + self.all_cells(ov.view(), g.place(), self.rows as int),
    {
        let ghost p = g.place();
        let mut r: usize = 0;
        while r < self.rows
            invariant
                g.fits(*self),
                p == g.place(),
                r <= self.rows,
                ops@ == old(ops)@ + self.all_cells(ov.view(), p, r as int),
            decreases self.rows - r,
        {
            let ghost before = ops@;
            let mut c: usize = 0;
            while c < g.widths.len()
                invariant
                    g.fits(*self),
                    p == g.place(),
                    r < self.rows,
                    c <= g.widths@.len(),
                    ops@ == before + self.row_cells(ov.view(), p, r as int, c as int),
                decreases g.widths@.len() - c,
            {
                let cw = g.widths[c];
                if cw > 0 {
                    let st = self.style_of_cell(ov, r, c);
                    let content = self.content_chars(r, c);
                    let wrapped = wrap_cell_content(&content, cw);
                    push_text_rows(
                        ops,
                        &wrapped,
                        None,
                        st.bg.is_some(),
                        g.bx as i128 + g.starts[c] as i128,
                        g.by as i128 + g.offs[r] as i128,
                        st,
                        self.z_order,
                    );
                } else {
                    assert(ops@ + Seq::empty() =~= ops@);
                }
                c = c + 1;
            }
            r = r + 1;
        }
    }

    /// Append this table's operations at `frame` under editor overlay `ov`.
    fn resolve_internal(&self, frame: usize, ov: &Overlay, ops: &mut Vec<DrawOp>)
        ensures
            final(ops)@ == old(ops)@ + self.overlay_ops(ov.view(), frame as int),
    {
        if !self.frames.contains(frame) {
            assert(old(ops)@ + Seq::empty() =~= old(ops)@);
            return;
        }
        let bx = self.position.x.evaluate(frame);
        let by = self.position.y.evaluate(frame);
        let total = self.width.evaluate(frame) as usize;
        if total == 0 || self.col_widths.len() == 0 || self.rows == 0 {
            assert(old(ops)@ + Seq::empty() =~= old(ops)@);
            return;
        }
        let g = self.grid(bx, by, total);
        if self.borders {
            self.push_hlines(ops, ov, &g);
            self.push_bars(ops, ov, &g);
        } else {
            assert(ops@ + Seq::empty() =~= ops@);
        }
        self.push_cells(ops, ov, &g);
        assert(ops@ =~= old(ops)@ + self.overlay_ops(ov.view(), frame as int));
    }
}

/// `z + d`, saturated at the largest z-order.
pub open spec fn z_plus(z: i32, d: int) -> i32 {
    if z + d > i32::MAX {
        i32::MAX
    } else {
        (z + d) as i32
    }
}

/// The style of the editor's cell cursor.
pub open spec fn cursor_style() -> Style {
    Style { fg: Some(Color::Named(NamedColor::White)), bg: None, bold: true, dim: false }
}

/// `v` saturated to the `u16` range.
pub open spec fn sat16(v: int) -> int {
    if v > u16::MAX {
        u16::MAX as int
    } else {
        v
    }
}

impl Table {
    /// The first `k` lines of the cursor over cell `(row, col)`: spaces in the
    /// cursor style, one hundred z-levels above the table.
    pub open spec fn cursor_lines(self, p: Place, row: int, col: int, k: int) -> Seq<DrawOp>
        decreases k,
    {
        if k <= 0 {
            Seq::empty()
        } else {
            let fr = self.col_widths@;
            self.cursor_lines(p, row, col, k - 1) + row_ops(
                p.bx + col_start(fr, p.avail, col, self.borders),
                p.by + self.row_off(row, p.avail) + (k - 1),
                col_width(fr, p.avail, col),
                ' ',
                cursor_style(),
                z_plus(self.z_order, 100),
            )
        }
    }

    /// The cursor over cell `(row, col)` at `frame`; nothing for a cell outside the table.
    pub open spec fn cursor_ops(self, frame: int, row: int, col: int) -> Seq<DrawOp> {
        let total = self.width.value_at(frame);
        let p = Place {
            bx: self.position.x.value_at(frame),
            by: self.position.y.value_at(frame),
            avail: self.avail(total),
        };
        if total == 0 || col >= self.col_widths@.len() || row >= self.rows {
            Seq::empty()
        } else {
            self.cursor_lines(p, row, col, self.row_h(row, p.avail))
        }
    }

    fn draw_cursor_cell(&self, frame: usize, row: usize, col: usize, ops: &mut Vec<DrawOp>)
        ensures
            final(ops)@ == old(ops)@ + self.cursor_ops(frame as int, row as int, col as int),
    {
        let total = self.width.evaluate(frame) as usize;
        if total == 0 || col >= self.col_widths.len() || row >= self.rows {
            assert(old(ops)@ + Seq::empty() =~= old(ops)@);
            return;
        }
        let bx = self.position.x.evaluate(frame);
        let by = self.position.y.evaluate(frame);
        let g = self.grid(bx, by, total);
        let ghost p = g.place();
        let st = Style { fg: Some(Color::Named(NamedColor::White)), bg: None, bold: true, dim: false };
        let z: i32 = if self.z_order > i32::MAX - 100 { i32::MAX } else { self.z_order + 100 };
        let h = g.heights[row];
        let mut line: usize = 0;
        while line < h
            invariant
                g.fits(*self),
                p == g.place(),
                row < self.rows,
                col < self.col_widths@.len(),
                h as int == self.row_h(row as int, p.avail),
                line <= h,
                z == z_plus(self.z_order, 100),
                st == cursor_style(),
                ops@ == old(ops)@ + self.cursor_lines(p, row as int, col as int, line as int),
            decreases h - line,
        {
            push_run(ops, g.bx as i128 + g.starts[col] as i128, g.by as i128 + g.offs[row] as i128 + line as i128, g.widths[col], ' ', st, z);
            line = line + 1;
        }
    }

    /// Draw the table under the editor's overlays: `highlighted_col` marks a
    /// column about to be removed, `selected_cells` and `cursor_cell` belong to cell
    /// selection (which dims everything not selected); the cursor is drawn on
    /// top unless `blink_hidden`.
    pub fn resolve_with_editor_overlay(
        &self,
        frame: usize,
        highlighted_col: Option<usize>,
        selected_cells: &[(usize, usize)],
        cursor_cell: Option<(usize, usize)>,
        blink_hidden: bool,
        ops: &mut Vec<DrawOp>,
    )
        ensures
            final(ops)@ == old(ops)@ + self.overlay_ops(
                OverlayView {
                    highlighted_col,
                    selected: selected_cells@,
                    cell_mode: cursor_cell is Some || selected_cells@.len() > 0,
                },
                frame as int,
            ) + match cursor_cell {
                Some((r, c)) => if blink_hidden {
                    Seq::empty()
                } else {
                    self.cursor_ops(frame as int, r as int, c as int)
                },
                None => Seq::empty(),
            },
    {
        let mut selected: Vec<(usize, usize)> = Vec::new();
        let mut k: usize = 0;
        while k < selected_cells.len()
            invariant
                k <= selected_cells@.len(),
                selected@ == selected_cells@.subrange(0, k as int),
            decreases selected_cells@.len() - k,
        {
            selected.push(selected_cells[k]);
            k = k + 1;
            assert(selected@ =~= selected_cells@.subrange(0, k as int));
        }
        assert(selected@ =~= selected_cells@);
        let cell_mode = cursor_cell.is_some() || selected_cells.len() > 0;
        let ov = Overlay { highlighted_col, selected, cell_mode };
        self.resolve_internal(frame, &ov, ops);
        let ghost mid = ops@;
        match cursor_cell {
            Some((r, c)) => {
                if !blink_hidden {
                    self.draw_cursor_cell(frame, r, c, ops);
                } else {
                    assert(ops@ + Seq::empty() =~= ops@);
                }
            },
            None => {
                assert(ops@ + Seq::empty() =~= ops@);
            },
        }
    }

    /// The columns `[start, end)` of column `col_idx`'s content at `frame`,
    /// saturated to the `u16` range; `None` for a column outside the layout.
    pub fn col_pixel_range(&self, frame: usize, col_idx: usize) -> (r: Option<(u16, u16)>)
        ensures
            ({
                let total = self.width.value_at(frame as int);
                let fr = self.col_widths@;
                let av = self.avail(total);
                let x = self.position.x.value_at(frame as int) + col_start(fr, av, col_idx as int, self.borders);
                r == if total == 0 || col_idx >= fr.len() {
                    None
                } else {
                    Some((sat16(x) as u16, sat16(x + col_width(fr, av, col_idx as int)) as u16))
                }
            }),
    {
        let total = self.width.evaluate(frame) as usize;
        let (cws, starts) = self.layout(total);
        if col_idx >= cws.len() {
            return None;
        }
        let base_x = self.position.x.evaluate(frame);
        let x: u128 = base_x as u128 + starts[col_idx] as u128;
        let e: u128 = x + cws[col_idx] as u128;
        let xs: u16 = if x > u16::MAX as u128 { u16::MAX } else { x as u16 };
        let es: u16 = if e > u16::MAX as u128 { u16::MAX } else { e as u16 };
        Some((xs, es))
    }

    /// The rows `[start, end)` of row `row_idx`'s content at `frame`,
    /// saturated to the `u16` range; `None` for a row outside the table.
    pub fn row_pixel_range(&self, frame: usize, row_idx: usize) -> (r: Option<(u16, u16)>)
        ensures
            ({
                let total = self.width.value_at(frame as int);
                let av = self.avail(total);
                let y = self.position.y.value_at(frame as int) + self.row_off(row_idx as int, av);
                r == if row_idx >= self.rows {
                    None
                } else {
                    Some((sat16(y) as u16, sat16(y + self.row_h(row_idx as int, av)) as u16))
                }
            }),
    {
        if row_idx >= self.rows {
            return None;
        }
        let total = self.width.evaluate(frame) as usize;
        let n = self.col_widths.len();
        let avail: usize = if !self.borders {
            total
        } else if total > n && total - n > 1 {
            total - (n + 1)
        } else {
            0
        };
        let widths: Vec<usize> = if total > 0 && n > 0 {
            self.layout(total).0
        } else {
            let mut z: Vec<usize> = Vec::new();
            let mut i: usize = 0;
            while i < n
                invariant
                    i <= n,
                    n == self.col_widths@.len(),
                    n > 0 ==> avail == 0,
                    z@.len() == i,
                    forall|j: int| 0 <= j < i ==> (#[trigger] z@[j]) as int == col_width(self.col_widths@, avail as int, j),
                decreases n - i,
            {
                proof {
                    lemma_used_bounded(self.col_widths@, 0, i as int);
                    lemma_width_given(self.col_widths@, 0, i as int, used_before(self.col_widths@, 0, i as int));
                }
                z.push(0);
                i = i + 1;
            }
            z
        };
        let gap: u64 = if self.borders { 1 } else { 0 };
        let mut off: u64 = gap;
        let mut r: usize = 0;
        while r < row_idx
            invariant
                r <= row_idx,
                row_idx < self.rows,
                widths@.len() == self.col_widths@.len(),
                avail as int == self.avail(total as int),
                forall|i: int| 0 <= i < widths@.len() ==> (#[trigger] widths@[i]) as int == col_width(self.col_widths@, avail as int, i),
                gap as int == self.gap(),
                off as int == self.row_off(r as int, avail as int),
                off <= FAR,
            decreases row_idx - r,
        {
            let h = self.row_height(r, &widths, avail);
            let next: u128 = off as u128 + h as u128 + gap as u128;
            off = if next < FAR as u128 { next as u64 } else { FAR };
            r = r + 1;
        }
        let h = self.row_height(row_idx, &widths, avail);
        let base_y = self.position.y.evaluate(frame);
        let y: u128 = base_y as u128 + off as u128;
        let e: u128 = y + h as u128;
        let ys: u16 = if y > u16::MAX as u128 { u16::MAX } else { y as u16 };
        let es: u16 = if e > u16::MAX as u128 { u16::MAX } else { e as u16 };
        Some((ys, es))
    }
}

impl Resolve for Table {
    open spec fn drawn(&self, frame: int) -> Seq<DrawOp> {
        self.overlay_ops(no_overlay(), frame)
    }

    fn resolve(&self, frame: usize, ops: &mut Vec<DrawOp>) {
        let ov = Overlay { highlighted_col: None, selected: Vec::new(), cell_mode: false };
        assert(ov.view() == no_overlay());
        self.resolve_internal(frame, &ov, ops);
    }
}

/// The contents and own style of a cell.
pub open spec fn cell_view(c: TableCell) -> (Seq<char>, Option<Style>) {
    (c.content@, c.style)
}

/// The contents and own styles of a row of cells.
pub open spec fn row_view(row: Seq<TableCell>) -> Seq<(Seq<char>, Option<Style>)> {
    row.map_values(|c: TableCell| cell_view(c))
}

/// The view of an empty cell.
pub open spec fn empty_cell() -> (Seq<char>, Option<Style>) {
    (Seq::empty(), None)
}

/// Fractions after inserting a column at `i` into `ws`: the others scaled by
/// `n / (n + 1)`, the new one `1 / (n + 1)`, all rounded down.
pub open spec fn added_widths(ws: Seq<u64>, i: int) -> Seq<u64> {
    let n = ws.len() as int;
    ws.map_values(|w: u64| (w as int * n / (n + 1)) as u64).insert(i, (FRACTION_SCALE as int / (n + 1)) as u64)
}

/// Fractions after removing column `i` from `ws`: the others scaled up by the
/// share that remains (saturated), or shared equally when almost none remains.
pub open spec fn removed_widths(ws: Seq<u64>, i: int) -> Seq<u64> {
    let removed = ws[i] as int;
    let rest = ws.remove(i);
    let remaining = FRACTION_SCALE as int - removed;
    if remaining > (FRACTION_SCALE / 1000) as int {
        rest.map_values(|w: u64| if w as int * (FRACTION_SCALE as int) / remaining > u64::MAX { u64::MAX } else { (w as int * (FRACTION_SCALE as int) / remaining) as u64 })
    } else {
        rest.map_values(|w: u64| (FRACTION_SCALE as int / rest.len() as int) as u64)
    }
}

impl TableCell {
    /// A copy of this cell.
    pub fn duplicate(&self) -> (r: TableCell)
        ensures
            cell_view(r) == cell_view(*self),
    {
        TableCell { content: self.content.clone(), style: self.style }
    }
}

impl Table {
    /// The view of cell `(r, c)`; an empty cell where it is missing.
    pub open spec fn cell_at(self, r: int, c: int) -> (Seq<char>, Option<Style>) {
        (self.content_at(r, c), self.own_style(r, c))
    }

    /// Whether the two tables agree in everything but columns and cells.
    pub open spec fn same_settings(self, o: Table) -> bool {
        &&& self.position == o.position
        &&& self.width == o.width
        &&& self.height == o.height
        &&& self.rows == o.rows
        &&& self.header_bold == o.header_bold
        &&& self.borders == o.borders
        &&& self.style == o.style
        &&& self.frames == o.frames
        &&& self.z_order == o.z_order
    }

    fn cell_copy(&self, r: usize, c: usize) -> (cell: TableCell)
        ensures
            cell_view(cell) == self.cell_at(r as int, c as int),
    {
        if r < self.cells.len() && c < self.cells[r].len() {
            self.cells[r][c].duplicate()
        } else {
            TableCell::empty()
        }
    }

    /// Make `cells` exactly `rows` by `col_count()`: missing cells are added
    /// empty, surplus ones dropped.
    pub fn normalize_cells(&mut self)
        ensures
            final(self).same_settings(*old(self)),
            final(self).col_widths@ == old(self).col_widths@,
            final(self).cells@.len() == old(self).rows,
            forall|r: int| 0 <= r < old(self).rows ==> (#[trigger] final(self).cells@[r])@.len() == old(self).col_widths@.len(),
            forall|r: int, c: int| 0 <= r < old(self).rows && 0 <= c < old(self).col_widths@.len()
                ==> #[trigger] final(self).cell_at(r, c) == old(self).cell_at(r, c),
    {
        let n = self.col_widths.len();
        let mut cells: Vec<Vec<TableCell>> = Vec::new();
        let mut r: usize = 0;
        while r < self.rows
            invariant
                n == self.col_widths@.len(),
                r <= self.rows,
                *self == *old(self),
                cells@.len() == r,
                forall|j: int| 0 <= j < r ==> (#[trigger] cells@[j])@.len() == n,
                forall|j: int, c: int| 0 <= j < r && 0 <= c < n ==> cell_view(#[trigger] cells@[j]@[c]) == self.cell_at(j, c),
            decreases self.rows - r,
        {
            let mut row: Vec<TableCell> = Vec::new();
            let mut c: usize = 0;
            while c < n
                invariant
                    c <= n,
                    *self == *old(self),
                    row@.len() == c,
                    forall|k: int| 0 <= k < c ==> cell_view(#[trigger] row@[k]) == self.cell_at(r as int, k),
                decreases n - c,
            {
                row.push(self.cell_copy(r, c));
                c = c + 1;
            }
            cells.push(row);
            r = r + 1;
        }
        self.cells = cells;
    }
}

/// Insert a column at `insert_idx` (at the end when beyond it): the existing
/// fractions are scaled by `n / (n + 1)`, the new column gets `1 / (n + 1)`,
/// and every row gets an empty cell there; the cells become `rows` by `n + 1`.
pub fn table_add_column(table: &mut Table, insert_idx: usize)
    requires
        old(table).col_widths@.len() < usize::MAX,
    ensures
        ({
            let n = old(table).col_widths@.len() as int;
            let i = if insert_idx as int <= n { insert_idx as int } else { n };
            &&& final(table).same_settings(*old(table))
            &&& final(table).col_widths@ == added_widths(old(table).col_widths@, i)
            &&& final(table).cells@.len() == old(table).rows
            &&& forall|r: int| 0 <= r < old(table).rows ==> (#[trigger] final(table).cells@[r])@.len() == n + 1
            &&& forall|r: int, c: int| 0 <= r < old(table).rows && 0 <= c <= n ==> #[trigger] final(table).cell_at(r, c) == if c == i {
                empty_cell()
            } else if c < i {
                old(table).cell_at(r, c)
            } else {
                old(table).cell_at(r, c - 1)
            }
        }),
{
    let n = table.col_widths.len();
    let idx = if insert_idx <= n { insert_idx } else { n };
    let ghost old_ws = table.col_widths@;
    let mut ws: Vec<u64> = Vec::new();
    let mut k: usize = 0;
    while k < n
        invariant
            k <= n,
            n == old_ws.len(),
            old_ws == table.col_widths@,
            ws@ == old_ws.subrange(0, k as int).map_values(|w: u64| (w as int * n / (n + 1)) as u64),
        decreases n - k,
    {
        let w = table.col_widths[k];
        proof {
            assert(w as int * n as int / (n + 1) <= w as int) by (nonlinear_arith)
                requires
                    w >= 0,
                    n >= 0,
            ;
            assert(0 <= w as int * n as int) by (nonlinear_arith)
                requires
                    w >= 0,
                    n >= 0,
            ;
            assert(w as int * n as int <= u128::MAX) by (nonlinear_arith)
                requires
                    w <= u64::MAX,
                    n <= u64::MAX,
                    w >= 0,
                    n >= 0,
            ;
        }
        let scaled = (w as u128 * n as u128 / (n as u128 + 1)) as u64;
        ws.push(scaled);
        k = k + 1;
        assert(ws@ =~= old_ws.subrange(0, k as int).map_values(|w: u64| (w as int * n / (n + 1)) as u64));
    }
    assert(old_ws.subrange(0, n as int) =~= old_ws);
    let share = FRACTION_SCALE / (n as u64 + 1);
    ws.insert(idx, share);
    let mut cells: Vec<Vec<TableCell>> = Vec::new();
    let mut r: usize = 0;
    while r < table.rows
        invariant
            n == old_ws.len(),
            n < usize::MAX,
            idx <= n,
            r <= table.rows,
            *table == *old(table),
            cells@.len() == r,
            forall|j: int| 0 <= j < r ==> (#[trigger] cells@[j])@.len() == n + 1,
            forall|j: int, c: int| 0 <= j < r && 0 <= c <= n ==> cell_view(#[trigger] cells@[j]@[c]) == if c == idx {
                empty_cell()
            } else if c < idx {
                table.cell_at(j, c)
            } else {
                table.cell_at(j, c - 1)
            },
        decreases table.rows - r,
    {
        let mut row: Vec<TableCell> = Vec::new();
        let mut c: usize = 0;
        while c <= n
            invariant
                c <= n + 1,
                n < usize::MAX,
                idx <= n,
                *table == *old(table),
                row@.len() == c,
                forall|kk: int| 0 <= kk < c ==> cell_view(#[trigger] row@[kk]) == if kk == idx {
                    empty_cell()
                } else if kk < idx {
                    table.cell_at(r as int, kk)
                } else {
                    table.cell_at(r as int, kk - 1)
                },
            decreases n + 1 - c,
        {
            let cell = if c == idx {
                TableCell::empty()
            } else if c < idx {
                table.cell_copy(r, c)
            } else {
                table.cell_copy(r, c - 1)
            };
            row.push(cell);
            c = c + 1;
        }
        cells.push(row);
        r = r + 1;
    }
    table.col_widths = ws;
    table.cells = cells;
}

/// Remove column `col_idx`, unless it does not exist or is the only one: the
/// remaining fractions are scaled up by the share that remains, or shared
/// equally when less than a thousandth remains, and each row that has the
/// cell loses it.
pub fn table_remove_column(table: &mut Table, col_idx: usize)
    ensures
        final(table).same_settings(*old(table)),
        old(table).col_widths@.len() <= 1 || col_idx >= old(table).col_widths@.len() ==> {
            &&& final(table).col_widths@ == old(table).col_widths@
            &&& final(table).cells@.len() == old(table).cells@.len()
            &&& forall|r: int| 0 <= r < old(table).cells@.len() ==> row_view(#[trigger] final(table).cells@[r]@) == row_view(old(table).cells@[r]@)
        },
        old(table).col_widths@.len() > 1 && col_idx < old(table).col_widths@.len() ==> {
            &&& final(table).col_widths@ == removed_widths(old(table).col_widths@, col_idx as int)
            &&& final(table).cells@.len() == old(table).cells@.len()
            &&& forall|r: int| 0 <= r < old(table).cells@.len() ==> row_view(#[trigger] final(table).cells@[r]@) == if (col_idx as int) < old(table).cells@[r]@.len() {
                row_view(old(table).cells@[r]@).remove(col_idx as int)
            } else {
                row_view(old(table).cells@[r]@)
            }
        },
{
    let n = table.col_widths.len();
    if n <= 1 || col_idx >= n {
        return;
    }
    let ghost old_ws = table.col_widths@;
    let removed = table.col_widths[col_idx];
    let ghost rest = old_ws.remove(col_idx as int);
    let mut ws: Vec<u64> = Vec::new();
    let mut k: usize = 0;
    let spread = removed < FRACTION_SCALE && FRACTION_SCALE - removed > FRACTION_SCALE / 1000;
    let remaining: u64 = if removed < FRACTION_SCALE { FRACTION_SCALE - removed } else { 0 };
    while k < n
        invariant
            k <= n,
            n == old_ws.len(),
            n > 1,
            col_idx < n,
            old_ws == table.col_widths@,
            *table == *old(table),
            removed == old_ws[col_idx as int],
            rest == old_ws.remove(col_idx as int),
            spread == (FRACTION_SCALE as int - removed as int > (FRACTION_SCALE / 1000) as int),
            spread ==> remaining as int == FRACTION_SCALE as int - removed as int,
            ws@.len() == if k <= col_idx { k as int } else { k - 1 },
            forall|j: int| 0 <= j < ws@.len() ==> #[trigger] ws@[j] == removed_widths(old_ws, col_idx as int)[j],
        decreases n - k,
    {
        if k != col_idx {
            let w = table.col_widths[k];
            let v: u64 = if spread {
                proof {
                    assert(w as int * FRACTION_SCALE as int <= u128::MAX) by (nonlinear_arith)
                        requires
                            0 <= w <= u64::MAX,
                    ;
                    assert(0 <= w as int * FRACTION_SCALE as int) by (nonlinear_arith)
                        requires
                            0 <= w,
                    ;
                }
                let q: u128 = w as u128 * FRACTION_SCALE as u128 / remaining as u128;
                if q > u64::MAX as u128 { u64::MAX } else { q as u64 }
            } else {
                FRACTION_SCALE / (n as u64 - 1)
            };
            let ghost j = ws@.len() as int;
            assert(rest[j] == old_ws[k as int]);
            ws.push(v);
        }
        k = k + 1;
    }
    assert(ws@ =~= removed_widths(old_ws, col_idx as int));
    table.col_widths = ws;
    let mut cells: Vec<Vec<TableCell>> = Vec::new();
    let mut r: usize = 0;
    while r < table.cells.len()
        invariant
            r <= table.cells@.len(),
            table.cells == old(table).cells,
            cells@.len() == r,
            forall|j: int| 0 <= j < r ==> row_view(#[trigger] cells@[j]@) == if (col_idx as int) < old(table).cells@[j]@.len() {
                row_view(old(table).cells@[j]@).remove(col_idx as int)
            } else {
                row_view(old(table).cells@[j]@)
            },
        decreases table.cells@.len() - r,
    {
        let src = &table.cells[r];
        let mut row: Vec<TableCell> = Vec::new();
        let mut c: usize = 0;
        while c < src.len()
            invariant
                c <= src@.len(),
                *src == old(table).cells@[r as int],
                row@.len() == if c <= col_idx || col_idx >= src@.len() { c as int } else { c - 1 },
                forall|kk: int| 0 <= kk < row@.len() ==> cell_view(#[trigger] row@[kk]) == (if (col_idx as int) < src@.len() {
                    row_view(src@).remove(col_idx as int)
                } else {
                    row_view(src@)
                })[kk],
            decreases src@.len() - c,
        {
            if c != col_idx {
                row.push(src[c].duplicate());
            }
            c = c + 1;
        }
        assert(row_view(row@) =~= (if (col_idx as int) < src@.len() {
            row_view(src@).remove(col_idx as int)
        } else {
            row_view(src@)
        }));
        cells.push(row);
        r = r + 1;
    }
    table.cells = cells;
}

/// Scaling a fraction of at most one whole down for an inserted column and
/// back up for its removal loses at most five billionths.
proof fn lemma_rescale_round_trip(w: int, n: int)
    requires
        n >= 1,
        0 <= w <= FRACTION_SCALE as int,
    ensures
        ({
            let sc = FRACTION_SCALE as int;
            let a = w * n / (n + 1);
            let rem = sc - sc / (n + 1);
            &&& rem > sc / 1000
            &&& 0 <= a <= w
            &&& w - 5 <= a * sc / rem <= w
        }),
{
    let sc = FRACTION_SCALE as int;
    let a = w * n / (n + 1);
    let rr = sc / (n + 1);
    let rem = sc - rr;
    vstd::arithmetic::div_mod::lemma_fundamental_div_mod(w * n, n + 1);
    vstd::arithmetic::div_mod::lemma_fundamental_div_mod(sc, n + 1);
    let ma = (w * n) % (n + 1);
    let mr = sc % (n + 1);
    assert(0 <= ma < n + 1);
    assert(0 <= mr < n + 1);
    assert((n + 1) * a + ma == w * n);
    assert((n + 1) * rr + mr == sc);
    assert(rr <= sc / 2) by (nonlinear_arith)
        requires
            (n + 1) * rr + mr == sc,
            0 <= mr,
            n >= 1,
            sc == 1_000_000_000,
    ;
    assert(rr >= 0) by (nonlinear_arith)
        requires
            (n + 1) * rr + mr == sc,
            mr < n + 1,
            n >= 1,
            sc == 1_000_000_000,
    ;
    assert(rem > sc / 1000);
    assert(0 <= a <= w) by (nonlinear_arith)
        requires
            (n + 1) * a + ma == w * n,
            0 <= ma < n + 1,
            0 <= w,
            n >= 1,
    ;
    assert((n + 1) * rem == (n + 1) * sc - (n + 1) * rr) by (nonlinear_arith)
        requires
            rem == sc - rr,
    ;
    assert((n + 1) * rem == n * sc + mr) by (nonlinear_arith)
        requires
            (n + 1) * rem == (n + 1) * sc - (n + 1) * rr,
            (n + 1) * rr + mr == sc,
    ;
    assert(rem > 0);
    // a * sc <= w * rem
    assert((n + 1) * a <= w * n);
    assert(((n + 1) * a) * sc <= (w * n) * sc) by (nonlinear_arith)
        requires
            (n + 1) * a <= w * n,
            sc >= 0,
    ;
    assert((n + 1) * (w * rem) == w * (n * sc + mr)) by (nonlinear_arith)
        requires
            (n + 1) * rem == n * sc + mr,
    ;
    assert(w * (n * sc + mr) >= (w * n) * sc) by (nonlinear_arith)
        requires
            w >= 0,
            mr >= 0,
    ;
    assert((n + 1) * (a * sc) == ((n + 1) * a) * sc) by (nonlinear_arith);
    assert(a * sc <= w * rem) by (nonlinear_arith)
        requires
            (n + 1) * (a * sc) <= (n + 1) * (w * rem),
            n >= 1,
    ;
    // (w - 5) * rem <= a * sc
    if w >= 5 {
        assert((n + 1) * a >= w * n - n);
        assert(((n + 1) * a) * sc >= (w * n - n) * sc) by (nonlinear_arith)
            requires
                (n + 1) * a >= w * n - n,
                sc >= 0,
        ;
        assert((n + 1) * ((w - 5) * rem) == (w - 5) * (n * sc + mr)) by (nonlinear_arith)
            requires
                (n + 1) * rem == n * sc + mr,
        ;
        assert((w - 5) * (n * sc + mr) <= (w - 5) * (n * sc + n)) by (nonlinear_arith)
            requires
                w >= 5,
                mr <= n,
        ;
        assert((w - 5) * (n * sc + n) <= (w * n - n) * sc) by (nonlinear_arith)
            requires
                5 <= w <= sc,
                n >= 1,
                sc == 1_000_000_000,
        ;
        assert((w - 5) * rem <= a * sc) by (nonlinear_arith)
            requires
                (n + 1) * ((w - 5) * rem) <= (n + 1) * (a * sc),
                n >= 1,
        ;
    } else {
        assert((w - 5) * rem <= 0) by (nonlinear_arith)
            requires
                w < 5,
                rem > 0,
        ;
        assert(a * sc >= 0) by (nonlinear_arith)
            requires
                a >= 0,
                sc >= 0,
        ;
    }
    vstd::arithmetic::div_mod::lemma_fundamental_div_mod(a * sc, rem);
    let b = a * sc / rem;
    let mb = (a * sc) % rem;
    assert(b <= w) by (nonlinear_arith)
        requires
            rem * b + mb == a * sc,
            0 <= mb,
            a * sc <= w * rem,
            rem > 0,
    ;
    assert(w - 5 <= b) by (nonlinear_arith)
        requires
            rem * b + mb == a * sc,
            mb < rem,
            (w - 5) * rem <= a * sc,
            rem > 0,
    ;
}

/// Inserting a column at `i` and then removing the column at `i` restores
/// the number of columns, and every other fraction comes back within a
/// millionth of a whole of its earlier value (for fractions of at most one
/// whole, in a table that had a column).
pub proof fn lemma_add_then_remove_column(ws: Seq<u64>, i: int)
    requires
        ws.len() >= 1,
        0 <= i <= ws.len(),
        forall|j: int| 0 <= j < ws.len() ==> #[trigger] ws[j] <= FRACTION_SCALE,
    ensures
        removed_widths(added_widths(ws, i), i).len() == ws.len(),
        forall|j: int| 0 <= j < ws.len() ==> {
            &&& #[trigger] removed_widths(added_widths(ws, i), i)[j] <= ws[j]
            &&& ws[j] <= removed_widths(added_widths(ws, i), i)[j] + FRACTION_SCALE / 1_000_000
        },
{
    let n = ws.len() as int;
    let sc = FRACTION_SCALE as int;
    let scaled = ws.map_values(|w: u64| (w as int * n / (n + 1)) as u64);
    let added = added_widths(ws, i);
    assert(added == scaled.insert(i, (sc / (n + 1)) as u64));
    assert(added.remove(i) =~= scaled);
    lemma_rescale_round_trip(0, n);
    assert(added[i] as int == sc / (n + 1));
    let out = removed_widths(added, i);
    assert forall|j: int| 0 <= j < ws.len() implies {
        &&& #[trigger] out[j] <= ws[j]
        &&& ws[j] <= out[j] + FRACTION_SCALE / 1_000_000
    } by {
        let w = ws[j] as int;
        lemma_rescale_round_trip(w, n);
        let a = w * n / (n + 1);
        assert(scaled[j] as int == a);
        let rem = sc - sc / (n + 1);
        assert(out[j] as int == a * sc / rem);
    }
}

} // verus!
