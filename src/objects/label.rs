//! Text labels: explicit line breaks, word wrapping with list-aware
//! indentation, height truncation, background fill and an optional frame.
use vstd::prelude::*;
use crate::types::{DrawOp, Style};
use crate::source::{Coordinate, FrameRange, Position};
use super::{REACH, Resolve, emit_at, op_at, run};
use super::wrap::{chars_of, list_continuation_indent, list_indent, rows_view, wrap_spec, wrap_text_line};

verus! {

/// A block of text at a position.
#[derive(Debug, Clone)]
pub struct Label {
    pub text: String,
    pub position: Position,
    /// Wrap width; 0 means no wrapping.
    pub width: Coordinate,
    /// Maximum number of rows; 0 means no limit.
    pub height: Coordinate,
    /// Whether a one-cell box is drawn just outside the text.
    pub framed: bool,
    /// Style of the box; the label's own style when `None`.
    pub frame_style: Option<Style>,
    pub style: Style,
    pub frames: FrameRange,
    pub z_order: i32,
}

/// The lines of the first `n` characters of `c`, split at every `'\n'`.
pub open spec fn split_prefix(c: Seq<char>, n: int) -> Seq<Seq<char>>
    decreases n,
{
    if n <= 0 {
        seq![Seq::empty()]
    } else {
        let prev = split_prefix(c, n - 1);
        if c[n - 1] == '\n' {
            prev.push(Seq::empty())
        } else {
            prev.update(prev.len() - 1, prev.last().push(c[n - 1]))
        }
    }
}

/// The lines of `c`, split at every `'\n'` (an empty text is one empty line).
pub open spec fn split_lines(c: Seq<char>) -> Seq<Seq<char>> {
    split_prefix(c, c.len() as int)
}

proof fn lemma_split_nonempty(c: Seq<char>, n: int)
    ensures
        split_prefix(c, n).len() >= 1,
    decreases n,
{
    if n > 0 {
        lemma_split_nonempty(c, n - 1);
    }
}

/// The lines of `c`.
pub fn split_newlines(c: &Vec<char>) -> (lines: Vec<Vec<char>>)
    ensures
        rows_view(lines@) == split_lines(c@),
{
    let mut lines: Vec<Vec<char>> = Vec::new();
    let mut cur: Vec<char> = Vec::new();
    let mut i: usize = 0;
    while i < c.len()
        invariant
            i <= c@.len(),
            rows_view(lines@).push(cur@) == split_prefix(c@, i as int),
        decreases c@.len() - i,
    {
        proof {
            lemma_split_nonempty(c@, i as int);
        }
        let ghost before = rows_view(lines@);
        let ghost cur_before = cur@;
        if c[i] == '\n' {
            lines.push(cur);
            cur = Vec::new();
            assert(rows_view(lines@) =~= before.push(cur_before));
        } else {
            cur.push(c[i]);
            assert(rows_view(lines@) =~= before);
        }
        i = i + 1;
        assert(rows_view(lines@).push(cur@) =~= split_prefix(c@, i as int));
    }
    let ghost before = rows_view(lines@);
    lines.push(cur);
    assert(rows_view(lines@) =~= before.push(cur@));
    lines
}

/// The wrapped rows of the first `n` lines, each line wrapped on its own with
/// its list indent.
pub open spec fn wrap_lines(lines: Seq<Seq<char>>, n: int, w: int) -> Seq<Seq<char>>
    decreases n,
{
    if n <= 0 {
        Seq::empty()
    } else {
        wrap_lines(lines, n - 1, w) + wrap_spec(lines[n - 1], w, list_indent(lines[n - 1]))
    }
}

/// The first `h` rows of `rows`, padded with empty rows up to `h`; all rows when `h` is 0.
pub open spec fn fit_rows(rows: Seq<Seq<char>>, h: int) -> Seq<Seq<char>> {
    if h <= 0 {
        rows
    } else if rows.len() >= h {
        rows.subrange(0, h)
    } else {
        rows + empty_rows(h - rows.len())
    }
}

/// `n` empty rows.
pub open spec fn empty_rows(n: int) -> Seq<Seq<char>> {
    Seq::new(n as nat, |i: int| Seq::<char>::empty())
}

/// The character at column `col` of `row`, a space beyond its end.
pub open spec fn char_at(row: Seq<char>, col: int) -> char {
    if 0 <= col < row.len() {
        row[col]
    } else {
        ' '
    }
}

/// The operation for column `col` of row `r`: spaces are drawn only with a background.
pub open spec fn text_cell(rows: Seq<Seq<char>>, r: int, col: int, bx: int, by: int, bg: bool, s: Style, z: i32) -> Seq<DrawOp> {
    if char_at(rows[r], col) == ' ' && !bg {
        Seq::empty()
    } else {
        op_at(bx + col, by + r, char_at(rows[r], col), s, z)
    }
}

/// The operations of text rows drawn from `(bx, by)`; with `fill`, every row
/// covers `fill` columns, otherwise only its own characters; spaces are drawn
/// only with a background (`bg`).
pub open spec fn text_rows_ops(rows: Seq<Seq<char>>, fill: Option<int>, bg: bool, bx: int, by: int, s: Style, z: i32) -> Seq<DrawOp> {
    text_rows_prefix(rows, rows.len() as int, fill, bg, bx, by, s, z)
}

/// The number of cells drawn for row `row`.
pub open spec fn row_span(row: Seq<char>, fill: Option<int>) -> int {
    match fill {
        Some(w) => w,
        None => row.len() as int,
    }
}

/// The operations of the first `n` cells of row `r`.
pub open spec fn text_row_ops(rows: Seq<Seq<char>>, r: int, n: int, bx: int, by: int, bg: bool, s: Style, z: i32) -> Seq<DrawOp> {
    run(n, |col: int| text_cell(rows, r, col, bx, by, bg, s, z))
}

/// The operations of the first `k` text rows.
pub open spec fn text_rows_prefix(rows: Seq<Seq<char>>, k: int, fill: Option<int>, bg: bool, bx: int, by: int, s: Style, z: i32) -> Seq<DrawOp> {
    run(k, |r: int| text_row_ops(rows, r, row_span(rows[r], fill), bx, by, bg, s, z))
}

/// A one-cell box with top-left corner `(fx, fy)`, `fw` by `fh` cells; nothing
/// when either side is shorter than two cells.
pub open spec fn frame_ops(fx: int, fy: int, fw: int, fh: int, s: Style, z: i32) -> Seq<DrawOp> {
    if fw < 2 || fh < 2 {
        Seq::empty()
    } else {
        op_at(fx, fy, '┌', s, z) + op_at(fx + fw - 1, fy, '┐', s, z) + op_at(fx, fy + fh - 1, '└', s, z)
            + op_at(fx + fw - 1, fy + fh - 1, '┘', s, z)
            + frame_dashes(fx, fy, fh, fw - 2, s, z) + frame_bars(fx, fy, fw, fh - 2, s, z)
    }
}

/// The first `n` dash pairs of the top and bottom edges of a box.
pub open spec fn frame_dashes(fx: int, fy: int, fh: int, n: int, s: Style, z: i32) -> Seq<DrawOp>
    decreases n,
{
    if n <= 0 {
        Seq::empty()
    } else {
        frame_dashes(fx, fy, fh, n - 1, s, z) + (op_at(fx + n, fy, '─', s, z) + op_at(fx + n, fy + fh - 1, '─', s, z))
    }
}

/// The first `n` bar pairs of the left and right edges of a box.
pub open spec fn frame_bars(fx: int, fy: int, fw: int, n: int, s: Style, z: i32) -> Seq<DrawOp>
    decreases n,
{
    if n <= 0 {
        Seq::empty()
    } else {
        frame_bars(fx, fy, fw, n - 1, s, z) + (op_at(fx, fy + n, '│', s, z) + op_at(fx + fw - 1, fy + n, '│', s, z))
    }
}

/// The longest of the first `n` rows.
pub open spec fn max_len(rows: Seq<Seq<char>>, n: int) -> int
    decreases n,
{
    if n <= 0 {
        0
    } else if rows[n - 1].len() > max_len(rows, n - 1) {
        rows[n - 1].len() as int
    } else {
        max_len(rows, n - 1)
    }
}

/// `v - 1`, but not below zero.
pub open spec fn dec_sat(v: int) -> int {
    if v > 0 {
        v - 1
    } else {
        0
    }
}

impl Label {
    /// The style of the box around the label.
    pub open spec fn border_style(self) -> Style {
        match self.frame_style {
            Some(fs) => fs,
            None => self.style,
        }
    }

    /// The operations of this label with its position and size evaluated:
    /// wrapped rows when the width is positive, the raw lines otherwise.
    pub open spec fn layout_ops(self, bx: int, by: int, w: int, h: int) -> Seq<DrawOp> {
        if w > 0 {
            self.wrapped_ops(bx, by, w, h)
        } else {
            self.plain_ops(bx, by, h)
        }
    }

    /// The wrapped text, cut or padded to `h` rows; with a background every
    /// row fills the whole width.
    pub open spec fn wrapped_ops(self, bx: int, by: int, w: int, h: int) -> Seq<DrawOp> {
        let lines = split_lines(self.text@);
        let rows = fit_rows(wrap_lines(lines, lines.len() as int, w), h);
        text_rows_ops(rows, if self.style.bg is Some { Some(w) } else { None }, self.style.bg is Some, bx, by, self.style, self.z_order)
            + if self.framed {
            frame_ops(dec_sat(bx), dec_sat(by), w + 2, rows.len() as int + 2, self.border_style(), self.z_order)
        } else {
            Seq::empty()
        }
    }

    /// The lines as written, at most `h` of them when `h` is positive.
    pub open spec fn plain_ops(self, bx: int, by: int, h: int) -> Seq<DrawOp> {
        let lines = split_lines(self.text@);
        let vis = if h > 0 && lines.len() > h { lines.subrange(0, h) } else { lines };
        text_rows_ops(vis, None, self.style.bg is Some, bx, by, self.style, self.z_order) + if self.framed {
            frame_ops(
                dec_sat(bx),
                dec_sat(by),
                max_len(vis, vis.len() as int) + 2,
                (if h > 0 { h } else { vis.len() as int }) + 2,
                self.border_style(),
                self.z_order,
            )
        } else {
            Seq::empty()
        }
    }

    fn border(&self) -> (r: Style)
        ensures
            r == self.border_style(),
    {
        match self.frame_style {
            Some(fs) => fs,
            None => self.style,
        }
    }

    fn push_wrapped(&self, ops: &mut Vec<DrawOp>, lines: &Vec<Vec<char>>, bx: u16, by: u16, w: usize, h: usize)
        requires
            w > 0,
            rows_view(lines@) == split_lines(self.text@),
        ensures
            final(ops)@ == old(ops)@ + self.wrapped_ops(bx as int, by as int, w as int, h as int),
    {
        let bg = self.style.bg.is_some();
        let wrapped = wrap_all(lines, w);
        let rows = fit(wrapped, h);
        push_text_rows(ops, &rows, if bg { Some(w) } else { None }, bg, bx as i128, by as i128, self.style, self.z_order);
        if self.framed {
            let fx: u16 = if bx > 0 { bx - 1 } else { 0 };
            let fy: u16 = if by > 0 { by - 1 } else { 0 };
            draw_frame(ops, fx, fy, w as i128 + 2, rows.len() as i128 + 2, self.border(), self.z_order);
        } else {
            assert(ops@ + Seq::empty() =~= ops@);
        }
        assert(fill_view(if bg { Some(w) } else { None }) == (if self.style.bg is Some { Some(w as int) } else { None }));
        assert(ops@ =~= old(ops)@ + self.wrapped_ops(bx as int, by as int, w as int, h as int));
    }

    fn push_plain(&self, ops: &mut Vec<DrawOp>, lines: Vec<Vec<char>>, bx: u16, by: u16, h: usize)
        requires
            rows_view(lines@) == split_lines(self.text@),
        ensures
            final(ops)@ == old(ops)@ + self.plain_ops(bx as int, by as int, h as int),
    {
        let ghost lv = rows_view(lines@);
        let mut vis = lines;
        if h > 0 && vis.len() > h {
            vis.truncate(h);
        }
        assert(rows_view(vis@) =~= (if h > 0 && lv.len() > h { lv.subrange(0, h as int) } else { lv }));
        push_text_rows(ops, &vis, None, self.style.bg.is_some(), bx as i128, by as i128, self.style, self.z_order);
        if self.framed {
            let m = longest(&vis);
            let rows_n = if h > 0 { h } else { vis.len() };
            let fx: u16 = if bx > 0 { bx - 1 } else { 0 };
            let fy: u16 = if by > 0 { by - 1 } else { 0 };
            draw_frame(ops, fx, fy, m as i128 + 2, rows_n as i128 + 2, self.border(), self.z_order);
        } else {
            assert(ops@ + Seq::empty() =~= ops@);
        }
        assert(ops@ =~= old(ops)@ + self.plain_ops(bx as int, by as int, h as int));
    }
}

/// Wrap every line to width `w`.
fn wrap_all(lines: &Vec<Vec<char>>, w: usize) -> (rows: Vec<Vec<char>>)
    requires
        w > 0,
    ensures
        rows_view(rows@) == wrap_lines(rows_view(lines@), lines@.len() as int, w as int),
{
    let ghost lv = rows_view(lines@);
    let mut rows: Vec<Vec<char>> = Vec::new();
    let mut k: usize = 0;
    while k < lines.len()
        invariant
            k <= lines@.len(),
            w > 0,
            lv == rows_view(lines@),
            rows_view(rows@) == wrap_lines(lv, k as int, w as int),
        decreases lines@.len() - k,
    {
        let line = &lines[k];
        let indent = list_continuation_indent(line);
        let mut wrapped = wrap_text_line(line, w, indent);
        let ghost before = rows_view(rows@);
        let ghost wv = rows_view(wrapped@);
        rows.append(&mut wrapped);
        assert(rows_view(rows@) =~= before + wv);
        assert(lv[k as int] == line@);
        k = k + 1;
    }
    rows
}

/// Keep the first `h` rows, padding with empty rows up to `h`; all when `h` is 0.
fn fit(rows: Vec<Vec<char>>, h: usize) -> (r: Vec<Vec<char>>)
    ensures
        rows_view(r@) == fit_rows(rows_view(rows@), h as int),
{
    let mut r = rows;
    let ghost rv = rows_view(r@);
    if h == 0 {
        return r;
    }
    if r.len() >= h {
        r.truncate(h);
        assert(rows_view(r@) =~= rv.subrange(0, h as int));
        return r;
    }
    let ghost n0 = r@.len();
    assert(rv + empty_rows(0) =~= rv);
    while r.len() < h
        invariant
            n0 <= r@.len() <= h,
            n0 == rv.len(),
            rows_view(r@) == rv + empty_rows(r@.len() - n0),
        decreases h - r@.len(),
    {
        let ghost prev_view = rows_view(r@);
        let e: Vec<char> = Vec::new();
        assert(e@ == Seq::<char>::empty());
        r.push(e);
        assert(rows_view(r@) =~= prev_view.push(Seq::<char>::empty()));
        assert(empty_rows(r@.len() - n0) =~= empty_rows(r@.len() - 1 - n0).push(Seq::empty()));
        assert(rows_view(r@) =~= rv + empty_rows(r@.len() - n0));
    }
    r
}

/// The fill width as a mathematical integer.
pub open spec fn fill_view(fill: Option<usize>) -> Option<int> {
    match fill {
        Some(w) => Some(w as int),
        None => None,
    }
}

/// Append the first `n` cells of row `r`.
fn push_text_row(ops: &mut Vec<DrawOp>, rows: &Vec<Vec<char>>, r: usize, n: usize, bg: bool, bx: i128, by: i128, s: Style, z: i32)
    requires
        r < rows@.len(),
        0 <= bx <= REACH,
        0 <= by <= REACH,
    ensures
        final(ops)@ == old(ops)@ + text_row_ops(rows_view(rows@), r as int, n as int, bx as int, by as int, bg, s, z),
{
    let ghost rv = rows_view(rows@);
    let row = &rows[r];
    assert(rv[r as int] == row@);
    let mut col: usize = 0;
    while col < n
        invariant
            col <= n,
            r < rows@.len(),
            *row == rows@[r as int],
            rv == rows_view(rows@),
            rv[r as int] == row@,
            0 <= bx <= REACH,
            0 <= by <= REACH,
            ops@ == old(ops)@ + text_row_ops(rv, r as int, col as int, bx as int, by as int, bg, s, z),
        decreases n - col,
    {
        let ch = if col < row.len() { row[col] } else { ' ' };
        assert(ch == char_at(rv[r as int], col as int));
        if ch == ' ' && !bg {
            assert(ops@ + Seq::empty() =~= ops@);
        } else {
            emit_at(ops, bx + col as i128, by + r as i128, ch, s, z);
        }
        assert(text_row_ops(rv, r as int, col + 1, bx as int, by as int, bg, s, z)
            == text_row_ops(rv, r as int, col as int, bx as int, by as int, bg, s, z)
                + text_cell(rv, r as int, col as int, bx as int, by as int, bg, s, z));
        col = col + 1;
        assert(ops@ =~= old(ops)@ + text_row_ops(rv, r as int, col as int, bx as int, by as int, bg, s, z));
    }
}

/// Append the operations of text rows drawn from `(bx, by)` (see `text_rows_ops`).
pub fn push_text_rows(ops: &mut Vec<DrawOp>, rows: &Vec<Vec<char>>, fill: Option<usize>, bg: bool, bx: i128, by: i128, s: Style, z: i32)
    requires
        0 <= bx <= REACH,
        0 <= by <= REACH,
    ensures
        final(ops)@ == old(ops)@ + text_rows_ops(rows_view(rows@), fill_view(fill), bg, bx as int, by as int, s, z),
{
    let ghost rv = rows_view(rows@);
    let mut r: usize = 0;
    while r < rows.len()
        invariant
            r <= rows@.len(),
            rv == rows_view(rows@),
            0 <= bx <= REACH,
            0 <= by <= REACH,
            ops@ == old(ops)@ + text_rows_prefix(rv, r as int, fill_view(fill), bg, bx as int, by as int, s, z),
        decreases rows@.len() - r,
    {
        let n = match fill {
            Some(w) => w,
            None => rows[r].len(),
        };
        assert(rv[r as int] == rows@[r as int]@);
        assert(n as int == row_span(rv[r as int], fill_view(fill)));
        push_text_row(ops, rows, r, n, bg, bx, by, s, z);
        assert(text_rows_prefix(rv, r + 1, fill_view(fill), bg, bx as int, by as int, s, z) == text_rows_prefix(rv, r as int, fill_view(fill), bg, bx as int, by as int, s, z) + text_row_ops(rv, r as int, n as int, bx as int, by as int, bg, s, z));
        r = r + 1;
    }
}

/// Append a one-cell box (see `frame_ops`).
fn draw_frame(ops: &mut Vec<DrawOp>, fx: u16, fy: u16, fw: i128, fh: i128, style: Style, z: i32)
    requires
        0 <= fw <= u64::MAX as i128 + 2,
        0 <= fh <= u64::MAX as i128 + 2,
    ensures
        final(ops)@ == old(ops)@ + frame_ops(fx as int, fy as int, fw as int, fh as int, style, z),
{
    if fw < 2 || fh < 2 {
        assert(old(ops)@ + Seq::empty() =~= old(ops)@);
        return;
    }
    let x0 = fx as i128;
    let y0 = fy as i128;
    let x1 = fx as i128 + fw - 1;
    let y1 = fy as i128 + fh - 1;
    emit_at(ops, x0, y0, '┌', style, z);
    emit_at(ops, x1, y0, '┐', style, z);
    emit_at(ops, x0, y1, '└', style, z);
    emit_at(ops, x1, y1, '┘', style, z);
    let ghost corners = ops@;
    let mut i: i128 = 0;
    while i < fw - 2
        invariant
            0 <= i <= fw - 2,
            fw >= 2,
            y0 == fy as i128,
            fw <= u64::MAX as i128 + 2,
            x0 == fx as i128,
            y1 as int == fy as int + fh as int - 1,
            ops@ == corners + frame_dashes(fx as int, fy as int, fh as int, i as int, style, z),
        decreases fw - 2 - i,
    {
        assert(y1 as int == fy as int + fh as int - 1);
        emit_at(ops, x0 + 1 + i, y0, '─', style, z);
        emit_at(ops, x0 + 1 + i, y1, '─', style, z);
        i = i + 1;
        assert(ops@ =~= corners + frame_dashes(fx as int, fy as int, fh as int, i as int, style, z));
    }
    let ghost dashes = ops@;
    let mut j: i128 = 0;
    while j < fh - 2
        invariant
            0 <= j <= fh - 2,
            fh >= 2,
            x0 == fx as i128,
            fh <= u64::MAX as i128 + 2,
            x1 as int == fx as int + fw as int - 1,
            y0 == fy as i128,
            ops@ == dashes + frame_bars(fx as int, fy as int, fw as int, j as int, style, z),
        decreases fh - 2 - j,
    {
        assert(x1 as int == fx as int + fw as int - 1);
        emit_at(ops, x0, y0 + 1 + j, '│', style, z);
        emit_at(ops, x1, y0 + 1 + j, '│', style, z);
        j = j + 1;
        assert(ops@ =~= dashes + frame_bars(fx as int, fy as int, fw as int, j as int, style, z));
    }
    assert(ops@ =~= old(ops)@ + frame_ops(fx as int, fy as int, fw as int, fh as int, style, z));
}

/// The longest row.
fn longest(rows: &Vec<Vec<char>>) -> (r: usize)
    ensures
        r as int == max_len(rows_view(rows@), rows@.len() as int),
{
    let ghost rv = rows_view(rows@);
    let mut m: usize = 0;
    let mut k: usize = 0;
    while k < rows.len()
        invariant
            k <= rows@.len(),
            rv == rows_view(rows@),
            m as int == max_len(rv, k as int),
        decreases rows@.len() - k,
    {
        if rows[k].len() > m {
            m = rows[k].len();
        }
        k = k + 1;
    }
    m
}

impl Resolve for Label {
    open spec fn drawn(&self, frame: int) -> Seq<DrawOp> {
        if !self.frames.holds(frame) {
            Seq::empty()
        } else {
            self.layout_ops(
                self.position.x.value_at(frame),
                self.position.y.value_at(frame),
                self.width.value_at(frame),
                self.height.value_at(frame),
            )
        }
    }

    fn resolve(&self, frame: usize, ops: &mut Vec<DrawOp>) {
        if !self.frames.contains(frame) {
            assert(old(ops)@ + Seq::empty() =~= old(ops)@);
            return;
        }
        let bx = self.position.x.evaluate(frame);
        let by = self.position.y.evaluate(frame);
        let w = self.width.evaluate(frame) as usize;
        let h = self.height.evaluate(frame) as usize;
        let chars = chars_of(self.text.as_str());
        let lines = split_newlines(&chars);
        if w > 0 {
            self.push_wrapped(ops, &lines, bx, by, w, h);
        } else {
            self.push_plain(ops, lines, bx, by, h);
        }
    }
}

} // verus!
