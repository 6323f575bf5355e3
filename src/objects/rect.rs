//! Box-drawing rectangles with an optional title on the top edge.
use vstd::prelude::*;
use crate::types::{DrawOp, Style};
use crate::source::{Coordinate, FrameRange, Position};
use super::{Resolve, emit, lemma_run_ext, op_at, run};
use super::hline::row_ops;
use super::wrap::chars_of;

verus! {

/// A `w` by `h` box whose top-left corner is at `(x, y)`.
#[derive(Debug, Clone)]
pub struct Rect {
    pub position: Position,
    pub width: Coordinate,
    pub height: Coordinate,
    pub style: Style,
    pub frames: FrameRange,
    pub z_order: i32,
    pub title: Option<String>,
}

/// `ops` if `cond` holds, else nothing.
pub open spec fn only_if(cond: bool, ops: Seq<DrawOp>) -> Seq<DrawOp> {
    if cond {
        ops
    } else {
        Seq::empty()
    }
}

/// One horizontal edge of a box: a left corner, `w - 2` dashes, and a right
/// corner when the box is wider than one cell.
pub open spec fn edge_ops(x: int, y: int, w: int, left: char, right: char, s: Style, z: i32) -> Seq<DrawOp> {
    op_at(x, y, left, s, z) + row_ops(x + 1, y, w - 2, '─', s, z) + only_if(w > 1, op_at(x + w - 1, y, right, s, z))
}

/// The side bars of interior row `j` of a box.
pub open spec fn side_ops(x: int, y: int, w: int, j: int, s: Style, z: i32) -> Seq<DrawOp> {
    op_at(x, y + j, '│', s, z) + only_if(w > 1, op_at(x + w - 1, y + j, '│', s, z))
}

/// The z-order one above `z`, saturated at the largest value.
pub open spec fn z_above(z: i32) -> i32 {
    if z == i32::MAX {
        z
    } else {
        (z + 1) as i32
    }
}

/// The title characters that fit on the top edge, one z-level above the box.
pub open spec fn title_ops(x: int, y: int, w: int, t: Seq<char>, s: Style, z: i32) -> Seq<DrawOp> {
    run(t.len() as int, |i: int| only_if(x + 2 + i < x + w - 1, op_at(x + 2 + i, y, t[i], s, z_above(z))))
}

/// The whole box: top edge, side bars, bottom edge, then the title.
pub open spec fn box_ops(x: int, y: int, w: int, h: int, title: Option<Seq<char>>, s: Style, z: i32) -> Seq<DrawOp> {
    edge_ops(x, y, w, '┌', '┐', s, z)
        + run(h - 2, |j: int| side_ops(x, y, w, j + 1, s, z))
        + only_if(h > 1, edge_ops(x, y + h - 1, w, '└', '┘', s, z))
        + match title {
            Some(t) => title_ops(x, y, w, t, s, z),
            None => Seq::empty(),
        }
}

/// Append one horizontal edge of a box.
fn push_edge(ops: &mut Vec<DrawOp>, x: u16, y: u16, dy: usize, w: u16, left: char, right: char, s: Style, z: i32)
    ensures
        final(ops)@ == old(ops)@ + edge_ops(x as int, y + dy, w as int, left, right, s, z),
{
    emit(ops, x, 0, y, dy, left, s, z);
    let ghost mid = ops@;
    if w > 2 {
        let n = (w - 2) as usize;
        let mut i: usize = 0;
        while i < n
            invariant
                n == w - 2,
                i <= n,
                ops@ == mid + row_ops(x + 1, y + dy, i as int, '─', s, z),
            decreases n - i,
        {
            emit(ops, x, i + 1, y, dy, '─', s, z);
            i = i + 1;
            assert(ops@ =~= mid + row_ops(x + 1, y + dy, i as int, '─', s, z));
        }
    } else {
        assert(row_ops(x + 1, y + dy, w - 2, '─', s, z) =~= Seq::empty());
        assert(ops@ + Seq::empty() =~= ops@);
    }
    let ghost mid2 = ops@;
    if w > 1 {
        emit(ops, x, (w - 1) as usize, y, dy, right, s, z);
    } else {
        assert(ops@ + Seq::empty() =~= ops@);
    }
    assert(ops@ =~= old(ops)@ + edge_ops(x as int, y + dy, w as int, left, right, s, z));
}

impl Resolve for Rect {
    open spec fn drawn(&self, frame: int) -> Seq<DrawOp> {
        if !self.frames.holds(frame) {
            Seq::empty()
        } else {
            box_ops(
                self.position.x.value_at(frame),
                self.position.y.value_at(frame),
                self.width.value_at(frame),
                self.height.value_at(frame),
                match self.title {
                    Some(t) => Some(t@),
                    None => None,
                },
                self.style,
                self.z_order,
            )
        }
    }

    #[verifier::rlimit(40)]
    fn resolve(&self, frame: usize, ops: &mut Vec<DrawOp>) {
        if !self.frames.contains(frame) {
            assert(old(ops)@ + Seq::empty() =~= old(ops)@);
            return;
        }
        let x = self.position.x.evaluate(frame);
        let y = self.position.y.evaluate(frame);
        let w = self.width.evaluate(frame);
        let h = self.height.evaluate(frame);
        let s = self.style;
        let z = self.z_order;
        push_edge(ops, x, y, 0, w, '┌', '┐', s, z);
        push_sides(ops, x, y, w, h, s, z);
        if h > 1 {
            push_edge(ops, x, y, (h - 1) as usize, w, '└', '┘', s, z);
        } else {
            assert(ops@ + Seq::empty() =~= ops@);
        }
        match &self.title {
            Some(title) => {
                let t = chars_of(title.as_str());
                push_title(ops, x, y, w, &t, s, z);
            },
            None => {
                assert(ops@ + Seq::empty() =~= ops@);
            },
        }
        assert(ops@ =~= old(ops)@ + self.drawn(frame as int));
    }
}

/// Append the side bars of every interior row of a box.
fn push_sides(ops: &mut Vec<DrawOp>, x: u16, y: u16, w: u16, h: u16, s: Style, z: i32)
    ensures
        final(ops)@ == old(ops)@ + run(h - 2, |jj: int| side_ops(x as int, y as int, w as int, jj + 1, s, z)),
{
    if h > 2 {
        let n = (h - 2) as usize;
        let mut j: usize = 0;
        while j < n
            invariant
                n == h - 2,
                j <= n,
                ops@ == old(ops)@ + run(j as int, |jj: int| side_ops(x as int, y as int, w as int, jj + 1, s, z)),
            decreases n - j,
        {
            let ghost before = ops@;
            emit(ops, x, 0, y, j + 1, '│', s, z);
            if w > 1 {
                emit(ops, x, (w - 1) as usize, y, j + 1, '│', s, z);
            } else {
                assert(ops@ + Seq::empty() =~= ops@);
            }
            assert(ops@ =~= before + side_ops(x as int, y as int, w as int, j + 1, s, z));
            j = j + 1;
            assert(ops@ =~= old(ops)@ + run(j as int, |jj: int| side_ops(x as int, y as int, w as int, jj + 1, s, z)));
        }
    } else {
        assert(old(ops)@ + run(h - 2, |jj: int| side_ops(x as int, y as int, w as int, jj + 1, s, z)) =~= old(ops)@);
    }
}

/// Append the title characters that fit on the top edge of a box.
fn push_title(ops: &mut Vec<DrawOp>, x: u16, y: u16, w: u16, t: &Vec<char>, s: Style, z: i32)
    ensures
        final(ops)@ == old(ops)@ + title_ops(x as int, y as int, w as int, t@, s, z),
{
    let zt: i32 = if z == i32::MAX { z } else { z + 1 };
    let mut i: usize = 0;
    while i < t.len()
        invariant
            i <= t@.len(),
            zt == z_above(z),
            ops@ == old(ops)@ + title_ops(x as int, y as int, w as int, t@.subrange(0, i as int), s, z),
        decreases t@.len() - i,
    {
        if w > 3 && i < (w - 3) as usize {
            emit(ops, x, i + 2, y, 0, t[i], s, zt);
        } else {
            assert(ops@ + Seq::empty() =~= ops@);
        }
        proof {
            let a = t@.subrange(0, i as int);
            let b = t@.subrange(0, i + 1);
            let fa = |k: int| only_if(x + 2 + k < x + w - 1, op_at(x + 2 + k, y as int, a[k], s, z_above(z)));
            let fb = |k: int| only_if(x + 2 + k < x + w - 1, op_at(x + 2 + k, y as int, b[k], s, z_above(z)));
            lemma_run_ext(i as int, fa, fb);
        }
        i = i + 1;
        assert(ops@ =~= old(ops)@ + title_ops(x as int, y as int, w as int, t@.subrange(0, i as int), s, z));
    }
    assert(t@.subrange(0, i as int) =~= t@);
}


} // verus!
