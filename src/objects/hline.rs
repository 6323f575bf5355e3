//! A horizontal run of one character.
use vstd::prelude::*;
use crate::types::{DrawOp, Style};
use crate::source::{Coordinate, FrameRange};
use super::{Resolve, emit, op_at, run};

verus! {

/// The default fill character of a horizontal line.
pub const HLINE_CHAR: char = '─';

/// A horizontal line from `x_start` (inclusive) to `x_end` (exclusive) on row `y`.
#[derive(Debug, Clone, Copy, PartialEq, Eq, Structural)]
pub struct HLine {
    pub y: Coordinate,
    pub x_start: Coordinate,
    pub x_end: Coordinate,
    pub ch: char,
    pub style: Style,
    pub frames: FrameRange,
    pub z_order: i32,
}

/// `n` cells of `ch` on row `y`, starting at column `x`.
pub open spec fn row_ops(x: int, y: int, n: int, ch: char, style: Style, z: i32) -> Seq<DrawOp> {
    run(n, |i: int| op_at(x + i, y, ch, style, z))
}

impl Resolve for HLine {
    open spec fn drawn(&self, frame: int) -> Seq<DrawOp> {
        if !self.frames.holds(frame) {
            Seq::empty()
        } else {
            let y = self.y.value_at(frame);
            let xs = self.x_start.value_at(frame);
            let xe = self.x_end.value_at(frame);
            row_ops(xs, y, xe - xs, self.ch, self.style, self.z_order)
        }
    }

    fn resolve(&self, frame: usize, ops: &mut Vec<DrawOp>) {
        if !self.frames.contains(frame) {
            assert(old(ops)@ + Seq::empty() =~= old(ops)@);
            return;
        }
        let y = self.y.evaluate(frame);
        let xs = self.x_start.evaluate(frame);
        let xe = self.x_end.evaluate(frame);
        let mut x: u16 = xs;
        let mut i: usize = 0;
        if xs < xe {
            while i < (xe - xs) as usize
                invariant
                    xs < xe,
                    i <= (xe - xs) as usize,
                    ops@ == old(ops)@ + row_ops(xs as int, y as int, i as int, self.ch, self.style, self.z_order),
                decreases (xe - xs) as usize - i,
            {
                emit(ops, xs, i, y, 0, self.ch, self.style, self.z_order);
                i = i + 1;
                assert(ops@ =~= old(ops)@ + row_ops(xs as int, y as int, i as int, self.ch, self.style, self.z_order));
            }
        } else {
            assert(old(ops)@ + row_ops(xs as int, y as int, xe - xs, self.ch, self.style, self.z_order) =~= old(ops)@);
        }
    }
}

} // verus!
