//! Scene objects and their resolution into draw operations.
use vstd::prelude::*;
use crate::types::{DrawOp, Style};

pub mod arrow;
pub mod font;
pub mod group;
pub mod header;
pub mod hline;
pub mod label;
pub mod rect;
pub mod table;
pub mod wrap;

pub use arrow::Arrow;
pub use group::Group;
pub use header::Header;
pub use hline::HLine;
pub use label::Label;
pub use rect::Rect;
pub use table::{Table, TableCell};

verus! {

/// A bound on intermediate coordinates, far beyond any addressable cell.
pub const REACH: i128 = 0x1_0000_0000_0000_0000_0000;

/// The draw operation for cell `(x, y)`, or nothing when the cell lies outside
/// the range a terminal coordinate can address.
pub open spec fn op_at(x: int, y: int, ch: char, style: Style, z: i32) -> Seq<DrawOp> {
    if 0 <= x <= u16::MAX && 0 <= y <= u16::MAX {
        seq![DrawOp { x: x as u16, y: y as u16, ch, style, z_order: z }]
    } else {
        Seq::empty()
    }
}

/// The concatenation `f(0) + f(1) + ... + f(n - 1)`.
pub open spec fn run(n: int, f: spec_fn(int) -> Seq<DrawOp>) -> Seq<DrawOp>
    decreases n,
{
    if n <= 0 {
        Seq::empty()
    } else {
        run(n - 1, f) + f(n - 1)
    }
}

/// `run` depends only on the values of its function below the bound.
pub proof fn lemma_run_ext(n: int, f: spec_fn(int) -> Seq<DrawOp>, g: spec_fn(int) -> Seq<DrawOp>)
    requires
        forall|i: int| 0 <= i < n ==> #[trigger] f(i) == g(i),
    ensures
        run(n, f) == run(n, g),
    decreases n,
{
    if n > 0 {
        lemma_run_ext(n - 1, f, g);
    }
}

/// Append the draw operation for cell `(bx + dx, by + dy)` if that cell is addressable.
pub fn emit(ops: &mut Vec<DrawOp>, bx: u16, dx: usize, by: u16, dy: usize, ch: char, style: Style, z: i32)
    ensures
        final(ops)@ == old(ops)@ + op_at(bx + dx, by + dy, ch, style, z),
{
    if dx <= (u16::MAX - bx) as usize && dy <= (u16::MAX - by) as usize {
        ops.push(DrawOp { x: bx + dx as u16, y: by + dy as u16, ch, style, z_order: z });
        assert(final(ops)@ =~= old(ops)@ + op_at(bx + dx, by + dy, ch, style, z));
    } else {
        assert(op_at(bx + dx, by + dy, ch, style, z) =~= Seq::empty());
        assert(old(ops)@ + Seq::empty() =~= old(ops)@);
    }
}

/// Append the draw operation for cell `(x, y)` if that cell is addressable.
pub fn emit_at(ops: &mut Vec<DrawOp>, x: i128, y: i128, ch: char, style: Style, z: i32)
    ensures
        final(ops)@ == old(ops)@ + op_at(x as int, y as int, ch, style, z),
{
    if 0 <= x && x <= u16::MAX as i128 && 0 <= y && y <= u16::MAX as i128 {
        ops.push(DrawOp { x: x as u16, y: y as u16, ch, style, z_order: z });
        assert(final(ops)@ =~= old(ops)@ + op_at(x as int, y as int, ch, style, z));
    } else {
        assert(op_at(x as int, y as int, ch, style, z) =~= Seq::empty());
        assert(old(ops)@ + Seq::empty() =~= old(ops)@);
    }
}

/// Resolution of an object, at a given frame, into concrete draw operations.
pub trait Resolve {
    /// The draw operations this object contributes at `frame`, in emission order.
    spec fn drawn(&self, frame: int) -> Seq<DrawOp>;

    /// Append this object's draw operations for `frame` to `ops`.
    fn resolve(&self, frame: usize, ops: &mut Vec<DrawOp>)
        ensures
            final(ops)@ == old(ops)@ + self.drawn(frame as int),
    ;
}

} // verus!
