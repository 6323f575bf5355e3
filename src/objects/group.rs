//! Groups: selection aggregates over other objects, with no visual footprint.
use vstd::prelude::*;
use crate::types::DrawOp;
use crate::source::FrameRange;
use super::Resolve;

verus! {

/// An ownership and selection aggregate over other objects of the scene,
/// referred to by their indices in the object list.
#[derive(Debug, Clone)]
pub struct Group {
    /// Indices into the presentation's object list.
    pub members: Vec<usize>,
    pub frames: FrameRange,
    pub z_order: i32,
}

impl Resolve for Group {
    open spec fn drawn(&self, frame: int) -> Seq<DrawOp> {
        Seq::empty()
    }

    fn resolve(&self, frame: usize, ops: &mut Vec<DrawOp>) {
        assert(old(ops)@ + Seq::empty() =~= old(ops)@);
    }
}

} // verus!
