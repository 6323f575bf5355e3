//! The authored presentation: geometry primitives and the scene description.
use vstd::prelude::*;
use crate::types::DrawOp;
use crate::objects::{Arrow, Group, HLine, Header, Label, Rect, Resolve, Table};

verus! {

/// Fixed coordinates are stored in thousandths of a cell, so that proportional
/// scaling keeps sub-cell precision; evaluation floors them to whole cells.
pub const FIXED_SCALE: u64 = 1000;

/// A position component: fixed, or linearly animated between two frames.
#[derive(Debug, Clone, Copy, PartialEq, Eq, Structural)]
pub enum Coordinate {
    /// A fixed, non-negative value in thousandths of a cell.
    Fixed(u64),
    /// Moves from `from` to `to` between `start_frame` and `end_frame`.
    Animated { from: u16, to: u16, start_frame: usize, end_frame: usize },
}

/// `n / d` rounded to the nearest integer, halves away from zero.
pub open spec fn round_div(n: int, d: int) -> int
    recommends
        d > 0,
{
    if n >= 0 {
        (2 * n + d) / (2 * d)
    } else {
        -((-2 * n + d) / (2 * d))
    }
}

/// The value of an animated coordinate at `frame`: clamped to `from` up to the
/// start frame and to `to` from the end frame on; between them the linear
/// value `from + (to - from) * (frame - start) / (end - start)`, rounded to the
/// nearest integer with halves away from zero (the value is never negative);
/// an empty or reversed span always yields `to`.
pub open spec fn animated_value(from: int, to: int, start: int, end: int, frame: int) -> int {
    if end <= start {
        to
    } else if frame <= start {
        from
    } else if frame >= end {
        to
    } else {
        round_div(from * (end - start) + (to - from) * (frame - start), end - start)
    }
}

/// The whole-cell value of a fixed coordinate, saturated to the `u16` range.
pub open spec fn fixed_value(v: int) -> int {
    if v / (FIXED_SCALE as int) > u16::MAX as int {
        u16::MAX as int
    } else {
        v / (FIXED_SCALE as int)
    }
}

impl Coordinate {
    /// The value of this coordinate at `frame`.
    pub open spec fn value_at(self, frame: int) -> int {
        match self {
            Coordinate::Fixed(v) => fixed_value(v as int),
            Coordinate::Animated { from, to, start_frame, end_frame } => animated_value(
                from as int,
                to as int,
                start_frame as int,
                end_frame as int,
                frame,
            ),
        }
    }

    /// A fixed coordinate at a whole cell.
    pub fn cells(v: u16) -> (r: Coordinate)
        ensures
            r == Coordinate::Fixed((v as u64 * FIXED_SCALE) as u64),
            forall|f: int| r.value_at(f) == v as int,
    {
        let r = Coordinate::Fixed(v as u64 * FIXED_SCALE);
        assert forall|f: int| r.value_at(f) == v as int by {
            assert((v as int * 1000) / 1000 == v as int) by (nonlinear_arith);
        }
        r
    }

    /// Evaluate to a terminal column or row at `frame`.
    pub fn evaluate(&self, frame: usize) -> (r: u16)
        ensures
            r as int == self.value_at(frame as int),
    {
        match *self {
            Coordinate::Fixed(v) => {
                let q = v / FIXED_SCALE;
                assert(q as int == v as int / (FIXED_SCALE as int));
                if q > u16::MAX as u64 {
                    u16::MAX
                } else {
                    q as u16
                }
            },
            Coordinate::Animated { from, to, start_frame, end_frame } => {
                if end_frame <= start_frame {
                    return to;
                }
                if frame <= start_frame {
                    return from;
                }
                if frame >= end_frame {
                    return to;
                }
                let d = (end_frame - start_frame) as u128;
                let t = (frame - start_frame) as u128;
                let ghost (fi, ti, di, tt) = (from as int, to as int, d as int, t as int);
                proof {
                    lemma_product_fits(65535, t as int);
                    lemma_product_fits(65535, d as int);
                    assert(fi * di <= 65535 * di) by (nonlinear_arith)
                        requires
                            0 <= fi <= 65535,
                            di >= 0,
                    ;
                }
                let n: u128 = if to >= from {
                    let span = (to - from) as u128;
                    proof {
                        lemma_product_fits(span as int, t as int);
                        assert((ti - fi) * tt <= (ti - fi) * di) by (nonlinear_arith)
                            requires
                                ti >= fi,
                                0 <= tt < di,
                        ;
                        assert(fi * di + (ti - fi) * di == ti * di) by (nonlinear_arith);
                        assert(ti * di <= 65535 * di) by (nonlinear_arith)
                            requires
                                0 <= ti <= 65535,
                                di >= 0,
                        ;
                    }
                    from as u128 * d + span * t
                } else {
                    let span = (from - to) as u128;
                    proof {
                        lemma_product_fits(span as int, t as int);
                        assert((fi - ti) * tt <= (fi - ti) * di) by (nonlinear_arith)
                            requires
                                fi >= ti,
                                0 <= tt < di,
                        ;
                        assert(fi * di - (fi - ti) * di == ti * di) by (nonlinear_arith);
                        assert(ti * di >= 0) by (nonlinear_arith)
                            requires
                                ti >= 0,
                                di >= 0,
                        ;
                        assert((ti - fi) * tt == -((fi - ti) * tt)) by (nonlinear_arith);
                    }
                    from as u128 * d - span * t
                };
                proof {
                    let lo = if fi <= ti { fi } else { ti };
                    let hi = if fi <= ti { ti } else { fi };
                    assert(lo * di <= n as int <= hi * di) by {
                        if fi <= ti {
                            assert(fi * di + (ti - fi) * tt >= fi * di) by (nonlinear_arith)
                                requires
                                    ti >= fi,
                                    tt >= 0,
                            ;
                        } else {
                            assert(fi * di - (fi - ti) * tt <= fi * di) by (nonlinear_arith)
                                requires
                                    fi >= ti,
                                    tt >= 0,
                            ;
                        }
                    }
                    lemma_round_between(n as int, di, lo, hi);
                }
                ((2 * n + d) / (2 * d)) as u16
            },
        }
    }
}

/// Rounding `n / d` half up lands between `lo` and `hi` when `n / d` does.
proof fn lemma_round_between(n: int, d: int, lo: int, hi: int)
    requires
        d > 0,
        lo >= 0,
        lo * d <= n <= hi * d,
    ensures
        lo <= (2 * n + d) / (2 * d) <= hi,
{
    let x = 2 * n + d;
    vstd::arithmetic::div_mod::lemma_fundamental_div_mod(x, 2 * d);
    let q = x / (2 * d);
    let r = x % (2 * d);
    assert(q <= hi) by (nonlinear_arith)
        requires
            q * (2 * d) + r == x,
            0 <= r,
            x == 2 * n + d,
            n <= hi * d,
            d > 0,
    {
        assert(q * (2 * d) < (hi + 1) * (2 * d));
    }
    assert(lo <= q) by (nonlinear_arith)
        requires
            q * (2 * d) + r == x,
            r < 2 * d,
            x == 2 * n + d,
            lo * d <= n,
            d > 0,
    {
        assert(q * (2 * d) > (lo - 1) * (2 * d));
    }
}

/// A span of at most `u16::MAX` times a frame count stays far inside `u128`.
proof fn lemma_product_fits(span: int, t: int)
    requires
        0 <= span <= 65535,
        0 <= t <= u64::MAX,
    ensures
        2 * span * t + 2 * (u64::MAX as int) <= u128::MAX,
        2 * span * t >= 0,
{
    assert(2 * span * t <= 2 * 65535 * (u64::MAX as int)) by (nonlinear_arith)
        requires
            0 <= span <= 65535,
            0 <= t <= u64::MAX,
    ;
    assert(2 * span * t >= 0) by (nonlinear_arith)
        requires
            0 <= span,
            0 <= t,
    ;
}

/// A half-open interval `[start, end)` of frames during which an object is visible.
#[derive(Debug, Clone, Copy, PartialEq, Eq, Structural)]
pub struct FrameRange {
    pub start: usize,
    pub end: usize,
}

impl FrameRange {
    /// Whether `frame` lies in this range.
    pub open spec fn holds(self, frame: int) -> bool {
        self.start <= frame < self.end
    }

    /// Whether `frame` lies in this range.
    pub fn contains(&self, frame: usize) -> (r: bool)
        ensures
            r == self.holds(frame as int),
    {
        frame >= self.start && frame < self.end
    }
}

/// A two-dimensional position.
#[derive(Debug, Clone, Copy, PartialEq, Eq, Structural)]
pub struct Position {
    pub x: Coordinate,
    pub y: Coordinate,
}

/// One object of a scene.
#[derive(Debug, Clone)]
pub enum SceneObject {
    Label(Label),
    HLine(HLine),
    Rect(Rect),
    Header(Header),
    Group(Group),
    Arrow(Arrow),
    Table(Table),
}

impl SceneObject {
    /// The frames during which this object is visible.
    pub open spec fn frame_range(self) -> FrameRange {
        match self {
            SceneObject::Label(o) => o.frames,
            SceneObject::HLine(o) => o.frames,
            SceneObject::Rect(o) => o.frames,
            SceneObject::Header(o) => o.frames,
            SceneObject::Group(o) => o.frames,
            SceneObject::Arrow(o) => o.frames,
            SceneObject::Table(o) => o.frames,
        }
    }
}

impl Resolve for SceneObject {
    open spec fn drawn(&self, frame: int) -> Seq<DrawOp> {
        match self {
            SceneObject::Label(o) => o.drawn(frame),
            SceneObject::HLine(o) => o.drawn(frame),
            SceneObject::Rect(o) => o.drawn(frame),
            SceneObject::Header(o) => o.drawn(frame),
            SceneObject::Group(o) => o.drawn(frame),
            SceneObject::Arrow(o) => o.drawn(frame),
            SceneObject::Table(o) => o.drawn(frame),
        }
    }

    fn resolve(&self, frame: usize, ops: &mut Vec<DrawOp>) {
        match self {
            SceneObject::Label(o) => o.resolve(frame, ops),
            SceneObject::HLine(o) => o.resolve(frame, ops),
            SceneObject::Rect(o) => o.resolve(frame, ops),
            SceneObject::Header(o) => o.resolve(frame, ops),
            SceneObject::Group(o) => o.resolve(frame, ops),
            SceneObject::Arrow(o) => o.resolve(frame, ops),
            SceneObject::Table(o) => o.resolve(frame, ops),
        }
    }
}

/// An object contributes no draw operations at a frame outside its frame range.
pub proof fn lemma_hidden_object_draws_nothing(o: SceneObject, frame: int)
    requires
        !o.frame_range().holds(frame),
    ensures
        o.drawn(frame) == Seq::<DrawOp>::empty(),
{
}

/// The authored presentation: terminal size, frame count and the objects in
/// paint order.
#[derive(Debug, Clone)]
pub struct SourcePresentation {
    pub width: u16,
    pub height: u16,
    pub frame_count: usize,
    pub objects: Vec<SceneObject>,
}

} // verus!
