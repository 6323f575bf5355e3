//! Arrows routed orthogonally between two points.
use vstd::prelude::*;
use crate::types::{DrawOp, Style};
use crate::source::{Coordinate, FrameRange};
use super::{Resolve, emit_at, op_at, run};

verus! {

/// The directional family of an arrowhead character, as (right, left, down, up).
pub open spec fn head_family(c: char) -> Option<(char, char, char, char)> {
    if c == '▶' || c == '◀' || c == '▼' || c == '▲' {
        Some(('▶', '◀', '▼', '▲'))
    } else if c == '>' || c == '<' || c == 'v' || c == '^' {
        Some(('>', '<', 'v', '^'))
    } else if c == '→' || c == '←' || c == '↓' || c == '↑' {
        Some(('→', '←', '↓', '↑'))
    } else {
        None
    }
}

/// The member of `c`'s family pointing right (`positive`) or left; `c` itself
/// when it belongs to no family.
pub open spec fn spec_head_char_h(c: char, positive: bool) -> char {
    match head_family(c) {
        Some((r, l, _d, _u)) => if positive { r } else { l },
        None => c,
    }
}

/// The member of `c`'s family pointing down (`positive`) or up; `c` itself
/// when it belongs to no family.
pub open spec fn spec_head_char_v(c: char, positive: bool) -> char {
    match head_family(c) {
        Some((_r, _l, d, u)) => if positive { d } else { u },
        None => c,
    }
}

/// The vertical counterpart of a horizontal body character.
pub open spec fn spec_body_char_vertical(c: char) -> char {
    if c == '─' {
        '│'
    } else if c == '═' {
        '║'
    } else {
        c
    }
}

fn family_of(c: char) -> (r: Option<(char, char, char, char)>)
    ensures
        r == head_family(c),
{
    if c == '▶' || c == '◀' || c == '▼' || c == '▲' {
        Some(('▶', '◀', '▼', '▲'))
    } else if c == '>' || c == '<' || c == 'v' || c == '^' {
        Some(('>', '<', 'v', '^'))
    } else if c == '→' || c == '←' || c == '↓' || c == '↑' {
        Some(('→', '←', '↓', '↑'))
    } else {
        None
    }
}

/// The horizontal variant of a user-chosen head character.
fn head_char_h(ch: char, positive_dir: bool) -> (r: char)
    ensures
        r == spec_head_char_h(ch, positive_dir),
{
    match family_of(ch) {
        Some((r, l, _d, _u)) => if positive_dir { r } else { l },
        None => ch,
    }
}

/// The vertical variant of a user-chosen head character.
fn head_char_v(ch: char, positive_dir: bool) -> (r: char)
    ensures
        r == spec_head_char_v(ch, positive_dir),
{
    match family_of(ch) {
        Some((_r, _l, d, u)) => if positive_dir { d } else { u },
        None => ch,
    }
}

/// The vertical-segment counterpart of a horizontal body character.
fn body_char_vertical(ch: char) -> (r: char)
    ensures
        r == spec_body_char_vertical(ch),
{
    if ch == '─' {
        '│'
    } else if ch == '═' {
        '║'
    } else {
        ch
    }
}

/// An arrow from `(x1, y1)` to `(x2, y2)`.
#[derive(Debug, Clone, Copy, PartialEq, Eq, Structural)]
pub struct Arrow {
    pub x1: Coordinate,
    pub y1: Coordinate,
    pub x2: Coordinate,
    pub y2: Coordinate,
    /// Whether the last cell is an arrowhead.
    pub head: bool,
    /// Custom arrowhead character; `None` selects one by direction.
    pub head_ch: Option<char>,
    /// Custom body character; `None` uses box-drawing lines.
    pub body_ch: Option<char>,
    pub style: Style,
    pub frames: FrameRange,
    pub z_order: i32,
}

/// The sign of `v`: -1, 0 or 1.
pub open spec fn sign(v: int) -> int {
    if v > 0 {
        1
    } else if v < 0 {
        -1
    } else {
        0
    }
}

/// `|v|`.
pub open spec fn abs(v: int) -> int {
    if v < 0 {
        -v
    } else {
        v
    }
}

/// `i` steps from `p` in direction `s`.
pub open spec fn step(p: int, s: int, i: int) -> int {
    if s > 0 {
        p + i
    } else if s < 0 {
        p - i
    } else {
        p
    }
}

/// `n` cells of `ch` starting at `(x, y)` and moving by `(sx, sy)` per cell.
pub open spec fn segment(x: int, y: int, sx: int, sy: int, n: int, ch: char, s: Style, z: i32) -> Seq<DrawOp> {
    run(n, |i: int| op_at(step(x, sx, i), step(y, sy, i), ch, s, z))
}

/// The corner of a horizontal-first route.
pub open spec fn corner_h_first(sx: int, sy: int) -> char {
    if sx == 1 && sy == 1 {
        '┐'
    } else if sx == 1 && sy == -1 {
        '┘'
    } else if sx == -1 && sy == 1 {
        '┌'
    } else {
        '└'
    }
}

/// The corner of a vertical-first route.
pub open spec fn corner_v_first(sx: int, sy: int) -> char {
    if sx == 1 && sy == 1 {
        '└'
    } else if sx == 1 && sy == -1 {
        '┌'
    } else if sx == -1 && sy == 1 {
        '┘'
    } else {
        '┐'
    }
}

impl Arrow {
    /// The arrowhead used on a horizontal final segment.
    pub open spec fn h_head(self, sx: int) -> char {
        match self.head_ch {
            Some(c) => spec_head_char_h(c, sx >= 0),
            None => if sx >= 0 { '▶' } else { '◀' },
        }
    }

    /// The arrowhead used on a vertical final segment.
    pub open spec fn v_head(self, sy: int) -> char {
        match self.head_ch {
            Some(c) => spec_head_char_v(c, sy >= 0),
            None => if sy >= 0 { '▼' } else { '▲' },
        }
    }

    /// The body character of horizontal segments.
    pub open spec fn h_body(self) -> char {
        match self.body_ch {
            Some(c) => c,
            None => '─',
        }
    }

    /// The body character of vertical segments.
    pub open spec fn v_body(self) -> char {
        match self.body_ch {
            Some(c) => spec_body_char_vertical(c),
            None => '│',
        }
    }

    /// The cells of the route from `(x1, y1)` to `(x2, y2)`: a straight run when
    /// the points share a row or column, otherwise one bend, taking the longer
    /// axis first.
    pub open spec fn route(self, x1: int, y1: int, x2: int, y2: int) -> Seq<DrawOp> {
        let dx = x2 - x1;
        let dy = y2 - y1;
        let sx = sign(dx);
        let sy = sign(dy);
        let s = self.style;
        let z = self.z_order;
        let hh = if self.head { self.h_head(sx) } else { self.h_body() };
        let vh = if self.head { self.v_head(sy) } else { self.v_body() };
        if dx == 0 && dy == 0 {
            op_at(x1, y1, '*', s, z)
        } else if dx == 0 {
            segment(x1, y1, 0, sy, abs(dy), self.v_body(), s, z) + op_at(x1, y2, vh, s, z)
        } else if dy == 0 {
            segment(x1, y1, sx, 0, abs(dx), self.h_body(), s, z) + op_at(x2, y1, hh, s, z)
        } else if abs(dx) >= abs(dy) {
            segment(x1, y1, sx, 0, abs(dx), self.h_body(), s, z)
                + op_at(x2, y1, corner_h_first(sx, sy), s, z)
                + segment(x2, step(y1, sy, 1), 0, sy, abs(dy) - 1, self.v_body(), s, z)
                + op_at(x2, y2, vh, s, z)
        } else {
            segment(x1, y1, 0, sy, abs(dy), self.v_body(), s, z)
                + op_at(x1, y2, corner_v_first(sx, sy), s, z)
                + segment(step(x1, sx, 1), y2, sx, 0, abs(dx) - 1, self.h_body(), s, z)
                + op_at(x2, y2, hh, s, z)
        }
    }
}

/// Append a straight run of `n` cells from `(x, y)` in direction `(sx, sy)`.
fn push_segment(ops: &mut Vec<DrawOp>, x: i64, y: i64, sx: i64, sy: i64, n: i64, ch: char, s: Style, z: i32)
    requires
        -1 <= sx <= 1,
        -1 <= sy <= 1,
        0 <= x <= u16::MAX,
        0 <= y <= u16::MAX,
        n <= u16::MAX + 1,
    ensures
        final(ops)@ == old(ops)@ + segment(x as int, y as int, sx as int, sy as int, n as int, ch, s, z),
{
    let mut i: i64 = 0;
    if n <= 0 {
        assert(old(ops)@ + segment(x as int, y as int, sx as int, sy as int, n as int, ch, s, z) =~= old(ops)@);
        return;
    }
    while i < n
        invariant
            0 <= i <= n,
            n <= u16::MAX + 1,
            -1 <= sx <= 1,
            -1 <= sy <= 1,
            0 <= x <= u16::MAX,
            0 <= y <= u16::MAX,
            ops@ == old(ops)@ + segment(x as int, y as int, sx as int, sy as int, i as int, ch, s, z),
        decreases n - i,
    {
        let px = if sx > 0 { x + i } else if sx < 0 { x - i } else { x };
        let py = if sy > 0 { y + i } else if sy < 0 { y - i } else { y };
        emit_at(ops, px as i128, py as i128, ch, s, z);
        i = i + 1;
        assert(ops@ =~= old(ops)@ + segment(x as int, y as int, sx as int, sy as int, i as int, ch, s, z));
    }
}

impl Arrow {
    /// The head and body characters for travel direction `(sx, sy)`: the head
    /// (or body, without a head) of a horizontal and of a vertical final cell,
    /// then the horizontal and the vertical body.
    fn route_chars(&self, sx: i64, sy: i64) -> (r: (char, char, char, char))
        ensures
            r.0 == (if self.head { self.h_head(sx as int) } else { self.h_body() }),
            r.1 == (if self.head { self.v_head(sy as int) } else { self.v_body() }),
            r.2 == self.h_body(),
            r.3 == self.v_body(),
    {
        let h_head = match self.head_ch {
            Some(c) => head_char_h(c, sx >= 0),
            None => if sx >= 0 { '▶' } else { '◀' },
        };
        let v_head = match self.head_ch {
            Some(c) => head_char_v(c, sy >= 0),
            None => if sy >= 0 { '▼' } else { '▲' },
        };
        let h_body = match self.body_ch {
            Some(c) => c,
            None => '─',
        };
        let v_body = match self.body_ch {
            Some(c) => body_char_vertical(c),
            None => '│',
        };
        let hh = if self.head { h_head } else { h_body };
        let vh = if self.head { v_head } else { v_body };
        (hh, vh, h_body, v_body)
    }

    /// Append the route from `(x1, y1)` to `(x2, y2)`.
    #[verifier::rlimit(40)]
    fn push_route(&self, ops: &mut Vec<DrawOp>, x1: i64, y1: i64, x2: i64, y2: i64)
        requires
            0 <= x1 <= u16::MAX,
            0 <= y1 <= u16::MAX,
            0 <= x2 <= u16::MAX,
            0 <= y2 <= u16::MAX,
        ensures
            final(ops)@ == old(ops)@ + self.route(x1 as int, y1 as int, x2 as int, y2 as int),
    {
        let dx = x2 - x1;
        let dy = y2 - y1;
        let dx_abs = if dx < 0 { -dx } else { dx };
        let dy_abs = if dy < 0 { -dy } else { dy };
        let sx: i64 = if dx > 0 { 1 } else if dx < 0 { -1 } else { 0 };
        let sy: i64 = if dy > 0 { 1 } else if dy < 0 { -1 } else { 0 };
        let s = self.style;
        let z = self.z_order;
        if dx == 0 && dy == 0 {
            emit_at(ops, x1 as i128, y1 as i128, '*', s, z);
            return;
        }
        let (hh, vh, h_body, v_body) = self.route_chars(sx, sy);
        if dx == 0 {
            push_segment(ops, x1, y1, 0, sy, dy_abs, v_body, s, z);
            emit_at(ops, x1 as i128, y2 as i128, vh, s, z);
        } else if dy == 0 {
            push_segment(ops, x1, y1, sx, 0, dx_abs, h_body, s, z);
            emit_at(ops, x2 as i128, y1 as i128, hh, s, z);
        } else if dx_abs >= dy_abs {
            let corner = if sx == 1 && sy == 1 {
                '┐'
            } else if sx == 1 && sy == -1 {
                '┘'
            } else if sx == -1 && sy == 1 {
                '┌'
            } else {
                '└'
            };
            push_segment(ops, x1, y1, sx, 0, dx_abs, h_body, s, z);
            emit_at(ops, x2 as i128, y1 as i128, corner, s, z);
            push_segment(ops, x2, y1 + sy, 0, sy, dy_abs - 1, v_body, s, z);
            emit_at(ops, x2 as i128, y2 as i128, vh, s, z);
        } else {
            let corner = if sx == 1 && sy == 1 {
                '└'
            } else if sx == 1 && sy == -1 {
                '┌'
            } else if sx == -1 && sy == 1 {
                '┘'
            } else {
                '┐'
            };
            push_segment(ops, x1, y1, 0, sy, dy_abs, v_body, s, z);
            emit_at(ops, x1 as i128, y2 as i128, corner, s, z);
            push_segment(ops, x1 + sx, y2, sx, 0, dx_abs - 1, h_body, s, z);
            emit_at(ops, x2 as i128, y2 as i128, hh, s, z);
        }
        assert(ops@ =~= old(ops)@ + self.route(x1 as int, y1 as int, x2 as int, y2 as int));
    }
}

impl Resolve for Arrow {
    open spec fn drawn(&self, frame: int) -> Seq<DrawOp> {
        if !self.frames.holds(frame) {
            Seq::empty()
        } else {
            self.route(
                self.x1.value_at(frame),
                self.y1.value_at(frame),
                self.x2.value_at(frame),
                self.y2.value_at(frame),
            )
        }
    }

    fn resolve(&self, frame: usize, ops: &mut Vec<DrawOp>) {
        if !self.frames.contains(frame) {
            assert(old(ops)@ + Seq::empty() =~= old(ops)@);
            return;
        }
        let x1 = self.x1.evaluate(frame) as i64;
        let y1 = self.y1.evaluate(frame) as i64;
        let x2 = self.x2.evaluate(frame) as i64;
        let y2 = self.y2.evaluate(frame) as i64;
        self.push_route(ops, x1, y1, x2, y2);
        assert(ops@ =~= old(ops)@ + self.drawn(frame as int));
    }
}

} // verus!
