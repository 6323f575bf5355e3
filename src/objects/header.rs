//! Large text drawn with the bitmap font.
use vstd::prelude::*;
use crate::types::{DrawOp, Style};
use crate::source::{FrameRange, Position};
use super::{Resolve, emit_at, op_at, run};
use super::font::{advance, font_glyph, glyph_cols, upper};
use super::wrap::chars_of;

verus! {

/// The default fill character of header glyphs.
pub const HEADER_CHAR: char = '█';

/// Text rendered in the five-row bitmap font, one glyph per character with a
/// one-column gap; characters outside the font are skipped.
#[derive(Debug, Clone)]
pub struct Header {
    pub text: String,
    pub position: Position,
    pub style: Style,
    pub frames: FrameRange,
    pub z_order: i32,
    /// Fill character of the glyphs' pixels.
    pub ch: char,
}

/// How one header is painted at one frame.
pub struct Brush {
    pub fill: char,
    pub style: Style,
    /// The style of background spaces, when the header has a background colour.
    pub bg: Option<Style>,
    pub z: i32,
}

/// The operation for pixel `col` of glyph row `row`, whose glyph starts at column `cx`.
pub open spec fn pixel_ops(g: Seq<&'static str>, row: int, col: int, cx: int, by: int, b: Brush) -> Seq<DrawOp> {
    if g[row]@[col] != ' ' {
        op_at(cx + col, by + row, b.fill, b.style, b.z)
    } else {
        match b.bg {
            Some(bs) => op_at(cx + col, by + row, ' ', bs, b.z),
            None => Seq::empty(),
        }
    }
}

/// The operations of one glyph row.
pub open spec fn glyph_row_ops(g: Seq<&'static str>, row: int, cx: int, by: int, b: Brush) -> Seq<DrawOp> {
    run(g[row]@.len() as int, |col: int| pixel_ops(g, row, col, cx, by, b))
}

/// The operations of one glyph at column `cx`: its rows top to bottom, then,
/// with a background, the gap column after it.
pub open spec fn glyph_ops(g: Seq<&'static str>, cx: int, by: int, b: Brush) -> Seq<DrawOp> {
    run(5, |row: int| glyph_row_ops(g, row, cx, by, b)) + match b.bg {
        Some(bs) => run(5, |row: int| op_at(cx + g[0]@.len(), by + row, ' ', bs, b.z)),
        None => Seq::empty(),
    }
}

/// The operations of the first `n` characters of `t`, drawn from column `bx`.
pub open spec fn text_ops(t: Seq<char>, n: int, bx: int, by: int, b: Brush) -> Seq<DrawOp>
    decreases n,
{
    if n <= 0 {
        Seq::empty()
    } else {
        text_ops(t, n - 1, bx, by, b) + match font_glyph(upper(t[n - 1])) {
            Some(g) => glyph_ops(g, bx + advance(t, n - 1), by, b),
            None => Seq::empty(),
        }
    }
}

impl Header {
    /// The brush of this header: background spaces only with a background colour.
    pub open spec fn brush(self) -> Brush {
        Brush {
            fill: self.ch,
            style: self.style,
            bg: match self.style.bg {
                Some(c) => Some(Style { fg: None, bg: Some(c), bold: false, dim: false }),
                None => None,
            },
            z: self.z_order,
        }
    }
}

fn push_glyph_row(ops: &mut Vec<DrawOp>, g: &[&'static str; 5], row: usize, w: usize, cx: i128, by: i128, b: &Brush)
    requires
        row < 5,
        g@[row as int]@.len() == w,
        0 <= cx <= 0x1_0000_0000_0000_0000_0000,
        0 <= by <= u16::MAX,
    ensures
        final(ops)@ == old(ops)@ + glyph_row_ops(g@, row as int, cx as int, by as int, *b),
{
    let line: &str = g[row];
    let mut col: usize = 0;
    while col < w
        invariant
            col <= w,
            row < 5,
            line == g@[row as int],
            line@.len() == w,
            0 <= cx <= 0x1_0000_0000_0000_0000_0000,
            0 <= by <= u16::MAX,
            w <= usize::MAX,
            ops@ == old(ops)@ + run(col as int, |c: int| pixel_ops(g@, row as int, c, cx as int, by as int, *b)),
        decreases w - col,
    {
        let c = line.get_char(col);
        if c != ' ' {
            emit_at(ops, cx + col as i128, by + row as i128, b.fill, b.style, b.z);
        } else {
            match b.bg {
                Some(bs) => {
                    emit_at(ops, cx + col as i128, by + row as i128, ' ', bs, b.z);
                },
                None => {
                    assert(ops@ + Seq::empty() =~= ops@);
                },
            }
        }
        col = col + 1;
        assert(ops@ =~= old(ops)@ + run(col as int, |c: int| pixel_ops(g@, row as int, c, cx as int, by as int, *b)));
    }
}

fn push_glyph(ops: &mut Vec<DrawOp>, g: &[&'static str; 5], w: usize, cx: i128, by: i128, b: &Brush)
    requires
        1 <= w <= 5,
        forall|row: int| 0 <= row < 5 ==> (#[trigger] g@[row])@.len() == w,
        0 <= cx <= 0x1_0000_0000_0000_0000_0000,
        0 <= by <= u16::MAX,
    ensures
        final(ops)@ == old(ops)@ + glyph_ops(g@, cx as int, by as int, *b),
{
    let mut row: usize = 0;
    while row < 5
        invariant
            row <= 5,
            1 <= w <= 5,
            forall|r: int| 0 <= r < 5 ==> (#[trigger] g@[r])@.len() == w,
            0 <= cx <= 0x1_0000_0000_0000_0000_0000,
            0 <= by <= u16::MAX,
            ops@ == old(ops)@ + run(row as int, |r: int| glyph_row_ops(g@, r, cx as int, by as int, *b)),
        decreases 5 - row,
    {
        push_glyph_row(ops, g, row, w, cx, by, b);
        row = row + 1;
        assert(ops@ =~= old(ops)@ + run(row as int, |r: int| glyph_row_ops(g@, r, cx as int, by as int, *b)));
    }
    let ghost mid = ops@;
    match b.bg {
        Some(bs) => {
            let mut r: usize = 0;
            while r < 5
                invariant
                    r <= 5,
                    g@[0]@.len() == w,
                    0 <= cx <= 0x1_0000_0000_0000_0000_0000,
                    0 <= by <= u16::MAX,
                    ops@ == mid + run(r as int, |rr: int| op_at(cx + g@[0]@.len(), by + rr, ' ', bs, b.z)),
                decreases 5 - r,
            {
                emit_at(ops, cx + w as i128, by + r as i128, ' ', bs, b.z);
                r = r + 1;
                assert(ops@ =~= mid + run(r as int, |rr: int| op_at(cx + g@[0]@.len(), by + rr, ' ', bs, b.z)));
            }
        },
        None => {
            assert(ops@ + Seq::empty() =~= ops@);
        },
    }
}

impl Resolve for Header {
    open spec fn drawn(&self, frame: int) -> Seq<DrawOp> {
        if !self.frames.holds(frame) {
            Seq::empty()
        } else {
            text_ops(
                self.text@,
                self.text@.len() as int,
                self.position.x.value_at(frame),
                self.position.y.value_at(frame),
                self.brush(),
            )
        }
    }

    fn resolve(&self, frame: usize, ops: &mut Vec<DrawOp>) {
        if !self.frames.contains(frame) {
            assert(old(ops)@ + Seq::empty() =~= old(ops)@);
            return;
        }
        let bx = self.position.x.evaluate(frame);
        let by = self.position.y.evaluate(frame);
        let b = Brush {
            fill: self.ch,
            style: self.style,
            bg: match self.style.bg {
                Some(c) => Some(Style { fg: None, bg: Some(c), bold: false, dim: false }),
                None => None,
            },
            z: self.z_order,
        };
        let t = chars_of(self.text.as_str());
        let mut cursor: u128 = 0;
        let mut i: usize = 0;
        while i < t.len()
            invariant
                i <= t@.len(),
                t@ == self.text@,
                b == self.brush(),
                cursor as int == advance(t@, i as int),
                cursor <= 6 * i,
                ops@ == old(ops)@ + text_ops(t@, i as int, bx as int, by as int, b),
            decreases t@.len() - i,
        {
            match glyph_cols(t[i]) {
                Some((g, w)) => {
                    push_glyph(ops, &g, w, bx as i128 + cursor as i128, by as i128, &b);
                    cursor = cursor + w as u128 + 1;
                },
                None => {
                    assert(ops@ + Seq::empty() =~= ops@);
                },
            }
            i = i + 1;
        }
    }
}

} // verus!
