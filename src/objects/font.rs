//! Bitmap font for large text.
use vstd::prelude::*;
use super::wrap::chars_of;

verus! {

/// `c` with ASCII lowercase letters mapped to uppercase.
pub open spec fn upper(c: char) -> char {
    if 'a' <= c && c <= 'z' {
        ((c as u32 - 32) as u8) as char
    } else {
        c
    }
}

/// `c` with ASCII lowercase letters mapped to uppercase.
pub fn ascii_upper(c: char) -> (r: char)
    ensures
        r == upper(c),
{
    if 'a' <= c && c <= 'z' {
        ((c as u32 - 32) as u8) as char
    } else {
        c
    }
}

/// The five rows of the glyph for `c`, or `None` for a character outside the
/// font. A `#` in a row is a filled pixel, a space an empty one.
pub open spec fn font_glyph(c: char) -> Option<Seq<&'static str>> {
    if c == 'A' {
        Some(seq![" ### ", "#   #", "#####", "#   #", "#   #"])
    } else if c == 'B' {
        Some(seq!["#### ", "#   #", "#### ", "#   #", "#### "])
    } else if c == 'C' {
        Some(seq![" ### ", "#   #", "#    ", "#   #", " ### "])
    } else if c == 'D' {
        Some(seq!["#### ", "#   #", "#   #", "#   #", "#### "])
    } else if c == 'E' {
        Some(seq!["#####", "#    ", "###  ", "#    ", "#####"])
    } else if c == 'F' {
        Some(seq!["#####", "#    ", "###  ", "#    ", "#    "])
    } else if c == 'G' {
        Some(seq![" ### ", "#    ", "#  ##", "#   #", " ### "])
    } else if c == 'H' {
        Some(seq!["#   #", "#   #", "#####", "#   #", "#   #"])
    } else if c == 'I' {
        Some(seq!["###", " # ", " # ", " # ", "###"])
    } else if c == 'J' {
        Some(seq!["  ###", "   # ", "   # ", "#  # ", " ##  "])
    } else if c == 'K' {
        Some(seq!["#   #", "#  # ", "###  ", "#  # ", "#   #"])
    } else if c == 'L' {
        Some(seq!["#    ", "#    ", "#    ", "#    ", "#####"])
    } else if c == 'M' {
        Some(seq!["#   #", "## ##", "# # #", "#   #", "#   #"])
    } else if c == 'N' {
        Some(seq!["#   #", "##  #", "# # #", "#  ##", "#   #"])
    } else if c == 'O' {
        Some(seq![" ### ", "#   #", "#   #", "#   #", " ### "])
    } else if c == 'P' {
        Some(seq!["#### ", "#   #", "#### ", "#    ", "#    "])
    } else if c == 'Q' {
        Some(seq![" ### ", "#   #", "# # #", "#  # ", " ## #"])
    } else if c == 'R' {
        Some(seq!["#### ", "#   #", "#### ", "#  # ", "#   #"])
    } else if c == 'S' {
        Some(seq![" ####", "#    ", " ### ", "    #", "#### "])
    } else if c == 'T' {
        Some(seq!["#####", "  #  ", "  #  ", "  #  ", "  #  "])
    } else if c == 'U' {
        Some(seq!["#   #", "#   #", "#   #", "#   #", " ### "])
    } else if c == 'V' {
        Some(seq!["#   #", "#   #", "#   #", " # # ", "  #  "])
    } else if c == 'W' {
        Some(seq!["#   #", "#   #", "# # #", "## ##", "#   #"])
    } else if c == 'X' {
        Some(seq!["#   #", " # # ", "  #  ", " # # ", "#   #"])
    } else if c == 'Y' {
        Some(seq!["#   #", " # # ", "  #  ", "  #  ", "  #  "])
    } else if c == 'Z' {
        Some(seq!["#####", "   # ", "  #  ", " #   ", "#####"])
    } else if c == '0' {
        Some(seq![" ### ", "#   #", "#   #", "#   #", " ### "])
    } else if c == '1' {
        Some(seq![" # ", "## ", " # ", " # ", "###"])
    } else if c == '2' {
        Some(seq![" ### ", "#   #", "  ## ", " #   ", "#####"])
    } else if c == '3' {
        Some(seq![" ### ", "#   #", "  ## ", "#   #", " ### "])
    } else if c == '4' {
        Some(seq!["#  # ", "#  # ", "#####", "   # ", "   # "])
    } else if c == '5' {
        Some(seq!["#####", "#    ", "#### ", "    #", "#### "])
    } else if c == '6' {
        Some(seq![" ### ", "#    ", "#### ", "#   #", " ### "])
    } else if c == '7' {
        Some(seq!["#####", "   # ", "  #  ", " #   ", " #   "])
    } else if c == '8' {
        Some(seq![" ### ", "#   #", " ### ", "#   #", " ### "])
    } else if c == '9' {
        Some(seq![" ### ", "#   #", " ####", "   # ", " ### "])
    } else if c == ' ' {
        Some(seq!["   ", "   ", "   ", "   ", "   "])
    } else if c == '!' {
        Some(seq!["#", "#", "#", " ", "#"])
    } else if c == '.' {
        Some(seq![" ", " ", " ", " ", "#"])
    } else if c == '-' {
        Some(seq!["     ", "     ", "#####", "     ", "     "])
    } else if c == '?' {
        Some(seq![" ### ", "#   #", "  ## ", "     ", "  #  "])
    } else if c == ':' {
        Some(seq![" ", "#", " ", "#", " "])
    } else {
        None
    }
}

/// The five rows of the glyph for `c`, or `None` when `c` is not in the font.
/// Case folding is the caller's business.
pub fn glyph(ch: char) -> (r: Option<[&'static str; 5]>)
    ensures
        r matches Some(g) ==> font_glyph(ch) == Some(g@),
        r is None <==> font_glyph(ch) is None,
{
    let g = match ch {
        'A' => [" ### ", "#   #", "#####", "#   #", "#   #"],
        'B' => ["#### ", "#   #", "#### ", "#   #", "#### "],
        'C' => [" ### ", "#   #", "#    ", "#   #", " ### "],
        'D' => ["#### ", "#   #", "#   #", "#   #", "#### "],
        'E' => ["#####", "#    ", "###  ", "#    ", "#####"],
        'F' => ["#####", "#    ", "###  ", "#    ", "#    "],
        'G' => [" ### ", "#    ", "#  ##", "#   #", " ### "],
        'H' => ["#   #", "#   #", "#####", "#   #", "#   #"],
        'I' => ["###", " # ", " # ", " # ", "###"],
        'J' => ["  ###", "   # ", "   # ", "#  # ", " ##  "],
        'K' => ["#   #", "#  # ", "###  ", "#  # ", "#   #"],
        'L' => ["#    ", "#    ", "#    ", "#    ", "#####"],
        'M' => ["#   #", "## ##", "# # #", "#   #", "#   #"],
        'N' => ["#   #", "##  #", "# # #", "#  ##", "#   #"],
        'O' => [" ### ", "#   #", "#   #", "#   #", " ### "],
        'P' => ["#### ", "#   #", "#### ", "#    ", "#    "],
        'Q' => [" ### ", "#   #", "# # #", "#  # ", " ## #"],
        'R' => ["#### ", "#   #", "#### ", "#  # ", "#   #"],
        'S' => [" ####", "#    ", " ### ", "    #", "#### "],
        'T' => ["#####", "  #  ", "  #  ", "  #  ", "  #  "],
        'U' => ["#   #", "#   #", "#   #", "#   #", " ### "],
        'V' => ["#   #", "#   #", "#   #", " # # ", "  #  "],
        'W' => ["#   #", "#   #", "# # #", "## ##", "#   #"],
        'X' => ["#   #", " # # ", "  #  ", " # # ", "#   #"],
        'Y' => ["#   #", " # # ", "  #  ", "  #  ", "  #  "],
        'Z' => ["#####", "   # ", "  #  ", " #   ", "#####"],
        '0' => [" ### ", "#   #", "#   #", "#   #", " ### "],
        '1' => [" # ", "## ", " # ", " # ", "###"],
        '2' => [" ### ", "#   #", "  ## ", " #   ", "#####"],
        '3' => [" ### ", "#   #", "  ## ", "#   #", " ### "],
        '4' => ["#  # ", "#  # ", "#####", "   # ", "   # "],
        '5' => ["#####", "#    ", "#### ", "    #", "#### "],
        '6' => [" ### ", "#    ", "#### ", "#   #", " ### "],
        '7' => ["#####", "   # ", "  #  ", " #   ", " #   "],
        '8' => [" ### ", "#   #", " ### ", "#   #", " ### "],
        '9' => [" ### ", "#   #", " ####", "   # ", " ### "],
        ' ' => ["   ", "   ", "   ", "   ", "   "],
        '!' => ["#", "#", "#", " ", "#"],
        '.' => [" ", " ", " ", " ", "#"],
        '-' => ["     ", "     ", "#####", "     ", "     "],
        '?' => [" ### ", "#   #", "  ## ", "     ", "  #  "],
        ':' => [" ", "#", " ", "#", " "],
        _ => {
            return None;
        },
    };
    Some(g)
}

/// Every glyph is five rows of one common width between one and five
/// columns, drawn with `#` and spaces only.
pub proof fn lemma_glyph_shape(c: char)
    ensures
        font_glyph(c) matches Some(g) ==> {
            &&& g.len() == 5
            &&& 1 <= g[0]@.len() <= 5
            &&& forall|r: int| 0 <= r < 5 ==> (#[trigger] g[r])@.len() == g[0]@.len()
            &&& forall|r: int, k: int| 0 <= r < 5 && 0 <= k < g[0]@.len() ==> (#[trigger] g[r]@[k] == '#' || g[r]@[k] == ' ')
        },
{
        reveal_strlit(" ### ");
        reveal_strlit("#   #");
        reveal_strlit("#####");
        reveal_strlit("#### ");
        reveal_strlit("#    ");
        reveal_strlit("###  ");
        reveal_strlit("#  ##");
        reveal_strlit("###");
        reveal_strlit(" # ");
        reveal_strlit("  ###");
        reveal_strlit("   # ");
        reveal_strlit("#  # ");
        reveal_strlit(" ##  ");
        reveal_strlit("## ##");
        reveal_strlit("# # #");
        reveal_strlit("##  #");
        reveal_strlit(" ## #");
        reveal_strlit(" ####");
        reveal_strlit("    #");
        reveal_strlit("  #  ");
        reveal_strlit(" # # ");
        reveal_strlit(" #   ");
        reveal_strlit("## ");
        reveal_strlit("  ## ");
        reveal_strlit("   ");
        reveal_strlit("#");
        reveal_strlit(" ");
        reveal_strlit("     ");
    }

/// The number of columns the glyph of `c` (case-folded) takes, or 0 when it has none.
pub open spec fn glyph_width(c: char) -> int {
    match font_glyph(upper(c)) {
        Some(g) => g[0]@.len() as int,
        None => 0,
    }
}

/// The columns taken by the first `n` characters of `t`, counting one gap
/// column after each character that has a glyph.
pub open spec fn advance(t: Seq<char>, n: int) -> int
    decreases n,
{
    if n <= 0 {
        0
    } else {
        advance(t, n - 1) + if font_glyph(upper(t[n - 1])) is Some {
            glyph_width(t[n - 1]) + 1
        } else {
            0
        }
    }
}

/// The rendered width of `t`: glyph widths plus one gap between neighbours.
pub open spec fn spec_text_width(t: Seq<char>) -> int {
    if advance(t, t.len() as int) > 0 {
        advance(t, t.len() as int) - 1
    } else {
        0
    }
}

/// The width of a character's glyph, with its shape facts.
pub fn glyph_cols(c: char) -> (r: Option<([&'static str; 5], usize)>)
    ensures
        r is None <==> font_glyph(upper(c)) is None,
        r matches Some((g, w)) ==> {
            &&& font_glyph(upper(c)) == Some(g@)
            &&& w as int == glyph_width(c)
            &&& 1 <= w <= 5
            &&& forall|row: int| 0 <= row < 5 ==> (#[trigger] g@[row])@.len() == w
        },
{
    match glyph(ascii_upper(c)) {
        Some(g) => {
            proof {
                lemma_glyph_shape(upper(c));
            }
            let w = g[0].unicode_len();
            Some((g, w))
        },
        None => None,
    }
}

/// The rendered width of `text` in columns: the glyph widths of its
/// characters (case-folded, unknown ones skipped) plus one gap column between
/// neighbouring glyphs, saturated at `u16::MAX`.
pub fn text_width(text: &str) -> (r: u16)
    ensures
        r as int == if spec_text_width(text@) > u16::MAX { u16::MAX as int } else { spec_text_width(text@) },
{
    let t = chars_of(text);
    let mut acc: u128 = 0;
    let mut i: usize = 0;
    while i < t.len()
        invariant
            i <= t@.len(),
            t@ == text@,
            acc as int == advance(t@, i as int),
            acc <= 6 * i,
        decreases t@.len() - i,
    {
        match glyph_cols(t[i]) {
            Some((_g, w)) => {
                acc = acc + w as u128 + 1;
            },
            None => {},
        }
        i = i + 1;
    }
    let width: u128 = if acc > 0 { acc - 1 } else { 0 };
    if width > u16::MAX as u128 {
        u16::MAX
    } else {
        width as u16
    }
}

} // verus!
