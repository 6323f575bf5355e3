//! Text helpers: character sequences of strings and greedy word wrapping.
use vstd::prelude::*;
use vstd::std_specs::iter::IteratorSpec;

verus! {

broadcast use vstd::string::group_string_axioms;

/// The characters of `s`, in order.
pub fn chars_of(s: &str) -> (r: Vec<char>)
    ensures
        r@ == s@,
{
    let mut it = s.chars();
    let mut r: Vec<char> = Vec::new();
    loop
        invariant
            r@ + it.remaining() == s@,
        ensures
            r@ == s@,
        decreases s@.len() - r@.len(),
    {
        match it.next() {
            Some(c) => {
                r.push(c);
            },
            None => {
                assert(r@ =~= s@);
                break;
            },
        }
    }
    r
}

/// The rows of a wrapped text, each as a sequence of characters.
pub open spec fn rows_view(v: Seq<Vec<char>>) -> Seq<Seq<char>> {
    v.map_values(|r: Vec<char>| r@)
}

/// A row of `w` cells holding `seg` from column `col0` on, spaces elsewhere.
pub open spec fn place(seg: Seq<char>, col0: int, w: int) -> Seq<char> {
    Seq::new(w as nat, |i: int| if col0 <= i < col0 + seg.len() { seg[i - col0] } else { ' ' })
}

/// The index of the last space among the first `n` characters of `c`, or -1.
pub open spec fn last_space(c: Seq<char>, n: int) -> int
    decreases n,
{
    if n <= 0 {
        -1
    } else if c[n - 1] == ' ' {
        n - 1
    } else {
        last_space(c, n - 1)
    }
}

/// The first position at or after `p` that does not hold a space.
pub open spec fn skip_spaces(c: Seq<char>, p: int) -> int
    decreases c.len() - p,
{
    if 0 <= p < c.len() && c[p] == ' ' {
        skip_spaces(c, p + 1)
    } else {
        p
    }
}

/// Skipping spaces moves forward and stays within the text.
pub proof fn lemma_skip_spaces(c: Seq<char>, p: int)
    requires
        0 <= p <= c.len(),
    ensures
        p <= skip_spaces(c, p) <= c.len(),
    decreases c.len() - p,
{
    if p < c.len() && c[p] == ' ' {
        lemma_skip_spaces(c, p + 1);
    }
}

/// The greedy wrap of `c` from position `p` into rows of width `w`.
///
/// A row takes as much of the rest as fits; when the rest does not fit, it
/// breaks before the last space within reach (that space is consumed) or, with
/// no space, hard-breaks at the row's width; spaces after a break are skipped.
/// Rows after the first start at column `min(indent, w - 1)`.
pub open spec fn wrap_from(c: Seq<char>, p: int, w: int, indent: int, first: bool) -> Seq<Seq<char>>
    decreases c.len() - p,
{
    if p < 0 || p >= c.len() || w <= 0 {
        Seq::empty()
    } else {
        let col0 = if first { 0 } else if indent < w - 1 { indent } else { w - 1 };
        let avail = w - col0;
        if c.len() - p <= avail {
            seq![place(c.subrange(p, c.len() as int), col0, w)]
        } else {
            let sp = last_space(c.subrange(p, p + avail), avail);
            let len = if sp >= 0 { sp } else { avail };
            let adv = if sp >= 0 { sp + 1 } else { avail };
            let q = skip_spaces(c, p + adv);
            seq![place(c.subrange(p, p + len), col0, w)] + if p < q <= c.len() {
                wrap_from(c, q, w, indent, false)
            } else {
                Seq::empty()
            }
        }
    }
}

/// The rows of one line wrapped to width `w`; an empty line is one empty row.
pub open spec fn wrap_spec(c: Seq<char>, w: int, indent: int) -> Seq<Seq<char>> {
    if c.len() == 0 {
        seq![Seq::empty()]
    } else {
        wrap_from(c, 0, w, indent, true)
    }
}

/// Whether `c` is an ASCII digit.
pub open spec fn is_digit(c: char) -> bool {
    '0' <= c && c <= '9'
}

/// The end of the run of ASCII digits starting at `i`.
pub open spec fn digits_end(c: Seq<char>, i: int) -> int
    decreases c.len() - i,
{
    if 0 <= i < c.len() && is_digit(c[i]) {
        digits_end(c, i + 1)
    } else {
        i
    }
}

/// The hanging indent of a list line: 2 after a `"- "` bullet, 3 after a
/// `"N. "` number, 0 otherwise.
pub open spec fn list_indent(c: Seq<char>) -> int {
    if c.len() >= 2 && c[0] == '-' && c[1] == ' ' {
        2
    } else {
        let d = digits_end(c, 0);
        if d > 0 && d + 2 <= c.len() && c[d] == '.' && c[d + 1] == ' ' {
            3
        } else {
            0
        }
    }
}

/// The continuation indent of a list line.
pub fn list_continuation_indent(line: &Vec<char>) -> (r: usize)
    ensures
        r as int == list_indent(line@),
{
    let n = line.len();
    if n >= 2 && line[0] == '-' && line[1] == ' ' {
        return 2;
    }
    let mut d: usize = 0;
    while d < n && '0' <= line[d] && line[d] <= '9'
        invariant
            d <= n,
            n == line@.len(),
            digits_end(line@, d as int) == digits_end(line@, 0),
        decreases n - d,
    {
        d = d + 1;
    }
    if d > 0 && d < n && n - d >= 2 && line[d] == '.' && line[d + 1] == ' ' {
        3
    } else {
        0
    }
}

/// A row of `w` cells holding `c[p..p + len]` from column `col0` on.
fn place_row(c: &Vec<char>, p: usize, len: usize, col0: usize, w: usize) -> (row: Vec<char>)
    requires
        p + len <= c@.len(),
        col0 + len <= w,
    ensures
        row@ == place(c@.subrange(p as int, p + len), col0 as int, w as int),
{
    let cl = c.len();
    let mut row: Vec<char> = Vec::new();
    let mut i: usize = 0;
    while i < w
        invariant
            i <= w,
            cl == c@.len(),
            p + len <= c@.len(),
            col0 + len <= w,
            row@ == place(c@.subrange(p as int, p + len), col0 as int, w as int).subrange(0, i as int),
        decreases w - i,
    {
        if col0 <= i && i < col0 + len {
            row.push(c[p + (i - col0)]);
        } else {
            row.push(' ');
        }
        i = i + 1;
        assert(row@ =~= place(c@.subrange(p as int, p + len), col0 as int, w as int).subrange(0, i as int));
    }
    assert(row@ =~= place(c@.subrange(p as int, p + len), col0 as int, w as int));
    row
}

/// `last_space` of a window, searched from its end.
fn find_last_space(c: &Vec<char>, p: usize, n: usize) -> (r: Option<usize>)
    requires
        p + n <= c@.len(),
    ensures
        r matches Some(k) ==> k as int == last_space(c@.subrange(p as int, p + n), n as int) && k < n,
        r is None ==> last_space(c@.subrange(p as int, p + n), n as int) == -1,
{
    let ghost win = c@.subrange(p as int, p + n);
    let cl = c.len();
    let mut k: usize = n;
    while k > 0
        invariant
            k <= n,
            cl == c@.len(),
            p + n <= c@.len(),
            win == c@.subrange(p as int, p + n),
            last_space(win, k as int) == last_space(win, n as int),
        decreases k,
    {
        if c[p + (k - 1)] == ' ' {
            return Some(k - 1);
        }
        k = k - 1;
    }
    None
}

/// Wrap one line to width `w` (see `wrap_from`), continuation rows indented
/// by `indent`; each row is `w` cells wide, an empty line gives one empty row.
pub fn wrap_text_line(c: &Vec<char>, w: usize, indent: usize) -> (rows: Vec<Vec<char>>)
    requires
        w > 0,
    ensures
        rows_view(rows@) == wrap_spec(c@, w as int, indent as int),
        rows@.len() >= 1,
{
    let mut rows: Vec<Vec<char>> = Vec::new();
    if c.len() == 0 {
        rows.push(Vec::new());
        assert(rows_view(rows@) =~= wrap_spec(c@, w as int, indent as int));
        return rows;
    }
    let n = c.len();
    let mut pos: usize = 0;
    let mut first = true;
    while pos < n
        invariant
            n == c@.len(),
            n > 0,
            w > 0,
            pos <= n,
            first ==> pos == 0,
            !first ==> rows@.len() >= 1,
            rows_view(rows@) + wrap_from(c@, pos as int, w as int, indent as int, first) == wrap_from(c@, 0, w as int, indent as int, true),
        decreases n - pos,
    {
        let col0 = if first { 0 } else if indent < w - 1 { indent } else { w - 1 };
        let avail = w - col0;
        let ghost vrows = rows_view(rows@);
        if n - pos <= avail {
            let row = place_row(c, pos, n - pos, col0, w);
            rows.push(row);
            assert(rows_view(rows@) =~= vrows + wrap_from(c@, pos as int, w as int, indent as int, first));
            pos = n;
            first = false;
            assert(rows_view(rows@) + wrap_from(c@, pos as int, w as int, indent as int, first) =~= rows_view(rows@));
        } else {
            let sp = find_last_space(c, pos, avail);
            let (len, adv) = match sp {
                Some(k) => (k, k + 1),
                None => (avail, avail),
            };
            let row = place_row(c, pos, len, col0, w);
            rows.push(row);
            let ghost old_pos = pos as int;
            let ghost was_first = first;
            pos = pos + adv;
            proof {
                lemma_skip_spaces(c@, pos as int);
            }
            let ghost target = skip_spaces(c@, pos as int);
            while pos < n && c[pos] == ' '
                invariant
                    pos <= n,
                    n == c@.len(),
                    skip_spaces(c@, pos as int) == target,
                decreases n - pos,
            {
                pos = pos + 1;
            }
            first = false;
            assert(c@.subrange(old_pos, old_pos + avail) == c@.subrange(old_pos, old_pos + avail));
            assert(rows_view(rows@) =~= vrows + seq![place(c@.subrange(old_pos, old_pos + len), col0 as int, w as int)]);
            assert(wrap_from(c@, old_pos, w as int, indent as int, was_first) == seq![place(c@.subrange(old_pos, old_pos + len), col0 as int, w as int)] + wrap_from(c@, pos as int, w as int, indent as int, false));
            assert(rows_view(rows@) + wrap_from(c@, pos as int, w as int, indent as int, first) =~= vrows + wrap_from(c@, old_pos, w as int, indent as int, was_first));
        }
    }
    assert(rows_view(rows@) + wrap_from(c@, pos as int, w as int, indent as int, first) =~= rows_view(rows@));
    rows
}

} // verus!
