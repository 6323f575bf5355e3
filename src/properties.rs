//! Text forms of property values used by the editor: colours, flags,
//! characters and column-width property names.
use vstd::prelude::*;
use crate::types::{Color, NamedColor};
use crate::objects::wrap::chars_of;

verus! {

broadcast use vstd::string::group_string_axioms;

/// The kind of an editable property, which decides how its value is entered.
#[derive(Debug, Clone, Copy, PartialEq, Eq, Structural)]
pub enum PropertyKind {
    Text,
    Color,
    Coordinate,
    /// Read-only member entry; the value holds the member's object index.
    GroupMember,
    /// Computed, read-only display field.
    ReadOnly,
    /// Dropdown for arrow head characters.
    HeadChar,
    /// Dropdown for arrow body characters.
    BodyChar,
    /// Table column width, as a percentage.
    TableColWidth,
}

/// One editable property of an object, with its value as text.
pub struct Property {
    pub name: &'static str,
    pub value: String,
    pub kind: PropertyKind,
}

/// Why a property value was rejected.
#[derive(Debug, Clone, Copy, PartialEq, Eq, Structural)]
pub enum PropertyError {
    /// A `#` colour whose digits are not six bytes long.
    HexLength,
    /// A `#` colour whose digit pairs are not hexadecimal numbers.
    HexDigits,
    /// A colour name that is not one of the eight.
    UnknownColor,
    /// Not one of `true`, `1`, `yes`, `false`, `0`, `no`.
    InvalidBoolean,
    /// Not exactly one character.
    NotOneChar,
    /// Neither one character nor `auto`.
    NotOneCharOrAuto,
}

/// Whether `c` is white space in the Unicode sense (`char::is_whitespace`).
pub open spec fn is_space(c: char) -> bool {
    let u = c as u32;
    (0x9 <= u && u <= 0xD) || u == 0x20 || u == 0x85 || u == 0xA0 || u == 0x1680 || (0x2000 <= u && u <= 0x200A)
        || u == 0x2028 || u == 0x2029 || u == 0x202F || u == 0x205F || u == 0x3000
}

fn space(c: char) -> (r: bool)
    ensures
        r == is_space(c),
{
    let u = c as u32;
    (0x9 <= u && u <= 0xD) || u == 0x20 || u == 0x85 || u == 0xA0 || u == 0x1680 || (0x2000 <= u && u <= 0x200A)
        || u == 0x2028 || u == 0x2029 || u == 0x202F || u == 0x205F || u == 0x3000
}

/// The first position at or after `i` not holding white space.
pub open spec fn lead_end(s: Seq<char>, i: int) -> int
    decreases s.len() - i,
{
    if 0 <= i < s.len() && is_space(s[i]) {
        lead_end(s, i + 1)
    } else {
        i
    }
}

/// The position after the last character before `j` that is not white space,
/// looking no further back than `lo`.
pub open spec fn trail_end(s: Seq<char>, lo: int, j: int) -> int
    decreases j - lo,
{
    if lo < j && j <= s.len() && is_space(s[j - 1]) {
        trail_end(s, lo, j - 1)
    } else {
        j
    }
}

/// `s` without leading and trailing white space.
pub open spec fn trimmed(s: Seq<char>) -> Seq<char> {
    let a = lead_end(s, 0);
    s.subrange(a, trail_end(s, a, s.len() as int))
}

proof fn lemma_lead_end(s: Seq<char>, i: int)
    requires
        0 <= i <= s.len(),
    ensures
        i <= lead_end(s, i) <= s.len(),
    decreases s.len() - i,
{
    if i < s.len() && is_space(s[i]) {
        lemma_lead_end(s, i + 1);
    }
}

proof fn lemma_trail_end(s: Seq<char>, lo: int, j: int)
    requires
        0 <= lo <= j <= s.len(),
    ensures
        lo <= trail_end(s, lo, j) <= j,
    decreases j - lo,
{
    if lo < j && is_space(s[j - 1]) {
        lemma_trail_end(s, lo, j - 1);
    }
}

/// The characters of `s` without leading and trailing white space.
fn trim_chars(s: &str) -> (r: Vec<char>)
    ensures
        r@ == trimmed(s@),
{
    let v = chars_of(s);
    let n = v.len();
    let mut a: usize = 0;
    while a < n && space(v[a])
        invariant
            a <= n,
            n == v@.len(),
            v@ == s@,
            lead_end(v@, a as int) == lead_end(v@, 0),
        decreases n - a,
    {
        a = a + 1;
    }
    proof {
        lemma_lead_end(v@, a as int);
    }
    let mut b: usize = n;
    while b > a && space(v[b - 1])
        invariant
            a <= b <= n,
            n == v@.len(),
            a as int == lead_end(v@, 0),
            trail_end(v@, a as int, b as int) == trail_end(v@, a as int, n as int),
        decreases b,
    {
        b = b - 1;
    }
    let mut r: Vec<char> = Vec::new();
    let mut k: usize = a;
    while k < b
        invariant
            a <= k <= b <= n,
            n == v@.len(),
            r@ == v@.subrange(a as int, k as int),
        decreases b - k,
    {
        r.push(v[k]);
        k = k + 1;
        assert(r@ =~= v@.subrange(a as int, k as int));
    }
    r
}

/// Whether `v` holds exactly the characters of `lit`.
fn is_word(v: &Vec<char>, lit: &str) -> (r: bool)
    ensures
        r == (v@ == lit@),
{
    let w = chars_of(lit);
    if v.len() != w.len() {
        return false;
    }
    let mut i: usize = 0;
    while i < v.len()
        invariant
            i <= v@.len(),
            v@.len() == w@.len(),
            w@ == lit@,
            v@.subrange(0, i as int) == w@.subrange(0, i as int),
        decreases v@.len() - i,
    {
        if v[i] != w[i] {
            assert(v@[i as int] != lit@[i as int]);
            return false;
        }
        i = i + 1;
        assert(v@.subrange(0, i as int) =~= w@.subrange(0, i as int));
    }
    assert(w@.subrange(0, i as int) =~= w@);
    assert(v@.subrange(0, i as int) =~= v@);
    true
}

/// Parse a flag: `true`, `1` or `yes`, and `false`, `0` or `no`, around
/// white space.
pub fn parse_bool(s: &str) -> (r: Result<bool, PropertyError>)
    ensures
        ({
            let t = trimmed(s@);
            r == if t == "true"@ || t == "1"@ || t == "yes"@ {
                Ok::<bool, PropertyError>(true)
            } else if t == "false"@ || t == "0"@ || t == "no"@ {
                Ok(false)
            } else {
                Err(PropertyError::InvalidBoolean)
            }
        }),
{
    let t = trim_chars(s);
    if is_word(&t, "true") || is_word(&t, "1") || is_word(&t, "yes") {
        Ok(true)
    } else if is_word(&t, "false") || is_word(&t, "0") || is_word(&t, "no") {
        Ok(false)
    } else {
        Err(PropertyError::InvalidBoolean)
    }
}

/// Parse a single character, taken as it is.
pub fn parse_char(s: &str) -> (r: Result<char, PropertyError>)
    ensures
        r == if s@.len() == 1 {
            Ok::<char, PropertyError>(s@[0])
        } else {
            Err(PropertyError::NotOneChar)
        },
{
    let v = chars_of(s);
    if v.len() == 1 {
        Ok(v[0])
    } else {
        Err(PropertyError::NotOneChar)
    }
}

/// Parse an optional character: empty or `auto` (around white space) is
/// none, otherwise exactly one character.
pub fn parse_opt_char(s: &str) -> (r: Result<Option<char>, PropertyError>)
    ensures
        ({
            let t = trimmed(s@);
            r == if t.len() == 0 || t == "auto"@ {
                Ok::<Option<char>, PropertyError>(None)
            } else if t.len() == 1 {
                Ok(Some(t[0]))
            } else {
                Err(PropertyError::NotOneCharOrAuto)
            }
        }),
{
    let t = trim_chars(s);
    if t.len() == 0 || is_word(&t, "auto") {
        Ok(None)
    } else if t.len() == 1 {
        Ok(Some(t[0]))
    } else {
        Err(PropertyError::NotOneCharOrAuto)
    }
}

/// The name of a colour, as stored in property values.
pub open spec fn color_name(c: NamedColor) -> Seq<char> {
    match c {
        NamedColor::Black => "black"@,
        NamedColor::Red => "red"@,
        NamedColor::Green => "green"@,
        NamedColor::Yellow => "yellow"@,
        NamedColor::Blue => "blue"@,
        NamedColor::Magenta => "magenta"@,
        NamedColor::Cyan => "cyan"@,
        NamedColor::White => "white"@,
    }
}

/// The name of a colour.
pub fn format_named_color(c: &NamedColor) -> (r: &'static str)
    ensures
        r@ == color_name(*c),
{
    match c {
        NamedColor::Black => "black",
        NamedColor::Red => "red",
        NamedColor::Green => "green",
        NamedColor::Yellow => "yellow",
        NamedColor::Blue => "blue",
        NamedColor::Magenta => "magenta",
        NamedColor::Cyan => "cyan",
        NamedColor::White => "white",
    }
}

/// The lowercase hexadecimal digit of `d` (below 16).
pub open spec fn hex_digit(d: int) -> char {
    if d < 10 {
        ((48 + d) as u8) as char
    } else {
        ((87 + d) as u8) as char
    }
}

/// Two lowercase hexadecimal digits for a byte.
pub open spec fn hex_byte(b: u8) -> Seq<char> {
    seq![hex_digit(b as int / 16), hex_digit(b as int % 16)]
}

/// The text form of an optional colour: `none`, its name, or `#rrggbb` in
/// lowercase hexadecimal.
pub open spec fn color_text(c: Option<Color>) -> Seq<char> {
    match c {
        None => "none"@,
        Some(Color::Named(n)) => color_name(n),
        Some(Color::Rgb { r, g, b }) => seq!['#'] + hex_byte(r) + hex_byte(g) + hex_byte(b),
    }
}

fn hex_str(d: u8) -> (r: &'static str)
    requires
        d < 16,
    ensures
        r@ == seq![hex_digit(d as int)],
{
    proof {
        reveal_strlit("0");
        reveal_strlit("1");
        reveal_strlit("2");
        reveal_strlit("3");
        reveal_strlit("4");
        reveal_strlit("5");
        reveal_strlit("6");
        reveal_strlit("7");
        reveal_strlit("8");
        reveal_strlit("9");
        reveal_strlit("a");
        reveal_strlit("b");
        reveal_strlit("c");
        reveal_strlit("d");
        reveal_strlit("e");
        reveal_strlit("f");
    }
    let r = match d {
        0 => "0",
        1 => "1",
        2 => "2",
        3 => "3",
        4 => "4",
        5 => "5",
        6 => "6",
        7 => "7",
        8 => "8",
        9 => "9",
        10 => "a",
        11 => "b",
        12 => "c",
        13 => "d",
        14 => "e",
        _ => "f",
    };
    assert(r@ =~= seq![hex_digit(d as int)]);
    r
}

fn push_hex_byte(s: &mut String, b: u8)
    ensures
        final(s)@ == old(s)@ + hex_byte(b),
{
    s.append(hex_str(b / 16));
    s.append(hex_str(b % 16));
    assert(final(s)@ =~= old(s)@ + hex_byte(b));
}

/// The text form of an optional colour (see `color_text`).
pub fn format_opt_color(color: &Option<Color>) -> (r: String)
    ensures
        r@ == color_text(*color),
{
    match color {
        None => String::from_str("none"),
        Some(Color::Named(n)) => String::from_str(format_named_color(n)),
        Some(Color::Rgb { r, g, b }) => {
            proof {
                reveal_strlit("#");
            }
            let mut s = String::from_str("#");
            push_hex_byte(&mut s, *r);
            push_hex_byte(&mut s, *g);
            push_hex_byte(&mut s, *b);
            s
        },
    }
}

/// The text form of an optional colour, for the editor's panels.
pub fn format_opt_color_pub(color: &Option<Color>) -> (r: String)
    ensures
        r@ == color_text(*color),
{
    format_opt_color(color)
}

/// Whether `c` lowercases to the ASCII lowercase letter `a`: `a` itself, its
/// uppercase form, or, for `k`, the Kelvin sign.
pub open spec fn folds_to(c: char, a: char) -> bool {
    c == a || ('A' <= c && c <= 'Z' && (c as u32) + 32 == a as u32) || (c == '\u{212A}' && a == 'k')
}

/// Whether `t` equals the lowercase ASCII word `w` once lowercased.
pub open spec fn lower_matches(t: Seq<char>, w: Seq<char>) -> bool {
    t.len() == w.len() && forall|i: int| 0 <= i < t.len() ==> folds_to(#[trigger] t[i], w[i])
}

fn matches_lower(t: &Vec<char>, word: &str) -> (r: bool)
    ensures
        r == lower_matches(t@, word@),
{
    let w = chars_of(word);
    if t.len() != w.len() {
        return false;
    }
    let mut i: usize = 0;
    while i < t.len()
        invariant
            i <= t@.len(),
            t@.len() == w@.len(),
            w@ == word@,
            forall|k: int| 0 <= k < i ==> folds_to(#[trigger] t@[k], w@[k]),
        decreases t@.len() - i,
    {
        let c = t[i];
        let a = w[i];
        let ok = c == a || ('A' <= c && c <= 'Z' && (c as u32) + 32 == a as u32) || (c == '\u{212A}' && a == 'k');
        if !ok {
            return false;
        }
        i = i + 1;
    }
    true
}

/// The number of bytes of `c` in UTF-8.
pub open spec fn utf8_width(c: char) -> int {
    if (c as u32) < 0x80 {
        1
    } else if (c as u32) < 0x800 {
        2
    } else if (c as u32) < 0x10000 {
        3
    } else {
        4
    }
}

/// The number of bytes of the first `n` characters of `s` in UTF-8.
pub open spec fn utf8_len(s: Seq<char>, n: int) -> int
    decreases n,
{
    if n <= 0 {
        0
    } else {
        utf8_len(s, n - 1) + utf8_width(s[n - 1])
    }
}

/// Whether `c` is a hexadecimal digit.
pub open spec fn is_hex(c: char) -> bool {
    ('0' <= c && c <= '9') || ('a' <= c && c <= 'f') || ('A' <= c && c <= 'F')
}

/// The value of a hexadecimal digit.
pub open spec fn hex_value(c: char) -> int {
    if '0' <= c && c <= '9' {
        c as u32 - 48
    } else if 'a' <= c && c <= 'f' {
        c as u32 - 87
    } else {
        c as u32 - 55
    }
}

/// The byte written by two characters in base 16: two digits, or a plus
/// sign and one digit.
pub open spec fn hex_pair(a: char, b: char) -> Option<u8> {
    if is_hex(a) && is_hex(b) {
        Some((hex_value(a) * 16 + hex_value(b)) as u8)
    } else if a == '+' && is_hex(b) {
        Some(hex_value(b) as u8)
    } else {
        None
    }
}

/// The colour a property value denotes, or why it denotes none: around white
/// space, empty or `none` is no colour; `#` and three base-16 byte pairs
/// (six bytes of text) an RGB colour; otherwise one of the eight names in any
/// letter case.
pub open spec fn color_of_text(s: Seq<char>) -> Result<Option<Color>, PropertyError> {
    let t = trimmed(s);
    if t.len() == 0 || t == "none"@ {
        Ok(None)
    } else if t[0] == '#' {
        let h = t.drop_first();
        if utf8_len(h, h.len() as int) != 6 {
            Err(PropertyError::HexLength)
        } else if h.len() == 6 && hex_pair(h[0], h[1]) is Some && hex_pair(h[2], h[3]) is Some && hex_pair(h[4], h[5]) is Some {
            Ok(Some(Color::Rgb { r: hex_pair(h[0], h[1])->0, g: hex_pair(h[2], h[3])->0, b: hex_pair(h[4], h[5])->0 }))
        } else {
            Err(PropertyError::HexDigits)
        }
    } else if lower_matches(t, "black"@) {
        Ok(Some(Color::Named(NamedColor::Black)))
    } else if lower_matches(t, "red"@) {
        Ok(Some(Color::Named(NamedColor::Red)))
    } else if lower_matches(t, "green"@) {
        Ok(Some(Color::Named(NamedColor::Green)))
    } else if lower_matches(t, "yellow"@) {
        Ok(Some(Color::Named(NamedColor::Yellow)))
    } else if lower_matches(t, "blue"@) {
        Ok(Some(Color::Named(NamedColor::Blue)))
    } else if lower_matches(t, "magenta"@) {
        Ok(Some(Color::Named(NamedColor::Magenta)))
    } else if lower_matches(t, "cyan"@) {
        Ok(Some(Color::Named(NamedColor::Cyan)))
    } else if lower_matches(t, "white"@) {
        Ok(Some(Color::Named(NamedColor::White)))
    } else {
        Err(PropertyError::UnknownColor)
    }
}

fn hex_val(c: char) -> (r: Option<u8>)
    ensures
        r is Some <==> is_hex(c),
        r matches Some(v) ==> v as int == hex_value(c) && v < 16,
{
    if '0' <= c && c <= '9' {
        Some((c as u32 - 48) as u8)
    } else if 'a' <= c && c <= 'f' {
        Some((c as u32 - 87) as u8)
    } else if 'A' <= c && c <= 'F' {
        Some((c as u32 - 55) as u8)
    } else {
        None
    }
}

fn pair(a: char, b: char) -> (r: Option<u8>)
    ensures
        r == hex_pair(a, b),
{
    match (hex_val(a), hex_val(b)) {
        (Some(x), Some(y)) => Some(x * 16 + y),
        (None, Some(y)) => if a == '+' { Some(y) } else { None },
        _ => None,
    }
}

fn utf8_count(h: &Vec<char>) -> (r: u128)
    ensures
        r as int == utf8_len(h@, h@.len() as int),
{
    let mut n: u128 = 0;
    let mut i: usize = 0;
    while i < h.len()
        invariant
            i <= h@.len(),
            n as int == utf8_len(h@, i as int),
            n <= 4 * i,
        decreases h@.len() - i,
    {
        let u = h[i] as u32;
        let w: u128 = if u < 0x80 { 1 } else if u < 0x800 { 2 } else if u < 0x10000 { 3 } else { 4 };
        n = n + w;
        i = i + 1;
    }
    n
}

/// Parse an optional colour (see `color_of_text`).
pub fn parse_opt_color(s: &str) -> (r: Result<Option<Color>, PropertyError>)
    ensures
        r == color_of_text(s@),
{
    let t = trim_chars(s);
    if t.len() == 0 || is_word(&t, "none") {
        return Ok(None);
    }
    if t[0] == '#' {
        let mut h: Vec<char> = Vec::new();
        let mut i: usize = 1;
        while i < t.len()
            invariant
                1 <= i <= t@.len(),
                h@ == t@.subrange(1, i as int),
            decreases t@.len() - i,
        {
            h.push(t[i]);
            i = i + 1;
            assert(h@ =~= t@.subrange(1, i as int));
        }
        assert(h@ =~= t@.drop_first());
        if utf8_count(&h) != 6 {
            return Err(PropertyError::HexLength);
        }
        if h.len() == 6 {
            match (pair(h[0], h[1]), pair(h[2], h[3]), pair(h[4], h[5])) {
                (Some(r), Some(g), Some(b)) => {
                    return Ok(Some(Color::Rgb { r, g, b }));
                },
                _ => {},
            }
        }
        return Err(PropertyError::HexDigits);
    }
    if matches_lower(&t, "black") {
        Ok(Some(Color::Named(NamedColor::Black)))
    } else if matches_lower(&t, "red") {
        Ok(Some(Color::Named(NamedColor::Red)))
    } else if matches_lower(&t, "green") {
        Ok(Some(Color::Named(NamedColor::Green)))
    } else if matches_lower(&t, "yellow") {
        Ok(Some(Color::Named(NamedColor::Yellow)))
    } else if matches_lower(&t, "blue") {
        Ok(Some(Color::Named(NamedColor::Blue)))
    } else if matches_lower(&t, "magenta") {
        Ok(Some(Color::Named(NamedColor::Magenta)))
    } else if matches_lower(&t, "cyan") {
        Ok(Some(Color::Named(NamedColor::Cyan)))
    } else if matches_lower(&t, "white") {
        Ok(Some(Color::Named(NamedColor::White)))
    } else {
        Err(PropertyError::UnknownColor)
    }
}

/// Parse an optional colour, for the editor's panels (see `color_of_text`).
pub fn parse_opt_color_pub(s: &str) -> (r: Result<Option<Color>, PropertyError>)
    ensures
        r == color_of_text(s@),
{
    parse_opt_color(s)
}

/// Whether every character of `d` is an ASCII digit.
pub open spec fn all_digits(d: Seq<char>) -> bool {
    forall|i: int| 0 <= i < d.len() ==> '0' <= #[trigger] d[i] && d[i] <= '9'
}

/// The number written by the first `n` digits of `d`.
pub open spec fn digits_value(d: Seq<char>, n: int) -> int
    decreases n,
{
    if n <= 0 {
        0
    } else {
        digits_value(d, n - 1) * 10 + (d[n - 1] as u32 - 48)
    }
}

/// The `usize` written by `s`: an optional `+` and at least one digit, of a
/// value that fits.
pub open spec fn usize_of_text(s: Seq<char>) -> Option<usize> {
    let d = if s.len() > 0 && s[0] == '+' { s.drop_first() } else { s };
    if d.len() == 0 || !all_digits(d) || digits_value(d, d.len() as int) > usize::MAX {
        None
    } else {
        Some(digits_value(d, d.len() as int) as usize)
    }
}

proof fn lemma_digits_grow(d: Seq<char>, k: int, n: int)
    requires
        0 <= k <= n <= d.len(),
        all_digits(d),
    ensures
        digits_value(d, k) <= digits_value(d, n),
        digits_value(d, n) >= 0,
    decreases n,
{
    if n > k {
        lemma_digits_grow(d, k, n - 1);
        assert('0' <= d[n - 1] && d[n - 1] <= '9');
    } else if n > 0 {
        lemma_digits_grow(d, 0, n - 1);
        assert('0' <= d[n - 1] && d[n - 1] <= '9');
    }
}

fn parse_usize(s: &Vec<char>, from: usize) -> (r: Option<usize>)
    requires
        from <= s@.len(),
    ensures
        r == usize_of_text(s@.subrange(from as int, s@.len() as int)),
{
    let ghost t = s@.subrange(from as int, s@.len() as int);
    let start: usize = if from < s.len() && s[from] == '+' { from + 1 } else { from };
    let ghost d = if t.len() > 0 && t[0] == '+' { t.drop_first() } else { t };
    assert(d =~= s@.subrange(start as int, s@.len() as int));
    if start == s.len() {
        return None;
    }
    let mut acc: u128 = 0;
    let mut i: usize = start;
    while i < s.len()
        invariant
            start <= i <= s@.len(),
            from <= s@.len(),
            t == s@.subrange(from as int, s@.len() as int),
            d == (if t.len() > 0 && t[0] == '+' { t.drop_first() } else { t }),
            d.len() > 0,
            d == s@.subrange(start as int, s@.len() as int),
            all_digits(d.subrange(0, i - start)),
            acc as int == digits_value(d, i - start),
            acc <= usize::MAX,
        decreases s@.len() - i,
    {
        let c = s[i];
        assert(d[i - start] == c);
        if c < '0' || c > '9' {
            assert(!all_digits(d)) by {
                assert(!('0' <= d[i - start] && d[i - start] <= '9'));
            }
            return None;
        }
        let next: u128 = acc * 10 + (c as u32 - 48) as u128;
        assert(digits_value(d, i + 1 - start) == digits_value(d, i - start) * 10 + (d[i - start] as u32 - 48));
        assert(d.subrange(0, i + 1 - start) =~= d.subrange(0, i - start).push(c));
        if next > usize::MAX as u128 {
            proof {
                if all_digits(d) {
                    lemma_digits_grow(d, i + 1 - start, d.len() as int);
                }
            }
            assert(d.len() > 0);
            return None;
        }
        acc = next;
        i = i + 1;
    }
    assert(d.subrange(0, i - start) =~= d);
    Some(acc as usize)
}

/// The column index named by a `col_N_width` property name.
pub fn parse_col_width_name(name: &str) -> (r: Option<usize>)
    ensures
        r == if name@.len() >= 10 && name@.subrange(0, 4) == "col_"@ && name@.subrange(name@.len() - 6, name@.len() as int) == "_width"@ {
            usize_of_text(name@.subrange(4, name@.len() - 6))
        } else {
            None::<usize>
        },
{
    let v = chars_of(name);
    let n = v.len();
    if n < 10 {
        return None;
    }
    let mut head: Vec<char> = Vec::new();
    let mut tail: Vec<char> = Vec::new();
    let mut i: usize = 0;
    while i < 4
        invariant
            i <= 4,
            n == v@.len(),
            n >= 10,
            head@ == v@.subrange(0, i as int),
        decreases 4 - i,
    {
        head.push(v[i]);
        i = i + 1;
        assert(head@ =~= v@.subrange(0, i as int));
    }
    let mut j: usize = n - 6;
    while j < n
        invariant
            n - 6 <= j <= n,
            n >= 10,
            n == v@.len(),
            tail@ == v@.subrange(n - 6, j as int),
        decreases n - j,
    {
        tail.push(v[j]);
        j = j + 1;
        assert(tail@ =~= v@.subrange(n - 6, j as int));
    }
    if !is_word(&head, "col_") || !is_word(&tail, "_width") {
        return None;
    }
    let mut middle: Vec<char> = Vec::new();
    let mut k: usize = 4;
    while k < n - 6
        invariant
            4 <= k <= n - 6,
            n >= 10,
            n == v@.len(),
            middle@ == v@.subrange(4, k as int),
        decreases n - 6 - k,
    {
        middle.push(v[k]);
        k = k + 1;
        assert(middle@ =~= v@.subrange(4, k as int));
    }
    assert(middle@.subrange(0, middle@.len() as int) =~= middle@);
    parse_usize(&middle, 0)
}

/// The dropdown choices of a property kind: colours, arrow heads and arrow
/// bodies have one; other kinds none.
pub fn dropdown_options_for(kind: &PropertyKind) -> (r: Option<Vec<&'static str>>)
    ensures
        r is Some <==> (*kind == PropertyKind::Color || *kind == PropertyKind::HeadChar || *kind == PropertyKind::BodyChar),
        r matches Some(v) ==> v@ == if *kind == PropertyKind::Color {
            seq!["RGB", "none", "black", "red", "green", "yellow", "blue", "magenta", "cyan", "white"]
        } else if *kind == PropertyKind::HeadChar {
            seq![">", "▶", "→", "◆", "●", "★", "custom"]
        } else {
            seq!["─", "═", "·", "~", "=", "custom"]
        },
{
    match kind {
        PropertyKind::Color => Some(vec!["RGB", "none", "black", "red", "green", "yellow", "blue", "magenta", "cyan", "white"]),
        PropertyKind::HeadChar => Some(vec![">", "▶", "→", "◆", "●", "★", "custom"]),
        PropertyKind::BodyChar => Some(vec!["─", "═", "·", "~", "=", "custom"]),
        _ => None,
    }
}

/// The dropdown choice that switches to typing a value: `RGB` for colours,
/// `custom` otherwise.
pub fn dropdown_custom_sentinel(kind: &PropertyKind) -> (r: &'static str)
    ensures
        r@ == if *kind == PropertyKind::Color { "RGB"@ } else { "custom"@ },
{
    match kind {
        PropertyKind::Color => "RGB",
        _ => "custom",
    }
}

} // verus!
