//! The byte-level grammar of a request: lines, surrounding whitespace and
//! separators. Text is taken as UTF-8.

use vstd::prelude::*;
use vstd::slice::slice_subrange;

verus! {

/// The line feed, which ends a line.
pub const LF: u8 = 0x0a;

/// The space, which separates the fields of a request line.
pub const SPACE: u8 = 0x20;

/// The colon, which together with a space separates the name of a header
/// from its value.
pub const COLON: u8 = 0x3a;

/// The slash, which separates the segments of a path.
pub const SLASH: u8 = 0x2f;

/// The question mark, which separates a path from a query.
pub const QUESTION_MARK: u8 = 0x3f;

/// The ampersand, which separates the parts of a query.
pub const AMPERSAND: u8 = 0x26;

/// The equals sign, which separates a key of a query from its value.
pub const EQUALS_SIGN: u8 = 0x3d;

/// ASCII whitespace: space, tab, line feed, vertical tab, form feed and
/// carriage return.
pub open spec fn is_space(b: u8) -> bool {
    b == 0x20 || (0x09 <= b <= 0x0d)
}

/// Two bytes that are the UTF-8 form of a whitespace character: U+0085 or
/// U+00A0.
pub open spec fn is_space_pair(a: u8, b: u8) -> bool {
    a == 0xc2 && (b == 0x85 || b == 0xa0)
}

/// Three bytes that are the UTF-8 form of a whitespace character: U+1680,
/// U+2000 to U+200A, U+2028, U+2029, U+202F, U+205F or U+3000.
pub open spec fn is_space_triple(a: u8, b: u8, c: u8) -> bool {
    ||| a == 0xe1 && b == 0x9a && c == 0x80
    ||| a == 0xe2 && b == 0x80 && (0x80 <= c <= 0x8a || c == 0xa8 || c == 0xa9 || c == 0xaf)
    ||| a == 0xe2 && b == 0x81 && c == 0x9f
    ||| a == 0xe3 && b == 0x80 && c == 0x80
}

/// The number of bytes of the whitespace character that `s` holds at `i`,
/// or 0 where it holds none there. Whitespace is what Unicode calls so, in
/// UTF-8.
pub open spec fn space_len(s: Seq<u8>, i: int) -> int {
    if 0 <= i < s.len() && is_space(s[i]) {
        1
    } else if 0 <= i && i + 2 <= s.len() && is_space_pair(s[i], s[i + 1]) {
        2
    } else if 0 <= i && i + 3 <= s.len() && is_space_triple(s[i], s[i + 1], s[i + 2]) {
        3
    } else {
        0
    }
}

/// The number of bytes of the whitespace character that `s[from..to]` ends
/// with, or 0 where it ends with none.
pub open spec fn space_len_before(s: Seq<u8>, from: int, to: int) -> int {
    if 0 <= from && from + 1 <= to <= s.len() && is_space(s[to - 1]) {
        1
    } else if 0 <= from && from + 2 <= to <= s.len() && is_space_pair(s[to - 2], s[to - 1]) {
        2
    } else if 0 <= from && from + 3 <= to <= s.len() && is_space_triple(
        s[to - 3],
        s[to - 2],
        s[to - 1],
    ) {
        3
    } else {
        0
    }
}

/// The position of the first `b` in `s` at or after `from`, or `s.len()`
/// where there is none.
pub open spec fn index_of(s: Seq<u8>, b: u8, from: int) -> int
    decreases s.len() - from,
{
    if from < 0 || from >= s.len() {
        s.len() as int
    } else if s[from] == b {
        from
    } else {
        index_of(s, b, from + 1)
    }
}

/// The position of the first `": "` in `s` at or after `from`, or `s.len()`
/// where there is none.
pub open spec fn index_of_separator(s: Seq<u8>, from: int) -> int
    decreases s.len() - from,
{
    if from < 0 || from + 1 >= s.len() {
        s.len() as int
    } else if s[from] == COLON && s[from + 1] == SPACE {
        from
    } else {
        index_of_separator(s, from + 1)
    }
}

/// The first position at or after `from` at which no whitespace character
/// begins.
pub open spec fn skip_spaces(s: Seq<u8>, from: int) -> int
    decreases s.len() - from,
{
    if space_len(s, from) > 0 {
        skip_spaces(s, from + space_len(s, from))
    } else {
        from
    }
}

/// The end of `s[from..to]` once the whitespace characters at its end are
/// cut off.
pub open spec fn skip_spaces_back(s: Seq<u8>, from: int, to: int) -> int
    decreases to - from,
{
    if space_len_before(s, from, to) > 0 {
        skip_spaces_back(s, from, to - space_len_before(s, from, to))
    } else {
        to
    }
}

/// `s` without the whitespace at its two ends.
pub open spec fn trim(s: Seq<u8>) -> Seq<u8> {
    let a = skip_spaces(s, 0);
    s.subrange(a, skip_spaces_back(s, a, s.len() as int))
}

/// The end of the line that starts at `from`: the position after its line
/// feed, or the end of `w` where no line feed follows.
pub open spec fn line_end(w: Seq<u8>, from: int) -> int {
    let i = index_of(w, LF, from);
    if i < w.len() {
        i + 1
    } else {
        i
    }
}

/// A line that holds nothing but whitespace ends the header section.
pub open spec fn is_blank(line: Seq<u8>) -> bool {
    trim(line).len() == 0
}

/// What `index_of` finds lies at or after `from`, holds `b` unless it is the
/// end, and is the first such position.
pub proof fn lemma_index_of_bounds(s: Seq<u8>, b: u8, from: int)
    requires
        0 <= from <= s.len(),
    ensures
        from <= index_of(s, b, from) <= s.len(),
        index_of(s, b, from) < s.len() ==> s[index_of(s, b, from)] == b,
        forall|j: int| from <= j < index_of(s, b, from) ==> s[j] != b,
    decreases s.len() - from,
{
    if from < s.len() && s[from] != b {
        lemma_index_of_bounds(s, b, from + 1);
    }
}

/// A line ends inside the input, and after its start unless the input has
/// ended.
pub proof fn lemma_line_end_bounds(w: Seq<u8>, from: int)
    requires
        0 <= from <= w.len(),
    ensures
        from <= line_end(w, from) <= w.len(),
        from < w.len() ==> from < line_end(w, from),
{
    lemma_index_of_bounds(w, LF, from);
}

/// Whether `b` is ASCII whitespace.
pub fn byte_is_space(b: u8) -> (r: bool)
    ensures
        r == is_space(b),
{
    b == 0x20 || (0x09 <= b && b <= 0x0d)
}

/// Finds the first `b` in `s` at or after `from`.
pub fn find_byte(s: &[u8], b: u8, from: usize) -> (i: usize)
    requires
        from <= s.len(),
    ensures
        i == index_of(s@, b, from as int),
        from <= i <= s.len(),
{
    let mut i = from;
    while i < s.len() && s[i] != b
        invariant
            from <= i <= s.len(),
            index_of(s@, b, from as int) == index_of(s@, b, i as int),
        decreases s.len() - i,
    {
        i += 1;
    }
    i
}

/// Finds the first `": "` in `s`.
pub fn find_separator(s: &[u8]) -> (i: usize)
    ensures
        i == index_of_separator(s@, 0),
        i <= s.len(),
        i < s.len() ==> i + 2 <= s.len(),
{
    if s.len() < 2 {
        return s.len();
    }
    let last = s.len() - 1;
    let mut i: usize = 0;
    while i < last && !(s[i] == COLON && s[i + 1] == SPACE)
        invariant
            i <= last,
            last + 1 == s.len(),
            index_of_separator(s@, 0) == index_of_separator(s@, i as int),
        decreases last - i,
    {
        i += 1;
    }
    if i < last {
        i
    } else {
        s.len()
    }
}

/// Finds the whitespace character that `s` holds at `i`.
pub fn space_at(s: &[u8], i: usize) -> (n: usize)
    requires
        i <= s.len(),
    ensures
        n == space_len(s@, i as int),
        i + n <= s.len(),
{
    let left = s.len() - i;
    if left >= 1 && byte_is_space(s[i]) {
        1
    } else if left >= 2 && s[i] == 0xc2 && (s[i + 1] == 0x85 || s[i + 1] == 0xa0) {
        2
    } else if left >= 3 && bytes_are_space(s[i], s[i + 1], s[i + 2]) {
        3
    } else {
        0
    }
}

/// Finds the whitespace character that `s[from..to]` ends with.
pub fn space_before(s: &[u8], from: usize, to: usize) -> (n: usize)
    requires
        from <= to <= s.len(),
    ensures
        n == space_len_before(s@, from as int, to as int),
        from + n <= to,
{
    let left = to - from;
    if left >= 1 && byte_is_space(s[to - 1]) {
        1
    } else if left >= 2 && s[to - 2] == 0xc2 && (s[to - 1] == 0x85 || s[to - 1] == 0xa0) {
        2
    } else if left >= 3 && bytes_are_space(s[to - 3], s[to - 2], s[to - 1]) {
        3
    } else {
        0
    }
}

fn bytes_are_space(a: u8, b: u8, c: u8) -> (r: bool)
    ensures
        r == is_space_triple(a, b, c),
{
    (a == 0xe1 && b == 0x9a && c == 0x80) || (a == 0xe2 && b == 0x80 && ((0x80 <= c && c <= 0x8a)
        || c == 0xa8 || c == 0xa9 || c == 0xaf)) || (a == 0xe2 && b == 0x81 && c == 0x9f) || (a
        == 0xe3 && b == 0x80 && c == 0x80)
}

/// Cuts the whitespace off both ends of `s`.
pub fn trimmed(s: &[u8]) -> (r: &[u8])
    ensures
        r@ == trim(s@),
{
    let mut a: usize = 0;
    let mut n = space_at(s, a);
    while n > 0
        invariant
            a <= s.len(),
            n == space_len(s@, a as int),
            a + n <= s.len(),
            skip_spaces(s@, 0) == skip_spaces(s@, a as int),
        decreases s.len() - a,
    {
        a += n;
        n = space_at(s, a);
    }
    let mut b: usize = s.len();
    let mut m = space_before(s, a, b);
    while m > 0
        invariant
            a <= b <= s.len(),
            m == space_len_before(s@, a as int, b as int),
            a + m <= b,
            skip_spaces_back(s@, a as int, s@.len() as int) == skip_spaces_back(
                s@,
                a as int,
                b as int,
            ),
        decreases b - a,
    {
        b -= m;
        m = space_before(s, a, b);
    }
    slice_subrange(s, a, b)
}

/// Finds the end of the line that starts at `from`.
pub fn next_line(w: &[u8], from: usize) -> (e: usize)
    requires
        from <= w.len(),
    ensures
        e == line_end(w@, from as int),
        from <= e <= w.len(),
        from < w.len() ==> from < e,
{
    let i = find_byte(w, LF, from);
    if i < w.len() {
        i + 1
    } else {
        i
    }
}

/// Whether a line ends the header section.
pub fn is_blank_line(line: &[u8]) -> (r: bool)
    ensures
        r == is_blank(line@),
{
    trimmed(line).len() == 0
}

} // verus!
