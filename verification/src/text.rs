//! Text helpers: case folding, case-insensitive comparison, UTF-8 decoding
//! and decimal numbers.

use vstd::prelude::*;
use vstd::string::is_ascii_spec_bytes;
use vstd::string::StringExecFns;
use vstd::string::StringSliceAdditionalSpecFns;
use vstd::utf8::decode_utf8;
use vstd::utf8::encode_utf8;
use vstd::utf8::encode_utf8_decode_utf8;
use vstd::utf8::is_ascii_chars;
use vstd::utf8::valid_utf8;

verus! {

/// The lowercase form of `c`: `'A'..='Z'` map to `'a'..='z'`, every other
/// character is unchanged.
pub open spec fn lower(c: char) -> char {
    if 'A' <= c <= 'Z' {
        ((c as u8) + 32) as char
    } else {
        c
    }
}

/// `s` with every character replaced by its lowercase form.
pub open spec fn ascii_lower(s: Seq<char>) -> Seq<char> {
    Seq::new(s.len(), |i: int| lower(s[i]))
}

/// The two texts are equal once ASCII letter case is ignored.
pub open spec fn same_ignoring_case(a: Seq<char>, b: Seq<char>) -> bool {
    ascii_lower(a) == ascii_lower(b)
}

/// Folding keeps ASCII text ASCII and never turns other text into ASCII.
pub proof fn lemma_ascii_lower_keeps_ascii(s: Seq<char>)
    ensures
        is_ascii_chars(ascii_lower(s)) == is_ascii_chars(s),
{
    let t = ascii_lower(s);
    if is_ascii_chars(s) {
        assert forall|i: int| 0 <= i < t.len() implies '\0' <= #[trigger] t[i] <= '\u{7f}' by {}
    } else {
        let i = choose|i: int| 0 <= i < s.len() && !('\0' <= #[trigger] s[i] <= '\u{7f}');
        assert(t[i] == s[i]);
    }
}

fn lower_byte(b: u8) -> (r: u8)
    ensures
        b < 128 ==> r as char == lower(b as char),
        b < 128 ==> r < 128,
{
    if b >= 0x41 && b <= 0x5a {
        b + 32
    } else {
        b
    }
}

/// Compares two texts ignoring ASCII letter case.
pub fn eq_ignore_case(a: &str, b: &str) -> (r: bool)
    ensures
        r == same_ignoring_case(a@, b@),
{
    proof {
        lemma_ascii_lower_keeps_ascii(a@);
        lemma_ascii_lower_keeps_ascii(b@);
    }
    if a.is_ascii() != b.is_ascii() {
        return false;
    }
    if !a.is_ascii() {
        // Neither text is ASCII: compare character by character.
        let n = a.unicode_len();
        if b.unicode_len() != n {
            return false;
        }
        let mut i: usize = 0;
        while i < n
            invariant
                i <= n,
                n == a@.len(),
                n == b@.len(),
                forall|j: int| 0 <= j < i ==> lower(a@[j]) == lower(b@[j]),
            decreases n - i,
        {
            let x = fold_char(a.get_char(i));
            let y = fold_char(b.get_char(i));
            if x != y {
                assert(ascii_lower(a@)[i as int] != ascii_lower(b@)[i as int]);
                return false;
            }
            i += 1;
        }
        assert(ascii_lower(a@) =~= ascii_lower(b@));
        return true;
    }
    let x = a.as_bytes();
    let y = b.as_bytes();
    proof {
        is_ascii_spec_bytes(a);
        is_ascii_spec_bytes(b);
    }
    if x.len() != y.len() {
        return false;
    }
    let n = x.len();
    let mut i: usize = 0;
    while i < n
        invariant
            i <= n,
            n == a@.len(),
            n == b@.len(),
            is_ascii_chars(a@),
            is_ascii_chars(b@),
            x@ == Seq::new(a@.len(), |k: int| a@[k] as u8),
            y@ == Seq::new(b@.len(), |k: int| b@[k] as u8),
            forall|j: int| 0 <= j < i ==> lower(a@[j]) == lower(b@[j]),
        decreases n - i,
    {
        if lower_byte(x[i]) != lower_byte(y[i]) {
            assert(ascii_lower(a@)[i as int] != ascii_lower(b@)[i as int]);
            return false;
        }
        i += 1;
    }
    assert(ascii_lower(a@) =~= ascii_lower(b@));
    true
}

fn fold_char(c: char) -> (r: char)
    ensures
        r == lower(c),
{
    if 'A' <= c && c <= 'Z' {
        ((c as u8) + 32) as char
    } else {
        c
    }
}

/// The lowercase form of a text, as `str::to_lowercase` gives it: each
/// character is replaced by its lowercase mapping in Unicode, which can be
/// more than one character.
pub uninterp spec fn lowercase(s: Seq<char>) -> Seq<char>;

/// Lowercases `s` with `str::to_lowercase`. The result depends on the text
/// alone. On ASCII text it is the text with `'A'..='Z'` mapped to
/// `'a'..='z'` and every other character unchanged.
#[verifier::external_body]
pub(crate) fn to_lower(s: &str) -> (r: String)
    ensures
        r@ == lowercase(s@),
        is_ascii_chars(s@) ==> r@ == ascii_lower(s@),
{
    s.to_lowercase()
}

/// Checks `bytes` with `std::str::from_utf8`: the result is a string slice
/// over exactly these bytes when they are valid UTF-8, and nothing otherwise.
#[verifier::external_body]
pub(crate) fn checked_utf8(bytes: &[u8]) -> (r: Option<&str>)
    ensures
        r is Some <==> valid_utf8(bytes@),
        r matches Some(s) ==> s.spec_bytes() == bytes@,
{
    match std::str::from_utf8(bytes) {
        Ok(s) => Some(s),
        Err(_) => None,
    }
}

/// Reads `bytes` as UTF-8 text, if they are valid UTF-8.
pub fn as_text(bytes: &[u8]) -> (r: Option<&str>)
    ensures
        r is Some <==> valid_utf8(bytes@),
        r matches Some(s) ==> s@ == decode_utf8(bytes@) && encode_utf8(s@) == bytes@,
{
    let r = checked_utf8(bytes);
    proof {
        if let Some(s) = r {
            encode_utf8_decode_utf8(s@);
        }
    }
    r
}

/// Decodes `bytes` as UTF-8 text, if they are valid UTF-8.
pub fn decode(bytes: &[u8]) -> (r: Option<String>)
    ensures
        r is Some <==> valid_utf8(bytes@),
        r matches Some(s) ==> s@ == decode_utf8(bytes@) && encode_utf8(s@) == bytes@,
{
    match as_text(bytes) {
        Some(s) => Some(String::from_str(s)),
        None => None,
    }
}

/// The character of the decimal digit `d`.
pub open spec fn digit(d: nat) -> char
    recommends
        d < 10,
{
    (0x30 + d) as char
}

/// The decimal representation of `n`, without leading zeros.
pub open spec fn decimal(n: nat) -> Seq<char>
    decreases n,
{
    if n < 10 {
        seq![digit(n)]
    } else {
        decimal(n / 10).push(digit(n % 10))
    }
}

fn digit_str(d: usize) -> (r: &'static str)
    requires
        d < 10,
    ensures
        r@ == seq![digit(d as nat)],
{
    proof {
        reveal_strlit("0");
        reveal_strlit("1");
        reveal_strlit("2");
        reveal_strlit("3");
        reveal_strlit("4");
        reveal_strlit("5");
        reveal_strlit("6");
        reveal_strlit("7");
        reveal_strlit("8");
        reveal_strlit("9");
    }
    if d == 0 {
        "0"
    } else if d == 1 {
        "1"
    } else if d == 2 {
        "2"
    } else if d == 3 {
        "3"
    } else if d == 4 {
        "4"
    } else if d == 5 {
        "5"
    } else if d == 6 {
        "6"
    } else if d == 7 {
        "7"
    } else if d == 8 {
        "8"
    } else {
        "9"
    }
}

/// Writes `n` in decimal.
pub fn decimal_string(n: usize) -> (r: String)
    ensures
        r@ == decimal(n as nat),
    decreases n,
{
    if n < 10 {
        String::from_str(digit_str(n))
    } else {
        let mut s = decimal_string(n / 10);
        s.append(digit_str(n % 10));
        s
    }
}

/// Whether `c` is one of `'0'..='9'`.
pub open spec fn is_digit(c: char) -> bool {
    '0' <= c <= '9'
}

/// The number that a sequence of decimal digits denotes.
pub open spec fn digits_value(s: Seq<char>) -> nat
    decreases s.len(),
{
    if s.len() == 0 {
        0
    } else {
        digits_value(s.drop_last()) * 10 + (s.last() as nat - 0x30) as nat
    }
}

/// The digits of a length: the text itself, or what follows one leading `+`.
pub open spec fn length_digits(s: Seq<char>) -> Seq<char> {
    if s.len() > 0 && s[0] == '+' {
        s.drop_first()
    } else {
        s
    }
}

/// Reads a length: an optional `+`, then one or more decimal digits and
/// nothing else, denoting a number that fits in `usize`.
pub open spec fn parse_length(s: Seq<char>) -> Option<usize> {
    let d = length_digits(s);
    if d.len() > 0 && (forall|i: int| 0 <= i < d.len() ==> is_digit(#[trigger] d[i]))
        && digits_value(d) <= usize::MAX {
        Some(digits_value(d) as usize)
    } else {
        None
    }
}

/// The first digits of a number denote no more than the whole number.
proof fn lemma_digits_value_prefix(s: Seq<char>, k: int)
    requires
        0 <= k <= s.len(),
        forall|i: int| 0 <= i < s.len() ==> is_digit(#[trigger] s[i]),
    ensures
        digits_value(s.subrange(0, k)) <= digits_value(s),
    decreases s.len() - k,
{
    if k == s.len() {
        assert(s.subrange(0, k) =~= s);
    } else {
        lemma_digits_value_prefix(s, k + 1);
        let t = s.subrange(0, k + 1);
        assert(t.drop_last() =~= s.subrange(0, k));
    }
}

/// Reads a length from `s`.
pub fn read_length(s: &str) -> (r: Option<usize>)
    ensures
        r == parse_length(s@),
{
    let ghost d = length_digits(s@);
    if !s.is_ascii() {
        proof {
            let i = choose|i: int| 0 <= i < s@.len() && !('\0' <= #[trigger] s@[i] <= '\u{7f}');
            if d.len() > 0 && s@[0] == '+' {
                assert(d[i - 1] == s@[i]);
            }
        }
        return None;
    }
    let b = s.as_bytes();
    proof {
        is_ascii_spec_bytes(s);
    }
    let start: usize = if b.len() > 0 && b[0] == 0x2b {
        1
    } else {
        0
    };
    if start == b.len() {
        return None;
    }
    let mut acc: usize = 0;
    let mut i: usize = start;
    while i < b.len()
        invariant
            start <= i <= b.len(),
            b@.len() == s@.len(),
            b@ == Seq::new(s@.len(), |k: int| s@[k] as u8),
            is_ascii_chars(s@),
            d == s@.subrange(start as int, s@.len() as int),
            d == length_digits(s@),
            forall|j: int| 0 <= j < i - start ==> is_digit(#[trigger] d[j]),
            acc == digits_value(d.subrange(0, i - start)),
        decreases b.len() - i,
    {
        let c = b[i];
        if c < 0x30 || c > 0x39 {
            assert(!is_digit(d[i - start]));
            return None;
        }
        let v: usize = (c - 0x30) as usize;
        let ghost next = d.subrange(0, i - start + 1);
        assert(next.drop_last() =~= d.subrange(0, i - start));
        if acc > (usize::MAX - v) / 10 {
            proof {
                // The digits read so far already exceed the range; what
                // follows can only make the number larger.
                if forall|j: int| 0 <= j < d.len() ==> is_digit(#[trigger] d[j]) {
                    lemma_digits_value_prefix(d, i - start + 1);
                }
            }
            return None;
        }
        acc = acc * 10 + v;
        i += 1;
    }
    assert(d.subrange(0, i - start) =~= d);
    Some(acc)
}

} // verus!
