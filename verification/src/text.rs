//! Text helpers: hexadecimal and joined strings.

use vstd::prelude::*;
use vstd::string::*;
use vstd::utf8::*;

verus! {

/// The lowercase hexadecimal digit of `n`, for `n` below sixteen.
pub open spec fn hex_digit(n: int) -> char {
    if n < 10 {
        (('0' as u32) + n) as char
    } else {
        (('a' as u32) + (n - 10)) as char
    }
}

/// Lowercase hexadecimal of a byte string, two digits per byte.
pub open spec fn hex(b: Seq<u8>) -> Seq<char> {
    Seq::new(
        2 * b.len(),
        |i: int|
            if i % 2 == 0 {
                hex_digit(b[i / 2] as int / 16)
            } else {
                hex_digit(b[i / 2] as int % 16)
            },
    )
}

/// The value of a hexadecimal digit of either case.
pub open spec fn hex_value(c: char) -> Option<int> {
    if '0' <= c <= '9' {
        Some((c as u32) - ('0' as u32))
    } else if 'a' <= c <= 'f' {
        Some((c as u32) - ('a' as u32) + 10)
    } else if 'A' <= c <= 'F' {
        Some((c as u32) - ('A' as u32) + 10)
    } else {
        None
    }
}

/// Whether every character is a hexadecimal digit.
pub open spec fn all_hex(s: Seq<char>) -> bool {
    forall|i: int| 0 <= i < s.len() ==> (#[trigger] hex_value(s[i])) is Some
}

/// Whether a character is a digit or one of the letters `a` to `f`.
pub open spec fn lower_hex_digit(c: char) -> bool {
    '0' <= c <= '9' || 'a' <= c <= 'f'
}

/// Whether every character is a lowercase hexadecimal digit.
pub open spec fn all_lower_hex(s: Seq<char>) -> bool {
    forall|i: int| 0 <= i < s.len() ==> lower_hex_digit(#[trigger] s[i])
}

/// The bytes spelled by `s`, two hexadecimal digits each.
pub open spec fn unhex(s: Seq<char>) -> Seq<u8> {
    Seq::new(
        (s.len() / 2) as nat,
        |i: int| (hex_value(s[2 * i])->0 * 16 + hex_value(s[2 * i + 1])->0) as u8,
    )
}

/// The single-digit string for a nibble.
fn nibble_str(n: u8) -> (r: &'static str)
    requires
        n < 16,
    ensures
        r@ == seq![hex_digit(n as int)],
{
    proof {
        reveal_strlit("0");
        reveal_strlit("1");
        reveal_strlit("2");
        reveal_strlit("3");
        reveal_strlit("4");
        reveal_strlit("5");
        reveal_strlit("6");
        reveal_strlit("7");
        reveal_strlit("8");
        reveal_strlit("9");
        reveal_strlit("a");
        reveal_strlit("b");
        reveal_strlit("c");
        reveal_strlit("d");
        reveal_strlit("e");
        reveal_strlit("f");
    }
    let r = if n == 0 {
        "0"
    } else if n == 1 {
        "1"
    } else if n == 2 {
        "2"
    } else if n == 3 {
        "3"
    } else if n == 4 {
        "4"
    } else if n == 5 {
        "5"
    } else if n == 6 {
        "6"
    } else if n == 7 {
        "7"
    } else if n == 8 {
        "8"
    } else if n == 9 {
        "9"
    } else if n == 10 {
        "a"
    } else if n == 11 {
        "b"
    } else if n == 12 {
        "c"
    } else if n == 13 {
        "d"
    } else if n == 14 {
        "e"
    } else {
        "f"
    };
    assert(r@ =~= seq![hex_digit(n as int)]);
    r
}

/// Lowercase hexadecimal of `bytes`.
pub fn bytes_to_hex(bytes: &[u8]) -> (r: String)
    ensures
        r@ == hex(bytes@),
{
    let mut out = String::new();
    let mut i: usize = 0;
    while i < bytes.len()
        invariant
            i <= bytes@.len(),
            out@ == hex(bytes@.subrange(0, i as int)),
        decreases bytes@.len() - i,
    {
        let b = bytes[i];
        out.append(nibble_str(b / 16));
        out.append(nibble_str(b % 16));
        i += 1;
        assert(out@ =~= hex(bytes@.subrange(0, i as int)));
    }
    assert(bytes@.subrange(0, bytes@.len() as int) =~= bytes@);
    out
}

/// The value of an ASCII hexadecimal digit.
fn nibble(c: u8) -> (r: Option<u8>)
    requires
        c < 128,
    ensures
        match r {
            Some(v) => v < 16 && hex_value(c as char) == Some(v as int),
            None => hex_value(c as char) is None,
        },
{
    if 48 <= c && c <= 57 {
        Some(c - 48)
    } else if 97 <= c && c <= 102 {
        Some(c - 97 + 10)
    } else if 65 <= c && c <= 70 {
        Some(c - 65 + 10)
    } else {
        None
    }
}

/// Decode a string of exactly `2 * N` hexadecimal digits into `N` bytes.
pub fn parse_hex<const N: usize>(h: &str) -> (r: Option<[u8; N]>)
    requires
        2 * N <= usize::MAX,
    ensures
        r is Some <==> h@.len() == 2 * N && all_hex(h@),
        r matches Some(a) ==> a@ == unhex(h@),
{
    broadcast use is_ascii_spec_bytes;

    if !h.is_ascii() {
        proof {
            if all_hex(h@) {
                assert forall|i: int| 0 <= i < h@.len() implies '\0' <= #[trigger] h@[i] <= '\u{7f}' by {
                    assert(hex_value(h@[i]) is Some);
                }
                assert(is_ascii_chars(h@));
            }
        }
        return None;
    }
    let s = h.as_bytes();
    assert(s@.len() == h@.len());
    assert(forall|i: int| 0 <= i < s@.len() ==> s@[i] == h@[i] as u8);
    if s.len() != 2 * N {
        return None;
    }
    let mut out: [u8; N] = [0u8; N];
    let mut i: usize = 0;
    while i < N
        invariant
            i <= N,
            2 * N <= usize::MAX,
            s@.len() == 2 * N,
            h@.len() == 2 * N,
            is_ascii(h),
            out@.len() == N,
            forall|j: int| 0 <= j < s@.len() ==> s@[j] == h@[j] as u8,
            forall|j: int| 0 <= j < 2 * i ==> (#[trigger] hex_value(h@[j])) is Some,
            forall|j: int|
                0 <= j < i ==> out@[j] == (hex_value(h@[2 * j])->0 * 16 + hex_value(
                    h@[2 * j + 1],
                )->0) as u8,
        decreases N - i,
    {
        let a = s[2 * i];
        let b = s[2 * i + 1];
        assert(h@[2 * i as int] as nat <= 127 && h@[2 * i + 1] as nat <= 127);
        assert(a as char == h@[2 * i as int] && b as char == h@[2 * i + 1]);
        match (nibble(a), nibble(b)) {
            (Some(x), Some(y)) => {
                out[i] = x * 16 + y;
            },
            _ => {
                return None;
            },
        }
        i += 1;
    }
    assert(out@ =~= unhex(h@));
    Some(out)
}

/// `std::str::from_utf8`: the text that valid UTF-8 bytes encode.
#[verifier::external_body]
pub(crate) fn utf8_text(bytes: &[u8]) -> (r: Option<String>)
    ensures
        r is Some <==> valid_utf8(bytes@),
        r matches Some(s) ==> s@ == decode_utf8(bytes@),
{
    std::str::from_utf8(bytes).ok().map(|s| s.to_owned())
}

/// `a` followed by `b`.
pub fn join2(a: &str, b: &str) -> (r: String)
    ensures
        r@ == a@ + b@,
{
    let mut out = String::from_str(a);
    out.append(b);
    out
}

/// `a`, `b` and `c` in a row.
pub fn join3(a: &str, b: &str, c: &str) -> (r: String)
    ensures
        r@ == a@ + b@ + c@,
{
    let mut out = String::from_str(a);
    out.append(b);
    out.append(c);
    out
}

/// Compare two strings.
pub fn same_text(a: &str, b: &str) -> (r: bool)
    ensures
        r == (a@ == b@),
{
    String::from_str(a) == String::from_str(b)
}

/// The length of `s` in bytes.
pub fn byte_len(s: &str) -> (r: usize)
    ensures
        r == encode_utf8(s@).len(),
{
    s.as_bytes().len()
}

/// A fresh string equal to `s`.
pub fn text(s: &str) -> (r: String)
    ensures
        r@ == s@,
{
    String::from_str(s)
}

/// Whether `s` begins with `p`.
pub open spec fn begins_with(s: Seq<char>, p: Seq<char>) -> bool {
    p.len() <= s.len() && s.subrange(0, p.len() as int) == p
}

/// What follows `p` in `s`, when `s` begins with it.
pub fn after_prefix<'a>(s: &'a str, p: &str) -> (r: Option<&'a str>)
    ensures
        match r {
            Some(t) => begins_with(s@, p@) && t@ == s@.subrange(p@.len() as int, s@.len() as int),
            None => !begins_with(s@, p@),
        },
{
    let n: usize = p.unicode_len();
    let m: usize = s.unicode_len();
    if m < n || !same_text(s.substring_char(0, n), p) {
        return None;
    }
    Some(s.substring_char(n, m))
}

/// Whether `p` occurs in `s`.
pub open spec fn occurs_in(p: Seq<char>, s: Seq<char>) -> bool {
    exists|i: int| 0 <= i <= s.len() - p.len() && #[trigger] s.subrange(i, i + p.len()) == p
}

/// Whether `p` occurs in `s`.
pub fn contains_text(s: &str, p: &str) -> (r: bool)
    ensures
        r == occurs_in(p@, s@),
{
    let n: usize = p.unicode_len();
    let m: usize = s.unicode_len();
    if m < n {
        return false;
    }
    let last: usize = m - n;
    let mut i: usize = 0;
    while i <= last
        invariant
            i <= last + 1,
            last == s@.len() - p@.len(),
            n == p@.len(),
            m == s@.len(),
            n <= m,
            forall|j: int| 0 <= j < i ==> #[trigger] s@.subrange(j, j + p@.len()) != p@,
        decreases last + 1 - i,
    {
        if same_text(s.substring_char(i, i + n), p) {
            assert(s@.subrange(i as int, i + p@.len()) == p@);
            return true;
        }
        if i == last {
            return false;
        }
        i += 1;
    }
    false
}

/// The lower-case form of a text.
pub uninterp spec fn lowercase_text(s: Seq<char>) -> Seq<char>;

/// `str::to_lowercase`: the lower-case form of a text.
#[verifier::external_body]
pub(crate) fn to_lowercase(s: &str) -> (r: String)
    ensures
        r@ == lowercase_text(s@),
{
    s.to_lowercase()
}

/// The decimal digits of a number.
pub open spec fn decimal(n: nat) -> Seq<char>
    decreases n,
{
    if n < 10 {
        seq![decimal_digit(n)]
    } else {
        decimal(n / 10).push(decimal_digit(n % 10))
    }
}

/// The decimal digit of a number below ten.
pub open spec fn decimal_digit(n: nat) -> char {
    if n == 0 {
        '0'
    } else if n == 1 {
        '1'
    } else if n == 2 {
        '2'
    } else if n == 3 {
        '3'
    } else if n == 4 {
        '4'
    } else if n == 5 {
        '5'
    } else if n == 6 {
        '6'
    } else if n == 7 {
        '7'
    } else if n == 8 {
        '8'
    } else {
        '9'
    }
}

/// One decimal digit as text.
fn digit_text(n: u16) -> (r: &'static str)
    requires
        n < 10,
    ensures
        r@ == seq![decimal_digit(n as nat)],
{
    proof {
        reveal_strlit("0");
        reveal_strlit("1");
        reveal_strlit("2");
        reveal_strlit("3");
        reveal_strlit("4");
        reveal_strlit("5");
        reveal_strlit("6");
        reveal_strlit("7");
        reveal_strlit("8");
        reveal_strlit("9");
    }
    let r = if n == 0 {
        "0"
    } else if n == 1 {
        "1"
    } else if n == 2 {
        "2"
    } else if n == 3 {
        "3"
    } else if n == 4 {
        "4"
    } else if n == 5 {
        "5"
    } else if n == 6 {
        "6"
    } else if n == 7 {
        "7"
    } else if n == 8 {
        "8"
    } else {
        "9"
    };
    assert(r@ =~= seq![decimal_digit(n as nat)]);
    r
}

/// The decimal digits of a number.
pub fn decimal_text(n: u16) -> (r: String)
    ensures
        r@ == decimal(n as nat),
    decreases n,
{
    if n < 10 {
        text(digit_text(n))
    } else {
        let head = decimal_text(n / 10);
        let r = join2(head.as_str(), digit_text(n % 10));
        assert(r@ =~= decimal(n as nat));
        r
    }
}

/// Decoding the hexadecimal of a byte string gives the byte string back.
pub proof fn hex_round_trip(b: Seq<u8>)
    ensures
        hex(b).len() == 2 * b.len(),
        all_hex(hex(b)),
        unhex(hex(b)) == b,
{
    assert forall|i: int| 0 <= i < hex(b).len() implies (#[trigger] hex_value(hex(b)[i])) is Some by {
        assert(0 <= b[i / 2] as int / 16 < 16);
        assert(0 <= b[i / 2] as int % 16 < 16);
    }
    assert forall|i: int| 0 <= i < b.len() implies unhex(hex(b))[i] == b[i] by {
        assert((2 * i) / 2 == i && (2 * i + 1) / 2 == i);
        assert((2 * i) % 2 == 0 && (2 * i + 1) % 2 == 1);
        assert(hex_value(hex_digit(b[i] as int / 16)) == Some(b[i] as int / 16));
        assert(hex_value(hex_digit(b[i] as int % 16)) == Some(b[i] as int % 16));
    }
    assert(unhex(hex(b)) =~= b);
}

/// The hexadecimal form of a byte string has lowercase digits only.
pub proof fn hex_is_lowercase(b: Seq<u8>)
    ensures
        all_lower_hex(hex(b)),
{
    assert forall|i: int| 0 <= i < hex(b).len() implies lower_hex_digit(#[trigger] hex(b)[i]) by {
        assert(0 <= b[i / 2] as int / 16 < 16);
        assert(0 <= b[i / 2] as int % 16 < 16);
    }
}

/// A text of lowercase hexadecimal digits in pairs is the hexadecimal form of
/// the bytes that it spells.
pub proof fn lowercase_hex_is_canonical(s: Seq<char>)
    requires
        all_lower_hex(s),
        s.len() % 2 == 0,
    ensures
        all_hex(s),
        hex(unhex(s)) == s,
{
    assert forall|i: int| 0 <= i < s.len() implies (#[trigger] hex_value(s[i])) is Some by {
        assert(lower_hex_digit(s[i]));
    }
    assert forall|i: int| 0 <= i < s.len() implies hex(unhex(s))[i] == s[i] by {
        let k = i / 2;
        let high = hex_value(s[2 * k])->0;
        let low = hex_value(s[2 * k + 1])->0;
        assert(lower_hex_digit(s[2 * k]));
        assert(lower_hex_digit(s[2 * k + 1]));
        assert(unhex(s)[k] as int == high * 16 + low);
        assert((high * 16 + low) / 16 == high);
        assert((high * 16 + low) % 16 == low);
        assert(hex_digit(high) == s[2 * k]);
        assert(hex_digit(low) == s[2 * k + 1]);
    }
    assert(hex(unhex(s)) =~= s);
}

} // verus!
