//! Lowercase hex encoding of address hashes and parsing of hex byte pairs.

use vstd::prelude::*;

use crate::text::string_of;
use vstd::utf8::is_continuation_byte;

verus! {

/// The lowercase hex digit of `d < 16`.
pub open spec fn hex_digit(d: u8) -> char {
    if d < 10 {
        ((d + 48) as u8) as char
    } else {
        ((d + 87) as u8) as char
    }
}

/// Lowercase hex encoding of `bytes`, two digits per byte.
pub open spec fn hex_of(bytes: Seq<u8>) -> Seq<char>
    decreases bytes.len(),
{
    if bytes.len() == 0 {
        Seq::empty()
    } else {
        hex_of(bytes.drop_last()) + seq![hex_digit(bytes.last() / 16), hex_digit(bytes.last() % 16)]
    }
}

/// Hex encoding gives two digits per byte.
pub proof fn lemma_hex_of_len(bytes: Seq<u8>)
    ensures
        hex_of(bytes).len() == 2 * bytes.len(),
    decreases bytes.len(),
{
    if bytes.len() > 0 {
        lemma_hex_of_len(bytes.drop_last());
    }
}

/// A hex digit is a visible ASCII character that reads back as its value.
pub proof fn lemma_hex_digit(d: u8)
    requires
        d < 16,
    ensures
        hex_value(hex_digit(d)) == Some(d),
        0x30 <= (hex_digit(d) as u32) < 0x67,
        hex_digit(d) != '/' && hex_digit(d) != '+',
        ((hex_digit(d) as u32) as u8) as char == hex_digit(d),
{
}

/// Byte `j` of `bytes` is spelled by digits `2j` and `2j + 1` of its hex.
pub proof fn lemma_hex_of_index(bytes: Seq<u8>, j: int)
    requires
        0 <= j < bytes.len(),
    ensures
        hex_of(bytes)[2 * j] == hex_digit(bytes[j] / 16),
        hex_of(bytes)[2 * j + 1] == hex_digit(bytes[j] % 16),
    decreases bytes.len(),
{
    lemma_hex_of_len(bytes);
    lemma_hex_of_len(bytes.drop_last());
    if j < bytes.len() - 1 {
        lemma_hex_of_index(bytes.drop_last(), j);
    }
}

/// Different bytes have different hex: the encoding determines the bytes.
pub proof fn lemma_hex_of_injective(a: Seq<u8>, b: Seq<u8>)
    requires
        hex_of(a) == hex_of(b),
    ensures
        a == b,
    decreases a.len(),
{
    lemma_hex_of_len(a);
    lemma_hex_of_len(b);
    if a.len() > 0 {
        let ha = hex_of(a);
        let n = ha.len();
        let x = a.last();
        let y = b.last();
        assert(ha[n - 2] == hex_digit(x / 16) && ha[n - 1] == hex_digit(x % 16));
        assert(hex_of(b)[n - 2] == hex_digit(y / 16) && hex_of(b)[n - 1] == hex_digit(y % 16));
        assert(x / 16 == y / 16 && x % 16 == y % 16) by {
            assert(hex_digit(x / 16) == hex_digit(y / 16));
            assert(hex_digit(x % 16) == hex_digit(y % 16));
        }
        assert(x == y);
        lemma_hex_of_len(a.drop_last());
        lemma_hex_of_len(b.drop_last());
        assert(hex_of(a.drop_last()) =~= ha.subrange(0, n - 2));
        assert(hex_of(b.drop_last()) =~= hex_of(b).subrange(0, n - 2));
        lemma_hex_of_injective(a.drop_last(), b.drop_last());
        assert(a =~= a.drop_last().push(x));
        assert(b =~= b.drop_last().push(y));
    } else {
        assert(a =~= b);
    }
}

/// The value of a hex digit (either case), if `c` is one.
pub open spec fn hex_value(c: char) -> Option<u8> {
    if '0' <= c <= '9' {
        Some(((c as u32) - 48) as u8)
    } else if 'a' <= c <= 'f' {
        Some(((c as u32) - 87) as u8)
    } else if 'A' <= c <= 'F' {
        Some(((c as u32) - 55) as u8)
    } else {
        None
    }
}

/// `u8::from_str_radix(s, 16)` for a two-character `s`: two hex digits, or
/// `+` followed by one hex digit.
pub open spec fn hex_pair(a: char, b: char) -> Option<u8> {
    if a == '+' {
        hex_value(b)
    } else {
        match (hex_value(a), hex_value(b)) {
            (Some(x), Some(y)) => Some((x * 16 + y) as u8),
            _ => None,
        }
    }
}

/// The hex digit character of `d < 16`.
pub fn hex_digit_char(d: u8) -> (c: char)
    requires
        d < 16,
    ensures
        c == hex_digit(d),
{
    if d < 10 {
        (d + 48) as char
    } else {
        (d + 87) as char
    }
}

/// The value of a hex digit (either case), if `c` is one.
pub fn hex_value_of(c: char) -> (r: Option<u8>)
    ensures
        r == hex_value(c),
{
    if '0' <= c && c <= '9' {
        Some(((c as u32) - 48) as u8)
    } else if 'a' <= c && c <= 'f' {
        Some(((c as u32) - 87) as u8)
    } else if 'A' <= c && c <= 'F' {
        Some(((c as u32) - 55) as u8)
    } else {
        None
    }
}

/// Parse a two-character hex byte as `u8::from_str_radix(.., 16)` does.
pub fn parse_hex_pair(a: char, b: char) -> (r: Option<u8>)
    ensures
        r == hex_pair(a, b),
{
    if a == '+' {
        return hex_value_of(b);
    }
    match (hex_value_of(a), hex_value_of(b)) {
        (Some(x), Some(y)) => Some(x * 16 + y),
        _ => None,
    }
}

/// Lowercase hex digits of `bytes`.
pub fn hex_chars(bytes: &[u8]) -> (r: Vec<char>)
    ensures
        r@ == hex_of(bytes@),
{
    let mut r: Vec<char> = Vec::new();
    let mut i: usize = 0;
    while i < bytes.len()
        invariant
            i <= bytes.len(),
            r@ == hex_of(bytes@.subrange(0, i as int)),
        decreases bytes.len() - i,
    {
        let b = bytes[i];
        r.push(hex_digit_char(b / 16));
        r.push(hex_digit_char(b % 16));
        proof {
            assert(bytes@.subrange(0, i + 1).drop_last() =~= bytes@.subrange(0, i as int));
        }
        i += 1;
    }
    assert(bytes@.subrange(0, bytes.len() as int) =~= bytes@);
    r
}

/// Lowercase hex encoding of `bytes`.
pub fn hex_string(bytes: &[u8]) -> (s: String)
    ensures
        s@ == hex_of(bytes@),
{
    let v = hex_chars(bytes);
    string_of(&v)
}


/// The byte that bytes `2i` and `2i + 1` of `h` spell, as
/// `u8::from_str_radix(.., 16)` reads a two-byte string.
pub open spec fn byte_pair(h: Seq<u8>, i: int) -> Option<u8> {
    hex_pair(h[2 * i] as char, h[2 * i + 1] as char)
}

/// The 16 bytes spelled by the 32 hex bytes `h`, or `None` when `h` is not
/// 32 bytes long or holds a pair that is not a hex byte.
pub open spec fn hex16_of(h: Seq<u8>) -> Option<Seq<u8>> {
    if h.len() == 32 && forall|i: int| 0 <= i < 16 ==> (#[trigger] byte_pair(h, i)) is Some {
        Some(Seq::new(16, |i: int| byte_pair(h, i)->Some_0))
    } else {
        None
    }
}

/// Pair `i` of `h` begins and ends on a character boundary of the UTF-8
/// text `h` was taken from (which continues with a character boundary).
pub open spec fn pair_on_boundaries(h: Seq<u8>, i: int) -> bool {
    &&& !is_continuation_byte(h[2 * i])
    &&& (2 * i + 2 == h.len() || !is_continuation_byte(h[2 * i + 2]))
}

/// Cutting the 32-byte text `h` into two-byte pieces, as far as the pieces
/// before read as hex, never cuts a character apart: `&h[2i..2i + 2]` does
/// not panic for any pair that is reached.
pub open spec fn hex16_sliceable(h: Seq<u8>) -> bool {
    h.len() == 32 ==> forall|i: int|
        0 <= i < 16 && (forall|j: int| 0 <= j < i ==> (#[trigger] byte_pair(h, j)) is Some)
            ==> #[trigger] pair_on_boundaries(h, i)
}

/// Reads 32 hex bytes as 16 bytes (see [`hex16_of`]).
pub fn parse_hex16(h: &[u8]) -> (r: Option<[u8; 16]>)
    ensures
        match hex16_of(h@) {
            Some(b) => r is Some && r->Some_0@ == b,
            None => r is None,
        },
{
    if h.len() != 32 {
        return None;
    }
    let mut out = [0u8;16];
    let mut i: usize = 0;
    while i < 16
        invariant
            i <= 16,
            h@.len() == 32,
            forall|k: int| 0 <= k < i ==> byte_pair(h@, k) == Some(#[trigger] out@[k]),
        decreases 16 - i,
    {
        match parse_hex_pair(h[2 * i] as char, h[2 * i + 1] as char) {
            Some(b) => {
                out[i] = b;
            },
            None => {
                assert(byte_pair(h@, i as int) is None);
                return None;
            },
        }
        i += 1;
    }
    assert forall|k: int| 0 <= k < 16 implies (#[trigger] byte_pair(h@, k)) is Some by {
        assert(byte_pair(h@, k) == Some(out@[k]));
    }
    assert(out@ =~= Seq::new(16, |k: int| byte_pair(h@, k)->Some_0));
    Some(out)
}

/// Whether [`hex16_sliceable`] holds of `h`.
pub fn check_hex16_sliceable(h: &[u8]) -> (r: bool)
    ensures
        r == hex16_sliceable(h@),
{
    if h.len() != 32 {
        return true;
    }
    let mut i: usize = 0;
    while i < 16
        invariant
            i <= 16,
            h@.len() == 32,
            forall|j: int| 0 <= j < i ==> (#[trigger] byte_pair(h@, j)) is Some,
            forall|k: int| 0 <= k < i ==> #[trigger] pair_on_boundaries(h@, k),
        decreases 16 - i,
    {
        let a = h[2 * i];
        let ok_start = a < 0x80 || a >= 0xc0;
        let ok_end = 2 * i + 2 == 32 || h[2 * i + 2] < 0x80 || h[2 * i + 2] >= 0xc0;
        if !(ok_start && ok_end) {
            assert(!pair_on_boundaries(h@, i as int));
            return false;
        }
        assert(pair_on_boundaries(h@, i as int));
        if parse_hex_pair(h[2 * i] as char, h[2 * i + 1] as char).is_none() {
            assert forall|k: int|
                0 <= k < 16 && (forall|j: int| 0 <= j < k ==> (#[trigger] byte_pair(h@, j)) is Some)
                implies #[trigger] pair_on_boundaries(h@, k) by {
                if k > i {
                    assert(byte_pair(h@, i as int) is None);
                }
            }
            return true;
        }
        i += 1;
    }
    true
}

/// Lowercase hex of a 16-byte address.
pub fn hex16(h: &[u8; 16]) -> (s: String)
    ensures
        s@ == hex_of(h@),
{
    hex_string(h)
}

pub proof fn lemma_hex_len(bytes: Seq<u8>)
    ensures
        hex_of(bytes).len() == 2 * bytes.len(),
    decreases bytes.len(),
{
    if bytes.len() > 0 {
        lemma_hex_len(bytes.drop_last());
    }
}

pub proof fn lemma_hex_prefix(bytes: Seq<u8>, n: int)
    requires
        0 <= n <= bytes.len(),
    ensures
        hex_of(bytes.subrange(0, n)) == hex_of(bytes).subrange(0, 2 * n),
    decreases bytes.len(),
{
    lemma_hex_len(bytes);
    lemma_hex_len(bytes.subrange(0, n));
    if n < bytes.len() {
        lemma_hex_prefix(bytes.drop_last(), n);
        assert(bytes.drop_last().subrange(0, n) =~= bytes.subrange(0, n));
        lemma_hex_len(bytes.drop_last());
        assert(hex_of(bytes).subrange(0, 2 * n) =~= hex_of(bytes.drop_last()).subrange(0, 2 * n));
    } else {
        assert(bytes.subrange(0, n) =~= bytes);
        assert(hex_of(bytes).subrange(0, 2 * n) =~= hex_of(bytes));
    }
}

} // verus!
