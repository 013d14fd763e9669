//! Hexadecimal text, as bytes of ASCII.

use vstd::prelude::*;

verus! {

/// The value of a hexadecimal digit, in either case.
pub open spec fn hex_digit_value(c: u8) -> Option<int> {
    if 0x30 <= c <= 0x39 {
        Some(c - 0x30)
    } else if 0x61 <= c <= 0x66 {
        Some(c - 0x61 + 10)
    } else if 0x41 <= c <= 0x46 {
        Some(c - 0x41 + 10)
    } else {
        None
    }
}

/// Every byte is a hexadecimal digit.
pub open spec fn is_hex(s: Seq<u8>) -> bool {
    forall|i: int| 0 <= i < s.len() ==> (#[trigger] hex_digit_value(s[i])) is Some
}

/// The number that hexadecimal digits write, most significant digit first.
pub open spec fn hex_value(s: Seq<u8>) -> int
    decreases s.len(),
{
    if s.len() == 0 {
        0
    } else {
        16 * hex_value(s.drop_last()) + hex_digit_value(s.last())->0
    }
}

/// The bytes that an even number of hexadecimal digits write, two digits to
/// a byte.
pub open spec fn hex_bytes(s: Seq<u8>) -> Seq<u8> {
    Seq::new(
        s.len() / 2,
        |i: int| (16 * hex_digit_value(s[2 * i])->0 + hex_digit_value(s[2 * i + 1])->0) as u8,
    )
}

/// What hexadecimal text decodes to: its bytes, if it has an even number of
/// digits and nothing else.
pub open spec fn hex_decoded(s: Seq<u8>) -> Option<Seq<u8>> {
    if s.len() % 2 == 0 && is_hex(s) {
        Some(hex_bytes(s))
    } else {
        None
    }
}

/// Sixteen to the power `n`.
pub open spec fn pow16(n: nat) -> int
    decreases n,
{
    if n == 0 {
        1
    } else {
        16 * pow16((n - 1) as nat)
    }
}

/// Digits written after a number shift it by their count.
pub proof fn lemma_hex_value_concat(a: Seq<u8>, b: Seq<u8>)
    ensures
        hex_value(a + b) == hex_value(a) * pow16(b.len()) + hex_value(b),
    decreases b.len(),
{
    if b.len() == 0 {
        assert(a + b =~= a);
    } else {
        assert((a + b).drop_last() =~= a + b.drop_last());
        assert((a + b).last() == b.last());
        lemma_hex_value_concat(a, b.drop_last());
        let p = pow16(b.drop_last().len());
        let v = hex_value(a);
        assert(16 * (v * p) == v * (16 * p)) by (nonlinear_arith);
    }
}

/// A part of hexadecimal text is hexadecimal text.
pub proof fn lemma_is_hex_subrange(s: Seq<u8>, from: int, to: int)
    requires
        is_hex(s),
        0 <= from <= to <= s.len(),
    ensures
        is_hex(s.subrange(from, to)),
{
    let part = s.subrange(from, to);
    assert forall|i: int| 0 <= i < part.len() implies (#[trigger] hex_digit_value(part[i])) is Some by {
        assert(part[i] == s[from + i]);
    }
}

/// The value of one hexadecimal digit.
pub fn hex_digit(c: u8) -> (r: Option<u8>)
    ensures
        r is Some <==> hex_digit_value(c) is Some,
        r is Some ==> r->0 == hex_digit_value(c)->0 && r->0 < 16,
{
    if 0x30 <= c && c <= 0x39 {
        Some(c - 0x30)
    } else if 0x61 <= c && c <= 0x66 {
        Some(c - 0x61 + 10)
    } else if 0x41 <= c && c <= 0x46 {
        Some(c - 0x41 + 10)
    } else {
        None
    }
}

/// Reads the sixteen hexadecimal digits that start at `start` as one 64-bit
/// number, most significant digit first.
pub(crate) fn parse_hex_u64(s: &[u8], start: usize) -> (r: Option<u64>)
    requires
        start + 16 <= s@.len(),
    ensures
        r is Some <==> is_hex(s@.subrange(start as int, start + 16)),
        r is Some ==> r->0 == hex_value(s@.subrange(start as int, start + 16)),
{
    let ghost digits = s@.subrange(start as int, start + 16);
    let mut acc: u64 = 0;
    let mut i: usize = 0;
    while i < 16
        invariant
            i <= 16,
            start + 16 <= s@.len(),
            digits == s@.subrange(start as int, start + 16),
            is_hex(digits.subrange(0, i as int)),
            acc == hex_value(digits.subrange(0, i as int)),
            acc < pow16(i as nat),
        decreases 16 - i,
    {
        let d = hex_digit(s[start + i]);
        let ghost before = digits.subrange(0, i as int);
        let ghost after = digits.subrange(0, i + 1);
        proof {
            assert(digits[i as int] == s@[start + i]);
            assert(after.drop_last() =~= before);
            assert(after.last() == digits[i as int]);
            lemma_pow16_values();
            lemma_pow16_monotonic(i as nat, 15);
        }
        match d {
            None => {
                proof {
                    assert(!is_hex(digits)) by {
                        if is_hex(digits) {
                            assert(hex_digit_value(digits[i as int]) is Some);
                        }
                    }
                }
                return None;
            },
            Some(v) => {
                proof {
                    assert forall|k: int| 0 <= k < after.len() implies (#[trigger] hex_digit_value(
                        after[k],
                    )) is Some by {
                        if k < i {
                            assert(after[k] == before[k]);
                        }
                    }
                }
                acc = acc * 16 + v as u64;
            },
        }
        i = i + 1;
    }
    proof {
        assert(digits.subrange(0, 16) =~= digits);
    }
    Some(acc)
}

/// Larger exponents give larger powers.
pub proof fn lemma_pow16_monotonic(a: nat, b: nat)
    requires
        a <= b,
    ensures
        0 < pow16(a) <= pow16(b),
    decreases b,
{
    if a < b {
        lemma_pow16_monotonic(a, (b - 1) as nat);
    } else if a > 0 {
        lemma_pow16_monotonic((a - 1) as nat, (b - 1) as nat);
    }
}

/// Sixteen digits fill 64 bits.
pub proof fn lemma_pow16_values()
    ensures
        pow16(15) == 0x1000_0000_0000_0000int,
        pow16(16) == 0x1_0000_0000_0000_0000int,
{
    reveal_with_fuel(pow16, 17);
}

/// Calls `hex::decode`. The contract states its result in full: the bytes
/// that the digits write, two to a byte and in either case, and nothing for
/// text of odd length or with another character in it.
#[verifier::external_body]
pub(crate) fn hex_decode(s: &[u8]) -> (r: Option<Vec<u8>>)
    ensures
        r is Some <==> hex_decoded(s@) is Some,
        r is Some ==> r->0@ == hex_decoded(s@)->0,
{
    hex::decode(s).ok()
}

/// The lower-case digit of a value below sixteen.
pub open spec fn hex_digit_char(d: int) -> u8 {
    if d < 10 {
        (0x30 + d) as u8
    } else {
        (0x61 + d - 10) as u8
    }
}

/// The hexadecimal text of a byte string: two lower-case digits to a byte,
/// the high one first.
pub open spec fn hex_text(b: Seq<u8>) -> Seq<u8> {
    Seq::new(
        2 * b.len(),
        |i: int|
            if i % 2 == 0 {
                hex_digit_char(b[i / 2] as int / 16)
            } else {
                hex_digit_char(b[i / 2] as int % 16)
            },
    )
}

/// Calls `hex::encode`. The contract states its result in full: two
/// lower-case digits for each byte.
#[verifier::external_body]
pub(crate) fn hex_encode(data: &[u8]) -> (r: Vec<u8>)
    ensures
        r@ == hex_text(data@),
{
    hex::encode(data).into_bytes()
}

/// Decoding the hexadecimal text of a byte string gives back the string.
pub proof fn lemma_hex_text_decodes(b: Seq<u8>)
    ensures
        hex_decoded(hex_text(b)) == Some(b),
{
    let t = hex_text(b);
    assert forall|i: int| 0 <= i < t.len() implies (#[trigger] hex_digit_value(t[i])) is Some by {
        let byte = b[i / 2] as int;
        assert(0 <= byte / 16 < 16 && 0 <= byte % 16 < 16);
    }
    assert(t.len() % 2 == 0);
    assert forall|i: int| 0 <= i < b.len() implies hex_bytes(t)[i] == b[i] by {
        let byte = b[i] as int;
        assert((2 * i) % 2 == 0 && (2 * i) / 2 == i);
        assert((2 * i + 1) % 2 == 1 && (2 * i + 1) / 2 == i);
        assert(t[2 * i] == hex_digit_char(byte / 16));
        assert(t[2 * i + 1] == hex_digit_char(byte % 16));
        assert(hex_digit_value(t[2 * i])->0 == byte / 16);
        assert(hex_digit_value(t[2 * i + 1])->0 == byte % 16);
        assert(16 * (byte / 16) + byte % 16 == byte);
    }
    assert(hex_bytes(t).len() == b.len());
    assert(hex_bytes(t) =~= b);
}

} // verus!
