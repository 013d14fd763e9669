//! Byte strings read as integers.

use vstd::prelude::*;

verus! {

/// The integer that a little-endian byte string stands for.
pub open spec fn le_value(b: Seq<u8>) -> int
    decreases b.len(),
{
    if b.len() == 0 {
        0
    } else {
        b[0] as int + 256 * le_value(b.drop_first())
    }
}

/// The integer that a big-endian byte string stands for.
pub open spec fn be_value(b: Seq<u8>) -> int
    decreases b.len(),
{
    if b.len() == 0 {
        0
    } else {
        256 * be_value(b.drop_last()) + b.last() as int
    }
}

/// 256 to the power `n`.
pub open spec fn pow256(n: nat) -> int
    decreases n,
{
    if n == 0 {
        1
    } else {
        256 * pow256((n - 1) as nat)
    }
}

/// A string of `n` zero bytes.
pub open spec fn zeros(n: nat) -> Seq<u8> {
    Seq::new(n, |i: int| 0u8)
}

/// A little-endian string of `n` bytes stands for a value below 256 to the `n`.
pub proof fn lemma_le_value_bound(b: Seq<u8>)
    ensures
        0 <= le_value(b) < pow256(b.len()),
    decreases b.len(),
{
    if b.len() > 0 {
        lemma_le_value_bound(b.drop_first());
    }
}

/// Appending at the high end adds the appended value, weighted by the length
/// of what was there.
pub proof fn lemma_le_value_concat(a: Seq<u8>, b: Seq<u8>)
    ensures
        le_value(a + b) == le_value(a) + pow256(a.len()) * le_value(b),
    decreases a.len(),
{
    if a.len() == 0 {
        assert(a + b =~= b);
    } else {
        let rest = a.drop_first();
        assert((a + b).drop_first() =~= rest + b);
        lemma_le_value_concat(rest, b);
        let p = pow256(rest.len());
        let v = le_value(b);
        assert(256 * (p * v) == (256 * p) * v) by (nonlinear_arith);
    }
}

/// Zero bytes stand for zero.
pub proof fn lemma_le_value_zeros(n: nat)
    ensures
        le_value(zeros(n)) == 0,
    decreases n,
{
    if n > 0 {
        assert(zeros(n).drop_first() =~= zeros((n - 1) as nat));
        lemma_le_value_zeros((n - 1) as nat);
    }
}

/// Zero bytes at the high end do not change the value.
pub proof fn lemma_le_value_padded(a: Seq<u8>, n: nat)
    ensures
        le_value(a + zeros(n)) == le_value(a),
{
    lemma_le_value_concat(a, zeros(n));
    lemma_le_value_zeros(n);
}

/// The weight of eight bytes.
pub proof fn lemma_pow256_limbs()
    ensures
        pow256(8) == 0x1_0000_0000_0000_0000int,
{
    reveal_with_fuel(pow256, 9);
}

/// The weights of the two limbs of a 48-byte string.
pub proof fn lemma_pow256_values()
    ensures
        pow256(17) == 0x0100_0000_0000_0000_0000_0000_0000_0000_0000int,
        pow256(31)
            == 0x0100_0000_0000_0000_0000_0000_0000_0000_0000_0000_0000_0000_0000_0000_0000_0000int,
{
    reveal_with_fuel(pow256, 32);
}

/// A string read from its end as little-endian is the string read as
/// big-endian.
pub proof fn lemma_be_value_reversed(b: Seq<u8>)
    ensures
        le_value(b.reverse()) == be_value(b),
    decreases b.len(),
{
    if b.len() > 0 {
        let rev = b.reverse();
        assert(rev[0] == b.last());
        assert(rev.drop_first() =~= b.drop_last().reverse());
        lemma_be_value_reversed(b.drop_last());
    }
}

/// Appending at the low end of a big-endian string shifts what was there by
/// the length of what is appended.
pub proof fn lemma_be_value_concat(a: Seq<u8>, b: Seq<u8>)
    ensures
        be_value(a + b) == be_value(a) * pow256(b.len()) + be_value(b),
    decreases b.len(),
{
    if b.len() == 0 {
        assert(a + b =~= a);
    } else {
        assert((a + b).drop_last() =~= a + b.drop_last());
        assert((a + b).last() == b.last());
        lemma_be_value_concat(a, b.drop_last());
        let p = pow256(b.drop_last().len());
        let v = be_value(a);
        assert(256 * (v * p) == v * (256 * p)) by (nonlinear_arith);
    }
}

/// The eight bytes of a 64-bit number, most significant first.
pub fn u64_to_be(v: u64) -> (r: Vec<u8>)
    ensures
        r@.len() == 8,
        be_value(r@) == v,
{
    let mut out: Vec<u8> = Vec::new();
    let mut rest: u64 = v;
    let mut digits: Vec<u8> = Vec::new();
    let mut i: usize = 0;
    while i < 8
        invariant
            i <= 8,
            digits@.len() == i,
            v == rest * pow256(i as nat) + le_value(digits@),
            le_value(digits@) < pow256(i as nat),
        decreases 8 - i,
    {
        let d = (rest % 256) as u8;
        proof {
            let low = digits@;
            lemma_le_value_bound(low);
            lemma_le_value_concat(low, seq![d]);
            assert(seq![d].drop_first() =~= Seq::<u8>::empty());
            assert(le_value(seq![d]) == d) by {
                reveal_with_fuel(le_value, 2);
            }
            assert(low.push(d) =~= low + seq![d]);
            let p = pow256(i as nat);
            let q = (rest / 256) as int;
            assert(rest == q * 256 + d);
            assert((q * 256 + d) * p == q * (256 * p) + p * d) by (nonlinear_arith);
            assert(p * d + le_value(low) < 256 * p) by (nonlinear_arith)
                requires
                    0 <= d < 256,
                    0 <= le_value(low) < p,
            ;
        }
        digits.push(d);
        rest = rest / 256;
        i = i + 1;
    }
    proof {
        reveal_with_fuel(pow256, 9);
        assert(pow256(8) == 0x1_0000_0000_0000_0000int);
        lemma_le_value_bound(digits@);
        assert(rest == 0) by (nonlinear_arith)
            requires
                v == rest * 0x1_0000_0000_0000_0000int + le_value(digits@),
                0 <= le_value(digits@),
                rest >= 0,
                v < 0x1_0000_0000_0000_0000int,
        ;
    }
    let mut k: usize = 0;
    while k < 8
        invariant
            k <= 8,
            digits@.len() == 8,
            out@ =~= digits@.reverse().subrange(0, k as int),
        decreases 8 - k,
    {
        out.push(digits[7 - k]);
        k = k + 1;
    }
    proof {
        assert(out@ =~= digits@.reverse());
        lemma_be_value_reversed(out@);
        assert(out@.reverse() =~= digits@);
    }
    out
}

/// The number that up to eight bytes write, most significant first.
pub(crate) fn u64_from_be(b: &[u8]) -> (r: u64)
    requires
        b@.len() <= 8,
    ensures
        r == be_value(b@),
        r < pow256(b@.len()),
{
    let mut acc: u64 = 0;
    let mut i: usize = 0;
    while i < b.len()
        invariant
            i <= b@.len() <= 8,
            acc == be_value(b@.subrange(0, i as int)),
            acc < pow256(i as nat),
        decreases b@.len() - i,
    {
        proof {
            let next = b@.subrange(0, i + 1);
            assert(next.drop_last() =~= b@.subrange(0, i as int));
            assert(next.last() == b@[i as int]);
            reveal_with_fuel(pow256, 9);
            lemma_pow256_monotonic(i as nat, 7);
        }
        acc = acc * 256 + b[i] as u64;
        i = i + 1;
    }
    proof {
        assert(b@.subrange(0, i as int) =~= b@);
    }
    acc
}

/// Larger exponents give larger powers.
pub proof fn lemma_pow256_monotonic(a: nat, b: nat)
    requires
        a <= b,
    ensures
        0 < pow256(a) <= pow256(b),
    decreases b,
{
    if a < b {
        lemma_pow256_monotonic(a, (b - 1) as nat);
    } else if a > 0 {
        lemma_pow256_monotonic((a - 1) as nat, (b - 1) as nat);
    }
}

/// Appends all bytes of a string to a vector.
pub fn append_all(out: &mut Vec<u8>, tail: &Vec<u8>)
    ensures
        final(out)@ == old(out)@ + tail@,
{
    let ghost before = out@;
    let mut i: usize = 0;
    while i < tail.len()
        invariant
            i <= tail@.len(),
            out@ =~= before + tail@.subrange(0, i as int),
        decreases tail@.len() - i,
    {
        out.push(tail[i]);
        i = i + 1;
    }
    assert(tail@.subrange(0, i as int) =~= tail@);
}

} // verus!
