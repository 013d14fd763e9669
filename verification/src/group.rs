//! Elements of the group in which amounts are encrypted: the prime-order
//! group G1 of BLS12-381, with the curve arithmetic of `concordium_base`.
//!
//! An element is held as its 48-byte encoding. Contracts speak of its
//! exponent: the group has prime order and a chosen generator, so each
//! element is that generator raised to exactly one exponent below the
//! order, and the group operation adds exponents.

use crate::scalar::{group_order, mul_mod, Scalar};
use concordium_base::common::from_bytes;
use concordium_base::common::to_bytes;
use concordium_base::curve_arithmetic::Curve;
use ff::PrimeField;
use pairing::bls12_381::Fr;
use pairing::bls12_381::FrRepr;
use pairing::bls12_381::G1;
use vstd::prelude::*;

verus! {

/// Number of bytes in the encoding of an element.
pub const ELEMENT_LENGTH: usize = 48;

/// The exponent of the element that a byte string encodes: the exponent
/// below the group order to which the chosen generator must be raised to
/// give the element. The group has prime order, so there is exactly one.
pub uninterp spec fn element_exponent(encoding: Seq<u8>) -> int;

/// The encoding of the chosen generator raised to an exponent: the bytes
/// that `to_bytes` makes of what `Curve::mul_by_scalar` returns for
/// `Curve::one_point` and the exponent.
pub uninterp spec fn exponent_encoding(exponent: int) -> Seq<u8>;

/// A byte string is the encoding of an element of the group: it is the
/// encoding of the generator raised to the string's own exponent.
pub open spec fn is_element_encoding(b: Seq<u8>) -> bool {
    &&& b.len() == ELEMENT_LENGTH
    &&& 0 <= element_exponent(b) < group_order()
    &&& exponent_encoding(element_exponent(b)) == b
}

/// An exponent has an inverse modulo the group order.
pub open spec fn is_unit(t: int) -> bool {
    exists|u: int| 0 <= u < group_order() && #[trigger] mul_mod(t, u) == 1
}

/// An element of the group, as its encoding.
#[derive(Clone, Copy, Debug)]
pub struct GroupElement {
    bytes: [u8; 48],
}

impl GroupElement {
    /// The 48 bytes that encode the element.
    pub closed spec fn encoding(self) -> Seq<u8> {
        self.bytes@
    }

    /// The exponent of the element.
    pub open spec fn exponent(self) -> int {
        element_exponent(self.encoding())
    }

    /// The bytes held are the encoding of an element.
    #[verifier::type_invariant]
    pub open spec fn wf(self) -> bool {
        is_element_encoding(self.encoding())
    }

    /// The element that 48 bytes encode, if they encode one.
    pub fn from_bytes(bytes: &[u8]) -> (r: Option<GroupElement>)
        ensures
            r is Some <==> is_element_encoding(bytes@),
            r is Some ==> r->0.encoding() == bytes@ && r->0.wf(),
    {
        if bytes.len() != ELEMENT_LENGTH {
            return None;
        }
        let mut held: [u8; 48] = [0u8; 48];
        let mut i: usize = 0;
        while i < ELEMENT_LENGTH
            invariant
                i <= ELEMENT_LENGTH,
                bytes@.len() == ELEMENT_LENGTH,
                forall|k: int| 0 <= k < i ==> held@[k] == bytes@[k],
            decreases ELEMENT_LENGTH - i,
        {
            held[i] = bytes[i];
            i = i + 1;
        }
        assert(held@ =~= bytes@);
        decode_element(&held)
    }

    /// The 48 bytes that encode the element.
    pub fn to_bytes(&self) -> (r: Vec<u8>)
        ensures
            r@ == self.encoding(),
            self.wf(),
    {
        proof {
            use_type_invariant(self);
        }
        let mut out: Vec<u8> = Vec::new();
        let mut i: usize = 0;
        while i < ELEMENT_LENGTH
            invariant
                i <= ELEMENT_LENGTH,
                out@ =~= self.bytes@.subrange(0, i as int),
            decreases ELEMENT_LENGTH - i,
        {
            out.push(self.bytes[i]);
            i = i + 1;
        }
        assert(self.bytes@.subrange(0, 48) =~= self.bytes@);
        out
    }

    /// Whether two elements are the same.
    pub fn same(&self, other: &GroupElement) -> (r: bool)
        ensures
            r <==> self.encoding() == other.encoding(),
            r <==> self.exponent() == other.exponent(),
            r <==> *self == *other,
    {
        proof {
            use_type_invariant(self);
            use_type_invariant(other);
            lemma_element_equal(*self, *other);
        }
        let mut i: usize = 0;
        while i < ELEMENT_LENGTH
            invariant
                i <= ELEMENT_LENGTH,
                self.wf(),
                other.wf(),
                forall|k: int| 0 <= k < i ==> self.bytes@[k] == other.bytes@[k],
            decreases ELEMENT_LENGTH - i,
        {
            if self.bytes[i] != other.bytes[i] {
                proof {
                    lemma_element_equal(*self, *other);
                }
                return false;
            }
            i = i + 1;
        }
        assert(self.bytes@ =~= other.bytes@);
        true
    }

    /// The last eight bytes of the encoding as one number, the last byte
    /// the most significant, by which a table of elements is indexed.
    pub open spec fn spec_fingerprint(self) -> u64 {
        tail_number(self.encoding(), 8) as u64
    }

    /// The last eight bytes of the encoding as one number, the last byte
    /// the most significant.
    pub fn fingerprint(&self) -> (r: u64)
        ensures
            r == self.spec_fingerprint(),
    {
        let mut acc: u64 = 0;
        let mut i: usize = 0;
        while i < 8
            invariant
                i <= 8,
                acc == tail_number(self.encoding(), i as nat),
                acc < weight(i as nat),
            decreases 8 - i,
        {
            proof {
                lemma_weight_values();
                lemma_weight_monotonic(i as nat, 7);
            }
            acc = acc * 256 + self.bytes[47 - i] as u64;
            i = i + 1;
        }
        acc
    }
}

/// The number that the first `n` of the last bytes of a string write, the
/// last byte first.
pub open spec fn tail_number(b: Seq<u8>, n: nat) -> int
    decreases n,
{
    if n == 0 {
        0
    } else {
        256 * tail_number(b, (n - 1) as nat) + b[b.len() - n] as int
    }
}

/// 256 to the power `n`.
pub open spec fn weight(n: nat) -> int
    decreases n,
{
    if n == 0 {
        1
    } else {
        256 * weight((n - 1) as nat)
    }
}

/// Larger exponents give larger powers.
pub proof fn lemma_weight_monotonic(a: nat, b: nat)
    requires
        a <= b,
    ensures
        0 < weight(a) <= weight(b),
    decreases b,
{
    if a < b {
        lemma_weight_monotonic(a, (b - 1) as nat);
    } else if a > 0 {
        lemma_weight_monotonic((a - 1) as nat, (b - 1) as nat);
    }
}

/// Eight bytes fill 64 bits.
pub proof fn lemma_weight_values()
    ensures
        weight(7) == 0x0100_0000_0000_0000int,
        weight(8) == 0x1_0000_0000_0000_0000int,
{
    reveal_with_fuel(weight, 9);
}

/// Elements with one exponent have one encoding, and are one element.
pub proof fn lemma_element_equal(a: GroupElement, b: GroupElement)
    requires
        a.wf(),
        b.wf(),
    ensures
        a.exponent() == b.exponent() <==> a.encoding() == b.encoding(),
        a.encoding() == b.encoding() <==> a == b,
{
    if a.encoding() == b.encoding() {
        assert(a.bytes@ =~= b.bytes@);
        assert(a.bytes == b.bytes);
    }
}

/// Calls `from_bytes` of `concordium_base::common` for the type `G1`, which
/// decompresses the point and checks that it lies in the group. It accepts
/// exactly the encodings of elements, and an element's encoding is unique.
#[verifier::external_body]
fn decode_element(bytes: &[u8; 48]) -> (r: Option<GroupElement>)
    ensures
        r is Some <==> is_element_encoding(bytes@),
        r is Some ==> r->0.encoding() == bytes@ && exponent_encoding(element_exponent(bytes@))
            == bytes@,
{
    match from_bytes::<G1, _>(&mut &bytes[..]) {
        Ok(_) => Some(GroupElement { bytes: *bytes }),
        Err(_) => None,
    }
}

/// Calls `Curve::zero_point` for `G1`: the neutral element, which is the
/// generator raised to zero.
#[verifier::external_body]
pub(crate) fn element_zero() -> (r: GroupElement)
    ensures
        r.wf(),
        element_exponent(r.encoding()) == 0,
{
    GroupElement { bytes: to_bytes(&G1::zero_point()).try_into().expect("48 bytes") }
}

/// Calls `Curve::is_zero_point` for `G1`. Only the neutral element has
/// exponent zero; the group has prime order, so the exponent of any other
/// element has an inverse modulo that order.
#[verifier::external_body]
pub(crate) fn element_is_zero(a: &GroupElement) -> (r: bool)
    ensures
        r <==> element_exponent(a.encoding()) == 0,
        !r ==> is_unit(element_exponent(a.encoding())),
{
    let p = G1::bytes_to_curve_unchecked(&mut &a.bytes[..]).expect("encoding of an element");
    p.is_zero_point()
}

/// Calls `Curve::plus_point` for `G1`, the group operation: exponents add
/// modulo the group order.
#[verifier::external_body]
pub(crate) fn element_add(a: &GroupElement, b: &GroupElement) -> (r: GroupElement)
    ensures
        r.wf(),
        element_exponent(r.encoding()) == (element_exponent(a.encoding()) + element_exponent(
            b.encoding(),
        )) % group_order(),
{
    let p = G1::bytes_to_curve_unchecked(&mut &a.bytes[..]).expect("encoding of an element");
    let q = G1::bytes_to_curve_unchecked(&mut &b.bytes[..]).expect("encoding of an element");
    GroupElement { bytes: to_bytes(&p.plus_point(&q)).try_into().expect("48 bytes") }
}

/// Calls `Curve::minus_point` for `G1`, the group operation with the
/// inverse of the second element: exponents subtract modulo the group order.
#[verifier::external_body]
pub(crate) fn element_sub(a: &GroupElement, b: &GroupElement) -> (r: GroupElement)
    ensures
        r.wf(),
        element_exponent(r.encoding()) == (element_exponent(a.encoding()) - element_exponent(
            b.encoding(),
        )) % group_order(),
{
    let p = G1::bytes_to_curve_unchecked(&mut &a.bytes[..]).expect("encoding of an element");
    let q = G1::bytes_to_curve_unchecked(&mut &b.bytes[..]).expect("encoding of an element");
    GroupElement { bytes: to_bytes(&p.minus_point(&q)).try_into().expect("48 bytes") }
}

/// Calls `Curve::mul_by_scalar` for `G1`, which raises an element to a
/// scalar: the exponent is multiplied by the scalar modulo the group order.
#[verifier::external_body]
pub(crate) fn element_scale(a: &GroupElement, scalar: &Scalar) -> (r: GroupElement)
    ensures
        r.wf(),
        element_exponent(r.encoding()) == mul_mod(
            element_exponent(a.encoding()),
            scalar.value(),
        ),
{
    let p = G1::bytes_to_curve_unchecked(&mut &a.bytes[..]).expect("encoding of an element");
    let s = Fr::from_repr(FrRepr(scalar.limbs())).expect("canonical limbs");
    GroupElement { bytes: to_bytes(&p.mul_by_scalar(&s)).try_into().expect("48 bytes") }
}

} // verus!
