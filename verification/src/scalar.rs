//! Elements of the scalar field of BLS12-381, modelled by their integer value.

use crate::bytes::{
    be_value, le_value, lemma_be_value_concat, lemma_pow256_limbs, u64_from_be, u64_to_be,
};
use concordium_base::curve_arithmetic::Curve;
use ff::Field;
use ff::PrimeField;
use pairing::bls12_381::Fr;
use pairing::bls12_381::FrRepr;
use pairing::bls12_381::G1;
use vstd::prelude::*;

verus! {

/// Number of bytes in the encoding of a scalar.
pub const SCALAR_LENGTH: usize = 32;

/// Least significant limb of the group order.
pub const ORDER_LIMB_0: u64 = 0xffff_ffff_0000_0001;

/// Second limb of the group order.
pub const ORDER_LIMB_1: u64 = 0x53bd_a402_fffe_5bfe;

/// Third limb of the group order.
pub const ORDER_LIMB_2: u64 = 0x3339_d808_09a1_d805;

/// Most significant limb of the group order.
pub const ORDER_LIMB_3: u64 = 0x73ed_a753_299d_7d48;

/// The order of the group, which is the modulus of the scalar field.
pub open spec fn group_order() -> int {
    0x73eda753299d7d483339d80809a1d80553bda402fffe5bfeffffffff00000001int
}

/// The integer that four little-endian 64-bit limbs stand for.
pub open spec fn limbs_value(l: [u64; 4]) -> int {
    l[0] as int + l[1] as int * 0x1_0000_0000_0000_0000int + l[2] as int
        * 0x1_0000_0000_0000_0000_0000_0000_0000_0000int + l[3] as int
        * 0x1_0000_0000_0000_0000_0000_0000_0000_0000_0000_0000_0000_0000int
}

/// Two to the power 248: the weight of the seventeen high bytes of a 48-byte
/// string against its thirty-one low bytes.
pub open spec fn shift_value() -> int {
    0x0100_0000_0000_0000_0000_0000_0000_0000_0000_0000_0000_0000_0000_0000_0000_0000int
}

/// Two to the power 254: values below it are taken as scalars bit for bit.
pub open spec fn scalar_capacity() -> int {
    0x4000_0000_0000_0000_0000_0000_0000_0000_0000_0000_0000_0000_0000_0000_0000_0000int
}

/// Product of two integers reduced modulo the group order.
pub open spec fn mul_mod(a: int, b: int) -> int {
    (a * b) % group_order()
}

/// An element of the scalar field, held as four little-endian limbs of its
/// canonical representative. Scalars are secrets more often than not, so
/// they do not print.
#[derive(Clone, Copy)]
pub struct Scalar {
    limbs: [u64; 4],
}

impl Scalar {
    /// The limbs of the canonical representative, least significant first.
    pub closed spec fn spec_limbs(self) -> [u64; 4] {
        self.limbs
    }

    /// The canonical representative as an integer.
    pub open spec fn value(self) -> int {
        limbs_value(self.spec_limbs())
    }

    /// The representative lies below the group order.
    #[verifier::type_invariant]
    pub open spec fn wf(self) -> bool {
        0 <= self.value() < group_order()
    }

    /// The scalar with the given limbs, if they stand for a value below the
    /// group order.
    pub fn from_limbs(limbs: [u64; 4]) -> (r: Option<Scalar>)
        ensures
            r is Some <==> limbs_value(limbs) < group_order(),
            r is Some ==> r->0.spec_limbs() == limbs && r->0.wf(),
    {
        if limbs_below_order(&limbs) {
            Some(Scalar { limbs })
        } else {
            None
        }
    }

    /// The scalar that stands for a 64-bit integer.
    pub fn from_u64(n: u64) -> (r: Scalar)
        ensures
            r.value() == n,
            r.wf(),
    {
        let limbs: [u64; 4] = [n, 0, 0, 0];
        assert(limbs[0] == n && limbs[1] == 0 && limbs[2] == 0 && limbs[3] == 0);
        Scalar { limbs }
    }

    /// Two to the power 248, the weight of the upper limb of a 48-byte digest.
    pub fn shift_248() -> (r: Scalar)
        ensures
            r.value() == shift_value(),
            r.wf(),
    {
        let limbs: [u64; 4] = [0, 0, 0, 0x0100_0000_0000_0000];
        assert(limbs[0] == 0 && limbs[1] == 0 && limbs[2] == 0 && limbs[3] == 0x0100_0000_0000_0000);
        Scalar { limbs }
    }

    /// The limbs of the canonical representative, least significant first.
    pub fn limbs(&self) -> (r: [u64; 4])
        ensures
            r == self.spec_limbs(),
            limbs_value(r) == self.value(),
            self.wf(),
    {
        proof {
            use_type_invariant(self);
        }
        self.limbs
    }

    /// The 32 bytes of the canonical representative, most significant first.
    pub fn to_bytes(&self) -> (r: Vec<u8>)
        ensures
            r@.len() == SCALAR_LENGTH,
            be_value(r@) == self.value(),
    {
        let mut out = u64_to_be(self.limbs[3]);
        let mut second = u64_to_be(self.limbs[2]);
        let mut third = u64_to_be(self.limbs[1]);
        let mut fourth = u64_to_be(self.limbs[0]);
        proof {
            lemma_be_value_concat(out@, second@);
            lemma_be_value_concat(out@ + second@, third@);
            lemma_be_value_concat(out@ + second@ + third@, fourth@);
            lemma_pow256_limbs();
        }
        out.append(&mut second);
        out.append(&mut third);
        out.append(&mut fourth);
        out
    }

    /// The scalar that 32 bytes write, most significant first, if they
    /// write a value below the group order.
    pub fn from_bytes(bytes: &[u8]) -> (r: Option<Scalar>)
        ensures
            r is Some <==> bytes@.len() == SCALAR_LENGTH && be_value(bytes@) < group_order(),
            r is Some ==> r->0.value() == be_value(bytes@) && r->0.wf(),
    {
        if bytes.len() != SCALAR_LENGTH {
            return None;
        }
        let b3 = vstd::slice::slice_subrange(bytes, 0, 8);
        let b2 = vstd::slice::slice_subrange(bytes, 8, 16);
        let b1 = vstd::slice::slice_subrange(bytes, 16, 24);
        let b0 = vstd::slice::slice_subrange(bytes, 24, 32);
        let limbs: [u64; 4] = [u64_from_be(b0), u64_from_be(b1), u64_from_be(b2), u64_from_be(b3)];
        proof {
            assert(bytes@ =~= b3@ + b2@ + b1@ + b0@);
            lemma_be_value_concat(b3@, b2@);
            lemma_be_value_concat(b3@ + b2@, b1@);
            lemma_be_value_concat(b3@ + b2@ + b1@, b0@);
            lemma_pow256_limbs();
            assert(limbs[0] == be_value(b0@) && limbs[1] == be_value(b1@) && limbs[2] == be_value(
                b2@,
            ) && limbs[3] == be_value(b3@));
            assert(limbs_value(limbs) == be_value(bytes@));
        }
        Scalar::from_limbs(limbs)
    }

    /// Whether this is the zero of the field.
    pub fn is_zero(&self) -> (r: bool)
        ensures
            r <==> self.value() == 0,
    {
        self.limbs[0] == 0 && self.limbs[1] == 0 && self.limbs[2] == 0 && self.limbs[3] == 0
    }

    /// Whether two scalars are the same element of the field.
    pub fn same(&self, other: &Scalar) -> (r: bool)
        ensures
            r <==> self.value() == other.value(),
            r <==> self.spec_limbs() == other.spec_limbs(),
    {
        proof {
            lemma_limbs_value_injective(self.limbs, other.limbs);
        }
        self.limbs[0] == other.limbs[0] && self.limbs[1] == other.limbs[1] && self.limbs[2]
            == other.limbs[2] && self.limbs[3] == other.limbs[3]
    }
}

/// Whether four limbs stand for a value below the group order.
fn limbs_below_order(l: &[u64; 4]) -> (r: bool)
    ensures
        r <==> limbs_value(*l) < group_order(),
{
    if l[3] != ORDER_LIMB_3 {
        l[3] < ORDER_LIMB_3
    } else if l[2] != ORDER_LIMB_2 {
        l[2] < ORDER_LIMB_2
    } else if l[1] != ORDER_LIMB_1 {
        l[1] < ORDER_LIMB_1
    } else {
        l[0] < ORDER_LIMB_0
    }
}

/// Distinct limbs stand for distinct integers.
pub proof fn lemma_limbs_value_injective(a: [u64; 4], b: [u64; 4])
    ensures
        limbs_value(a) == limbs_value(b) <==> a == b,
{
    if limbs_value(a) == limbs_value(b) {
        let high_a = a[1] as int + a[2] as int * 0x1_0000_0000_0000_0000int + a[3] as int
            * 0x1_0000_0000_0000_0000_0000_0000_0000_0000int;
        let high_b = b[1] as int + b[2] as int * 0x1_0000_0000_0000_0000int + b[3] as int
            * 0x1_0000_0000_0000_0000_0000_0000_0000_0000int;
        assert(limbs_value(a) == a[0] as int + high_a * 0x1_0000_0000_0000_0000int);
        assert(limbs_value(b) == b[0] as int + high_b * 0x1_0000_0000_0000_0000int);
        assert(high_a == high_b && a[0] == b[0]);
        let top_a = a[2] as int + a[3] as int * 0x1_0000_0000_0000_0000int;
        let top_b = b[2] as int + b[3] as int * 0x1_0000_0000_0000_0000int;
        assert(high_a == a[1] as int + top_a * 0x1_0000_0000_0000_0000int);
        assert(high_b == b[1] as int + top_b * 0x1_0000_0000_0000_0000int);
        assert(top_a == top_b && a[1] == b[1]);
        assert(a[2] == b[2] && a[3] == b[3]);
        assert(a =~= b);
    }
}

/// Scalars of one value are one scalar.
pub proof fn lemma_scalar_equal(a: Scalar, b: Scalar)
    requires
        a.value() == b.value(),
    ensures
        a == b,
{
    lemma_limbs_value_injective(a.limbs, b.limbs);
}

/// Calls `add_assign` of `ff::Field` on `pairing::bls12_381::Fr`. The
/// contract says that the result is the canonical representative of the sum
/// of the two field elements.
#[verifier::external_body]
pub(crate) fn field_add(a: &Scalar, b: &Scalar) -> (r: Scalar)
    ensures
        r.wf(),
        r.value() == (a.value() + b.value()) % group_order(),
{
    let mut x = Fr::from_repr(FrRepr(a.limbs)).expect("canonical limbs");
    let y = Fr::from_repr(FrRepr(b.limbs)).expect("canonical limbs");
    x.add_assign(&y);
    Scalar { limbs: x.into_repr().0 }
}

/// Calls `mul_assign` of `ff::Field` on `pairing::bls12_381::Fr`. The
/// contract says that the result is the canonical representative of the
/// product of the two field elements.
#[verifier::external_body]
pub(crate) fn field_mul(a: &Scalar, b: &Scalar) -> (r: Scalar)
    ensures
        r.wf(),
        r.value() == mul_mod(a.value(), b.value()),
{
    let mut x = Fr::from_repr(FrRepr(a.limbs)).expect("canonical limbs");
    let y = Fr::from_repr(FrRepr(b.limbs)).expect("canonical limbs");
    x.mul_assign(&y);
    Scalar { limbs: x.into_repr().0 }
}

/// Calls `Curve::scalar_from_bytes` of `concordium_base` for the group `G1`.
/// It reads the 32 bytes as a little-endian integer and clears its two
/// highest bits; the contract states that value.
#[verifier::external_body]
pub(crate) fn scalar_from_bytes(bytes: &[u8]) -> (r: Scalar)
    requires
        bytes@.len() == 32,
    ensures
        r.wf(),
        r.value() == le_value(bytes@)
            % scalar_capacity(),
{
    Scalar { limbs: G1::scalar_from_bytes(bytes).into_repr().0 }
}

} // verus!
