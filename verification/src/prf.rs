//! Secrets of sub-accounts: the exponent of a pseudorandom function,
//! evaluated at the index of the account under a key of the wallet.

use crate::context::{CommitmentKey, GlobalContext};
use crate::error::WalletError;
use crate::group::GroupElement;
use crate::keygen::{derived_scalar, get_bls, holds_scalar, RawBlsType};
use crate::modular::{add_mod, lemma_reduced_is_fixed};
use crate::scalar::{group_order, lemma_scalar_equal, mul_mod, Scalar};
use concordium_base::common::to_bytes;
use concordium_base::curve_arithmetic::Curve;
use concordium_base::dodis_yampolskiy_prf::SecretKey;
use concordium_base::pedersen_commitment::CommitmentKey as PedersenKey;
use ff::PrimeField;
use pairing::bls12_381::Fr;
use pairing::bls12_381::FrRepr;
use pairing::bls12_381::G1;
use vstd::arithmetic::div_mod::{
    lemma_mod_equivalence, lemma_mul_mod_noop_left, lemma_mul_mod_noop_right, lemma_small_mod,
};
use vstd::prelude::*;
use vstd::string::StringSliceAdditionalSpecFns;

verus! {

/// A key of the pseudorandom function that derives the secrets of
/// sub-accounts.
#[derive(Clone, Copy)]
pub struct PrfKey {
    pub scalar: Scalar,
}

/// The secret behind the identity credentials of an account holder.
#[derive(Clone, Copy)]
pub struct IdCredSec {
    pub scalar: Scalar,
}

/// `e` is the exponent of the pseudorandom function for key `k` at index
/// `n`: the inverse of their sum in the field.
pub open spec fn is_prf_exponent(k: int, n: u8, e: int) -> bool {
    0 <= e < group_order() && mul_mod(e, k + n) == 1
}

/// The exponent of the pseudorandom function for key `k` at index `n`.
pub open spec fn prf_value(k: int, n: u8) -> int {
    choose|e: int| is_prf_exponent(k, n, e)
}

/// The function has no value at an index that is the negative of the key.
pub open spec fn prf_is_degenerate(k: int, n: u8) -> bool {
    (k + n) % group_order() == 0
}

/// Calls `SecretKey::prf_exponent` of `concordium_base`'s
/// `dodis_yampolskiy_prf` for the group `G1`. It adds the index to the key
/// and inverts the sum in the field, and fails exactly where the sum is
/// zero.
#[verifier::external_body]
fn prf_exponent_of(key: &Scalar, n: u8) -> (r: Option<Scalar>)
    ensures
        r is None <==> prf_is_degenerate(key.value(), n),
        r is Some ==> r->0.wf() && is_prf_exponent(key.value(), n, r->0.value()),
{
    let k = Fr::from_repr(FrRepr(key.limbs())).expect("canonical limbs");
    match SecretKey::<G1>::new(k).prf_exponent(n) {
        Ok(e) => Scalar::from_limbs(e.into_repr().0),
        Err(_) => None,
    }
}

/// Calls `CommitmentKey::hide_worker` of `concordium_base`'s
/// `pedersen_commitment` for the group `G1`, which commits to a value: the
/// first base raised to the value, times the second base raised to the
/// randomness.
#[verifier::external_body]
fn pedersen_commit(key: &CommitmentKey, value: &Scalar, randomness: &Scalar) -> (r: GroupElement)
    ensures
        r.wf(),
        r.exponent() == add_mod(
            mul_mod(key.g.exponent(), value.value()),
            mul_mod(key.h.exponent(), randomness.value()),
        ),
{
    let g = G1::bytes_to_curve_unchecked(&mut key.g.to_bytes().as_slice()).expect("element");
    let h = G1::bytes_to_curve_unchecked(&mut key.h.to_bytes().as_slice()).expect("element");
    let v = Fr::from_repr(FrRepr(value.limbs())).expect("canonical limbs");
    let r = Fr::from_repr(FrRepr(randomness.limbs())).expect("canonical limbs");
    let c = PedersenKey { g, h }.hide_worker(&v, &r);
    GroupElement::from_bytes(to_bytes(&c.0).as_slice()).expect("encoding of an element")
}

impl PrfKey {
    /// The secret of the sub-account with the given index.
    pub fn prf_exponent(&self, n: u8) -> (r: Result<Scalar, WalletError>)
        ensures
            prf_is_degenerate(self.scalar.value(), n) <==> r == Err::<Scalar, WalletError>(
                WalletError::PrfDomainError,
            ),
            !prf_is_degenerate(self.scalar.value(), n) <==> r is Ok,
            r is Ok ==> r->Ok_0.wf() && is_prf_exponent(self.scalar.value(), n, r->Ok_0.value())
                && r->Ok_0.value() == prf_value(self.scalar.value(), n),
    {
        match prf_exponent_of(&self.scalar, n) {
            Some(e) => {
                proof {
                    lemma_prf_exponent_is_unique(
                        self.scalar.value(),
                        n,
                        e.value(),
                        prf_value(self.scalar.value(), n),
                    );
                }
                Ok(e)
            },
            None => Err(WalletError::PrfDomainError),
        }
    }
}

/// Derives the key of the pseudorandom function from a text.
pub fn get_prf_key(raw: &str, raw_type: RawBlsType, legacy_output: Option<Scalar>) -> (r: Result<
    PrfKey,
    WalletError,
>)
    ensures
        match derived_scalar(raw.spec_bytes(), raw_type, legacy_output) {
            Ok(v) => r is Ok && r->Ok_0.scalar.value() == v,
            Err(e) => r is Err && r->Err_0 == e,
        },
{
    match get_bls(raw, raw_type, legacy_output) {
        Ok(scalar) => Ok(PrfKey { scalar }),
        Err(e) => Err(e),
    }
}

/// Derives the secret behind the identity credentials from a text.
pub fn get_id_cred_sec(raw: &str, raw_type: RawBlsType, legacy_output: Option<Scalar>) -> (r:
    Result<IdCredSec, WalletError>)
    ensures
        match derived_scalar(raw.spec_bytes(), raw_type, legacy_output) {
            Ok(v) => r is Ok && r->Ok_0.scalar.value() == v,
            Err(e) => r is Err && r->Err_0 == e,
        },
{
    match get_bls(raw, raw_type, legacy_output) {
        Ok(scalar) => Ok(IdCredSec { scalar }),
        Err(e) => Err(e),
    }
}

/// The identifier of the credential with the given counter: the first base
/// of the commitment key of the chain, raised to the secret of the
/// sub-account.
pub fn generate_cred_id(prf_key: &PrfKey, cred_counter: u8, global_context: &GlobalContext) -> (r:
    Result<GroupElement, WalletError>)
    ensures
        prf_is_degenerate(prf_key.scalar.value(), cred_counter) <==> r == Err::<
            GroupElement,
            WalletError,
        >(WalletError::PrfDomainError),
        !prf_is_degenerate(prf_key.scalar.value(), cred_counter) <==> r is Ok,
        r is Ok ==> r->Ok_0.wf() && r->Ok_0.exponent() == mul_mod(
            global_context.on_chain_commitment_key.g.exponent(),
            prf_value(prf_key.scalar.value(), cred_counter),
        ),
{
    let exponent = match prf_key.prf_exponent(cred_counter) {
        Ok(e) => e,
        Err(_) => {
            return Err(WalletError::PrfDomainError);
        },
    };
    let zero = Scalar::from_u64(0);
    let id = pedersen_commit(&global_context.on_chain_commitment_key, &exponent, &zero);
    proof {
        let g = global_context.on_chain_commitment_key.g.exponent();
        let h = global_context.on_chain_commitment_key.h.exponent();
        assert(h * 0 == 0) by (nonlinear_arith);
        lemma_reduced_is_fixed(mul_mod(g, exponent.value()));
    }
    Ok(id)
}

/// A key has at most one exponent at an index.
pub proof fn lemma_prf_exponent_is_unique(k: int, n: u8, first: int, second: int)
    requires
        is_prf_exponent(k, n, first),
        is_prf_exponent(k, n, second),
    ensures
        first == second,
{
    let r = group_order();
    let a = k + n;
    // first = first * (a * second) = (first * a) * second = second, modulo r
    lemma_mul_mod_noop_right(first, a * second, r);
    assert(a * second == second * a) by (nonlinear_arith);
    assert(first * 1 == first);
    lemma_small_mod(first as nat, r as nat);
    assert((first * (a * second)) % r == first);
    assert(first * (a * second) == (first * a) * second) by (nonlinear_arith);
    lemma_mul_mod_noop_left(first * a, second, r);
    assert(1 * second == second);
    lemma_small_mod(second as nat, r as nat);
}

/// Deriving the secret of a sub-account twice gives the same secret.
pub proof fn lemma_subkey_is_stable(key: PrfKey, n: u8, first: Scalar, second: Scalar)
    requires
        is_prf_exponent(key.scalar.value(), n, first.value()),
        is_prf_exponent(key.scalar.value(), n, second.value()),
    ensures
        first == second,
{
    lemma_prf_exponent_is_unique(key.scalar.value(), n, first.value(), second.value());
    lemma_scalar_equal(first, second);
}

/// Sub-accounts with different indices have different secrets: one
/// exponent belongs to one index only.
pub proof fn lemma_subkeys_differ(k: int, i: u8, j: u8, e: int)
    requires
        is_prf_exponent(k, i, e),
        is_prf_exponent(k, j, e),
    ensures
        i == j,
{
    let r = group_order();
    let a = k + i;
    let b = k + j;
    // a = a * (e * b) = (a * e) * b = b, modulo r
    lemma_mul_mod_noop_right(a, e * b, r);
    assert(a * 1 == a);
    assert((a * (e * b)) % r == a % r);
    assert(a * (e * b) == (e * a) * b) by (nonlinear_arith);
    lemma_mul_mod_noop_left(e * a, b, r);
    assert(1 * b == b);
    assert(a % r == b % r);
    lemma_mod_equivalence(a, b, r);
    assert(a - b == i - j);
    if i != j {
        if i > j {
            lemma_small_mod((i - j) as nat, r as nat);
        } else {
            lemma_mod_equivalence(b, a, r);
            lemma_small_mod((j - i) as nat, r as nat);
        }
    }
}

} // verus!
