//! Encrypted amounts: a 64-bit amount as two ciphertexts, one for each half
//! of 32 bits, and the operation that adds amounts under encryption.

use crate::context::GlobalContext;
use crate::group::{
    element_add, element_scale, element_zero, is_element_encoding, lemma_element_equal,
    GroupElement, ELEMENT_LENGTH,
};
use crate::modular::{add_mod, lemma_add_mod_associates, lemma_add_mod_commutes};
use crate::scalar::{mul_mod, Scalar};
use vstd::prelude::*;

verus! {

/// Number of bytes in the encoding of a ciphertext.
pub const CIPHER_LENGTH: usize = 96;

/// Number of bytes in the encoding of an encrypted amount.
pub const AMOUNT_LENGTH: usize = 192;

/// Two to the power 32: the weight of the high half of an amount.
pub const HALF_WEIGHT: u64 = 0x1_0000_0000;

/// What a ciphertext is to the contracts: the exponents of its two elements.
pub struct CipherModel {
    pub blinding: int,
    pub payload: int,
}

/// What an encrypted amount is to the contracts.
pub struct AmountModel {
    pub low: CipherModel,
    pub high: CipherModel,
}

/// The ciphertext of the sum: exponents add, part by part.
pub open spec fn combined(a: CipherModel, b: CipherModel) -> CipherModel {
    CipherModel {
        blinding: add_mod(a.blinding, b.blinding),
        payload: add_mod(a.payload, b.payload),
    }
}

/// The encrypted amount of the sum: the halves are combined, each with its
/// like.
pub open spec fn aggregated(a: AmountModel, b: AmountModel) -> AmountModel {
    AmountModel { low: combined(a.low, b.low), high: combined(a.high, b.high) }
}

/// An amount with all of a sequence of amounts folded into it, in order.
pub open spec fn folded(start: AmountModel, incoming: Seq<AmountModel>) -> AmountModel
    decreases incoming.len(),
{
    if incoming.len() == 0 {
        start
    } else {
        aggregated(folded(start, incoming.drop_last()), incoming.last())
    }
}

/// The encryption of an amount without blinding, for a generator of
/// exponent `t`: each half of the amount in the exponent of the generator.
pub open spec fn plain_encryption(t: int, amount: u64) -> AmountModel {
    AmountModel {
        low: CipherModel { blinding: 0, payload: mul_mod(t, amount as int % (HALF_WEIGHT as int)) },
        high: CipherModel { blinding: 0, payload: mul_mod(t, amount as int / (HALF_WEIGHT as int)) },
    }
}

/// A byte string is the encoding of a ciphertext: two encodings of elements,
/// one after the other.
pub open spec fn is_cipher_encoding(b: Seq<u8>) -> bool {
    &&& b.len() == CIPHER_LENGTH
    &&& is_element_encoding(b.subrange(0, ELEMENT_LENGTH as int))
    &&& is_element_encoding(b.subrange(ELEMENT_LENGTH as int, CIPHER_LENGTH as int))
}

/// A byte string is the encoding of an encrypted amount: two encodings of
/// ciphertexts, one after the other.
pub open spec fn is_amount_encoding(b: Seq<u8>) -> bool {
    &&& b.len() == AMOUNT_LENGTH
    &&& is_cipher_encoding(b.subrange(0, CIPHER_LENGTH as int))
    &&& is_cipher_encoding(b.subrange(CIPHER_LENGTH as int, AMOUNT_LENGTH as int))
}

/// An ElGamal ciphertext: the blinding element, and the message multiplied
/// by the public key raised to the blinding.
#[derive(Clone, Copy, Debug)]
pub struct Cipher {
    pub blinding: GroupElement,
    pub payload: GroupElement,
}

impl View for Cipher {
    type V = CipherModel;

    open spec fn view(&self) -> CipherModel {
        CipherModel { blinding: self.blinding.exponent(), payload: self.payload.exponent() }
    }
}

impl Cipher {
    /// Both parts are elements of the group.
    pub open spec fn wf(self) -> bool {
        self.blinding.wf() && self.payload.wf()
    }

    /// The 96 bytes that encode the ciphertext.
    pub open spec fn encoding(self) -> Seq<u8> {
        self.blinding.encoding() + self.payload.encoding()
    }

    /// The ciphertext that 96 bytes encode, if they encode one.
    pub fn from_bytes(bytes: &[u8]) -> (r: Option<Cipher>)
        ensures
            r is Some <==> is_cipher_encoding(bytes@),
            r is Some ==> r->0.wf() && r->0.encoding() == bytes@,
    {
        if bytes.len() != CIPHER_LENGTH {
            return None;
        }
        let first = vstd::slice::slice_subrange(bytes, 0, ELEMENT_LENGTH);
        let second = vstd::slice::slice_subrange(bytes, ELEMENT_LENGTH, CIPHER_LENGTH);
        match (GroupElement::from_bytes(first), GroupElement::from_bytes(second)) {
            (Some(blinding), Some(payload)) => {
                assert(blinding.encoding() + payload.encoding() =~= bytes@);
                Some(Cipher { blinding, payload })
            },
            _ => None,
        }
    }

    /// The 96 bytes that encode the ciphertext.
    pub fn to_bytes(&self) -> (r: Vec<u8>)
        ensures
            r@ == self.encoding(),
            r@.len() == CIPHER_LENGTH,
            self.wf(),
    {
        let mut out = self.blinding.to_bytes();
        let mut tail = self.payload.to_bytes();
        out.append(&mut tail);
        out
    }

    /// The ciphertext of the sum of what two ciphertexts hold.
    pub fn combine(&self, other: &Cipher) -> (r: Cipher)
        ensures
            r.wf(),
            r@ == combined(self@, other@),
    {
        Cipher {
            blinding: element_add(&self.blinding, &other.blinding),
            payload: element_add(&self.payload, &other.payload),
        }
    }
}

/// An amount under encryption: the low 32 bits and the high 32 bits, each
/// in a ciphertext of its own.
#[derive(Clone, Copy, Debug)]
pub struct EncryptedAmount {
    pub low: Cipher,
    pub high: Cipher,
}

impl View for EncryptedAmount {
    type V = AmountModel;

    open spec fn view(&self) -> AmountModel {
        AmountModel { low: self.low@, high: self.high@ }
    }
}

impl EncryptedAmount {
    /// All four parts are elements of the group.
    pub open spec fn wf(self) -> bool {
        self.low.wf() && self.high.wf()
    }

    /// The 192 bytes that encode the amount: the low half, then the high.
    pub open spec fn encoding(self) -> Seq<u8> {
        self.low.encoding() + self.high.encoding()
    }

    /// The encrypted amount that 192 bytes encode, if they encode one.
    pub fn from_bytes(bytes: &[u8]) -> (r: Option<EncryptedAmount>)
        ensures
            r is Some <==> is_amount_encoding(bytes@),
            r is Some ==> r->0.wf() && r->0.encoding() == bytes@,
    {
        if bytes.len() != AMOUNT_LENGTH {
            return None;
        }
        let first = vstd::slice::slice_subrange(bytes, 0, CIPHER_LENGTH);
        let second = vstd::slice::slice_subrange(bytes, CIPHER_LENGTH, AMOUNT_LENGTH);
        match (Cipher::from_bytes(first), Cipher::from_bytes(second)) {
            (Some(low), Some(high)) => {
                assert(low.encoding() + high.encoding() =~= bytes@);
                Some(EncryptedAmount { low, high })
            },
            _ => None,
        }
    }

    /// The 192 bytes that encode the amount.
    pub fn to_bytes(&self) -> (r: Vec<u8>)
        ensures
            r@ == self.encoding(),
            r@.len() == AMOUNT_LENGTH,
            self.wf(),
    {
        let mut out = self.low.to_bytes();
        let mut tail = self.high.to_bytes();
        out.append(&mut tail);
        out
    }
}

/// Combines two encrypted amounts into one that holds their sum, without
/// looking at what either holds.
pub fn aggregate(left: &EncryptedAmount, right: &EncryptedAmount) -> (r: EncryptedAmount)
    ensures
        r.wf(),
        r@ == aggregated(left@, right@),
{
    let high = left.high.combine(&right.high);
    let low = left.low.combine(&right.low);
    EncryptedAmount { low, high }
}

/// Folds incoming amounts into an amount, in the order in which they came.
pub fn aggregate_all(start: &EncryptedAmount, incoming: &Vec<EncryptedAmount>) -> (r:
    EncryptedAmount)
    ensures
        r.wf(),
        r@ == folded(start@, incoming@.map_values(|a: EncryptedAmount| a@)),
{
    let ghost models = incoming@.map_values(|a: EncryptedAmount| a@);
    let mut acc = *start;
    let mut i: usize = 0;
    proof {
        use_type_invariant(&start.low.blinding);
        use_type_invariant(&start.low.payload);
        use_type_invariant(&start.high.blinding);
        use_type_invariant(&start.high.payload);
    }
    while i < incoming.len()
        invariant
            i <= incoming.len(),
            models == incoming@.map_values(|a: EncryptedAmount| a@),
            acc@ == folded(start@, models.subrange(0, i as int)),
            acc.wf(),
        decreases incoming.len() - i,
    {
        proof {
            let next = models.subrange(0, i + 1);
            assert(next.drop_last() =~= models.subrange(0, i as int));
            assert(next.last() == incoming@[i as int]@);
        }
        acc = aggregate(&acc, &incoming[i]);
        i = i + 1;
    }
    proof {
        assert(models.subrange(0, i as int) =~= models);
    }
    acc
}

/// Encrypts an amount without blinding: each half goes into the exponent
/// of the generator in whose exponent the chain encrypts, beside the
/// neutral element. The result hides nothing by itself; it is for an amount
/// that is at once combined into a blinded one.
pub fn encrypt_amount_with_fixed_randomness(context: &GlobalContext, amount: u64) -> (r:
    EncryptedAmount)
    ensures
        r.wf(),
        r@ == plain_encryption(context.on_chain_commitment_key.h.exponent(), amount),
{
    let generator = context.encryption_in_exponent_generator();
    let low_half = Scalar::from_u64(amount % HALF_WEIGHT);
    let high_half = Scalar::from_u64(amount / HALF_WEIGHT);
    let low = Cipher { blinding: element_zero(), payload: element_scale(generator, &low_half) };
    let high = Cipher { blinding: element_zero(), payload: element_scale(generator, &high_half) };
    EncryptedAmount { low, high }
}

/// Ciphertexts with the same exponents are the same ciphertext.
pub proof fn lemma_cipher_equal(a: Cipher, b: Cipher)
    requires
        a.wf(),
        b.wf(),
        a@ == b@,
    ensures
        a == b,
{
    lemma_element_equal(a.blinding, b.blinding);
    lemma_element_equal(a.payload, b.payload);
}

/// Encrypted amounts with the same exponents are the same encrypted amount.
pub proof fn lemma_amount_equal(a: EncryptedAmount, b: EncryptedAmount)
    requires
        a.wf(),
        b.wf(),
        a@ == b@,
    ensures
        a == b,
{
    lemma_cipher_equal(a.low, b.low);
    lemma_cipher_equal(a.high, b.high);
}

/// Aggregation does not depend on the order of the two amounts.
pub proof fn lemma_aggregate_commutes(a: AmountModel, b: AmountModel)
    ensures
        aggregated(a, b) == aggregated(b, a),
{
    lemma_add_mod_commutes(a.low.blinding, b.low.blinding);
    lemma_add_mod_commutes(a.low.payload, b.low.payload);
    lemma_add_mod_commutes(a.high.blinding, b.high.blinding);
    lemma_add_mod_commutes(a.high.payload, b.high.payload);
}

/// Aggregation may be nested either way.
pub proof fn lemma_aggregate_associates(a: AmountModel, b: AmountModel, c: AmountModel)
    ensures
        aggregated(a, aggregated(b, c)) == aggregated(aggregated(a, b), c),
{
    lemma_add_mod_associates(a.low.blinding, b.low.blinding, c.low.blinding);
    lemma_add_mod_associates(a.low.payload, b.low.payload, c.low.payload);
    lemma_add_mod_associates(a.high.blinding, b.high.blinding, c.high.blinding);
    lemma_add_mod_associates(a.high.payload, b.high.payload, c.high.payload);
}

/// Aggregating three amounts gives one and the same ciphertext whichever
/// two are combined first: `left` is any result of aggregating `a` with the
/// aggregate of `b` and `c`, and `right` any result of aggregating the
/// aggregate of `a` and `b` with `c`.
pub proof fn lemma_aggregation_order(
    a: EncryptedAmount,
    b: EncryptedAmount,
    c: EncryptedAmount,
    left: EncryptedAmount,
    right: EncryptedAmount,
)
    requires
        left.wf(),
        right.wf(),
        left@ == aggregated(a@, aggregated(b@, c@)),
        right@ == aggregated(aggregated(a@, b@), c@),
    ensures
        left == right,
        left.encoding() == right.encoding(),
{
    lemma_aggregate_associates(a@, b@, c@);
    lemma_amount_equal(left, right);
}

/// Aggregating two amounts gives one and the same ciphertext in either
/// order.
pub proof fn lemma_aggregation_symmetric(
    a: EncryptedAmount,
    b: EncryptedAmount,
    left: EncryptedAmount,
    right: EncryptedAmount,
)
    requires
        left.wf(),
        right.wf(),
        left@ == aggregated(a@, b@),
        right@ == aggregated(b@, a@),
    ensures
        left == right,
{
    lemma_aggregate_commutes(a@, b@);
    lemma_amount_equal(left, right);
}

/// The encryption of zero without blinding changes no amount that it is
/// aggregated with.
pub proof fn lemma_aggregate_zero(a: EncryptedAmount, t: int, r: EncryptedAmount)
    requires
        a.wf(),
        r.wf(),
        r@ == aggregated(a@, plain_encryption(t, 0)),
    ensures
        r == a,
{
    assert(0 * t == 0) by (nonlinear_arith);
    assert(t * 0 == 0) by (nonlinear_arith);
    crate::modular::lemma_reduced_is_fixed(a.low.blinding.exponent());
    crate::modular::lemma_reduced_is_fixed(a.low.payload.exponent());
    crate::modular::lemma_reduced_is_fixed(a.high.blinding.exponent());
    crate::modular::lemma_reduced_is_fixed(a.high.payload.exponent());
    lemma_amount_equal(r, a);
}

} // verus!
