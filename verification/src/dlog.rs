//! Decryption of amounts: the message of a ciphertext is a power of a
//! generator, and its exponent is found with a table of baby steps and a
//! search by giant steps.

use crate::amount::{AmountModel, Cipher, CipherModel, EncryptedAmount, HALF_WEIGHT};
use crate::error::WalletError;
use crate::group::{
    element_add, element_is_zero, element_scale, element_sub, element_zero, is_unit,
    lemma_element_equal, GroupElement,
};
use crate::modular::{
    lemma_mul_mod_successor, lemma_stride_match, lemma_stride_step, lemma_unit_cancels, sub_mod,
};
use crate::scalar::{group_order, mul_mod, Scalar};
use std::collections::HashMap;
use vstd::prelude::*;

verus! {

/// The largest number of baby steps that a table may hold. With it the
/// search covers every exponent of 32 bits.
pub const MAX_STEPS: u64 = 65536;

/// `x` is a logarithm of the element of exponent `e` to the base of
/// exponent `t`: the base raised to `x` is the element.
pub open spec fn is_log(t: int, e: int, x: int) -> bool {
    mul_mod(x, t) == e
}

/// The logarithm below `bound`, if there is one.
pub open spec fn log_below(t: int, e: int, bound: int) -> Option<int> {
    if exists|x: int| 0 <= x < bound && #[trigger] is_log(t, e, x) {
        Some(choose|x: int| 0 <= x < bound && #[trigger] is_log(t, e, x))
    } else {
        None
    }
}

/// The exponent of the message of a ciphertext under a secret key: that of
/// the payload, less the secret times that of the blinding.
pub open spec fn message_exponent(c: CipherModel, secret: int) -> int {
    sub_mod(c.payload, mul_mod(c.blinding, secret))
}

/// What an encrypted amount decrypts to with a table of `steps` baby steps
/// for a base of exponent `t`: the two halves put together, if each has a
/// logarithm within the range of the table.
pub open spec fn decrypted_amount(t: int, steps: int, secret: int, a: AmountModel) -> Result<
    int,
    WalletError,
> {
    let low = log_below(t, message_exponent(a.low, secret), steps * steps);
    let high = log_below(t, message_exponent(a.high, secret), steps * steps);
    if low is Some && high is Some {
        Ok(high->0 * (HALF_WEIGHT as int) + low->0)
    } else {
        Err(WalletError::DecryptionRangeError)
    }
}

/// An exec result holds the logarithm that the contract speaks of.
pub open spec fn holds_log(r: Option<u64>, expected: Option<int>) -> bool {
    match expected {
        Some(x) => r == Some(x as u64) && 0 <= x <= u64::MAX,
        None => r is None,
    }
}

/// An exec result holds the amount, or the error, that the contract speaks
/// of.
pub open spec fn holds_amount(r: Result<u64, WalletError>, expected: Result<int, WalletError>)
    -> bool {
    match expected {
        Ok(v) => r == Ok::<u64, WalletError>(v as u64) && 0 <= v <= u64::MAX,
        Err(e) => r == Err::<u64, WalletError>(e),
    }
}

/// An ElGamal secret key, with the generator of its public key.
#[derive(Clone, Copy)]
pub struct SecretKey {
    pub generator: GroupElement,
    pub scalar: Scalar,
}

impl SecretKey {
    /// The 80 bytes that encode the key: the generator, then the scalar.
    pub fn to_bytes(&self) -> (r: Vec<u8>)
        ensures
            r@.len() == 80,
            r@.subrange(0, 48) == self.generator.encoding(),
            crate::bytes::be_value(r@.subrange(48, 80)) == self.scalar.value(),
    {
        let mut out = self.generator.to_bytes();
        let mut tail = self.scalar.to_bytes();
        let ghost head = out@;
        let ghost t = tail@;
        out.append(&mut tail);
        proof {
            assert(out@.subrange(0, 48) =~= head);
            assert(out@.subrange(48, 80) =~= t);
        }
        out
    }
}

/// The first `entries.len()` multiples of the base, in order.
pub open spec fn are_multiples(entries: Seq<GroupElement>, t: int) -> bool {
    forall|j: int|
        0 <= j < entries.len() ==> (#[trigger] entries[j]).wf() && entries[j].exponent()
            == mul_mod(j, t)
}

/// Entry `j` can be found: under its fingerprint, or among the entries
/// whose fingerprint was taken.
pub open spec fn is_indexed(
    entries: Seq<GroupElement>,
    index: Map<u64, usize>,
    overflow: Seq<usize>,
    j: int,
) -> bool {
    let fp = entries[j].spec_fingerprint();
    (index.contains_key(fp) && index[fp] == j) || exists|k: int|
        0 <= k < overflow.len() && #[trigger] overflow[k] == j
}

/// Every entry can be found, and the index points at entries only.
pub open spec fn is_index_of(
    entries: Seq<GroupElement>,
    index: Map<u64, usize>,
    overflow: Seq<usize>,
) -> bool {
    &&& forall|j: int| 0 <= j < entries.len() ==> #[trigger] is_indexed(entries, index, overflow, j)
    &&& forall|k: u64| #[trigger] index.contains_key(k) ==> index[k] < entries.len()
    &&& forall|i: int| 0 <= i < overflow.len() ==> (#[trigger] overflow[i]) < entries.len()
}

/// The table of baby steps: the multiples of a base from zero up to a
/// number of steps, indexed by a fingerprint of their encodings, and the
/// giant stride that follows the last of them.
pub struct BabyStepGiantStep {
    base: GroupElement,
    entries: Vec<GroupElement>,
    index: HashMap<u64, usize>,
    overflow: Vec<usize>,
    stride: GroupElement,
}

impl BabyStepGiantStep {
    /// The table holds the multiples of its base, each of them indexed,
    /// and the base generates the group.
    #[verifier::type_invariant]
    pub closed spec fn wf(self) -> bool {
        &&& 0 < self.entries@.len() <= MAX_STEPS
        &&& self.base.wf()
        &&& is_unit(self.base.exponent())
        &&& self.stride.wf()
        &&& self.stride.exponent() == mul_mod(self.entries@.len() as int, self.base.exponent())
        &&& are_multiples(self.entries@, self.base.exponent())
        &&& is_index_of(self.entries@, self.index@, self.overflow@)
    }

    /// The base whose multiples the table holds.
    pub closed spec fn generator(self) -> GroupElement {
        self.base
    }

    /// The number of baby steps.
    pub closed spec fn steps(self) -> int {
        self.entries@.len() as int
    }

    /// The exponent of the base.
    pub open spec fn generator_exponent(self) -> int {
        self.generator().exponent()
    }

    /// One more than the largest exponent that the search reaches.
    pub open spec fn range(self) -> int {
        self.steps() * self.steps()
    }

    /// The base of a table generates the group, and the number of steps is
    /// within bounds.
    pub proof fn lemma_table_bounds(self)
        requires
            self.wf(),
        ensures
            is_unit(self.generator_exponent()),
            self.generator().wf(),
            0 < self.steps() <= MAX_STEPS,
            0 < self.range() <= 0x1_0000_0000,
    {
        let m = self.steps();
        assert(0 < m * m <= 0x1_0000_0000) by (nonlinear_arith)
            requires
                0 < m <= 65536,
        ;
    }

    /// Builds the table for a base and a number of steps. There is none for
    /// the neutral element, whose multiples are all the same, nor for no
    /// steps or more than `MAX_STEPS`.
    pub fn new(base: &GroupElement, m: u64) -> (r: Option<BabyStepGiantStep>)
        ensures
            r is Some <==> 0 < m <= MAX_STEPS && base.exponent() != 0,
            r is Some ==> r->0.wf() && r->0.generator() == *base && r->0.steps() == m,
    {
        if m == 0 || m > MAX_STEPS {
            return None;
        }
        if element_is_zero(base) {
            return None;
        }
        proof {
            use_type_invariant(base);
        }
        let ghost t = base.exponent();
        let mut entries: Vec<GroupElement> = Vec::new();
        let mut index: HashMap<u64, usize> = HashMap::new();
        let mut overflow: Vec<usize> = Vec::new();
        let mut current = element_zero();
        let mut j: u64 = 0;
        proof {
            assert(0 * t == 0) by (nonlinear_arith);
        }
        while j < m
            invariant
                j <= m <= MAX_STEPS,
                base.wf(),
                t == base.exponent(),
                entries@.len() == j,
                current.wf(),
                current.exponent() == mul_mod(j as int, t),
                are_multiples(entries@, t),
                is_index_of(entries@, index@, overflow@),
            decreases m - j,
        {
            broadcast use vstd::std_specs::hash::group_hash_axioms;

            let ghost old_entries = entries@;
            let ghost old_index = index@;
            let ghost old_overflow = overflow@;
            let fp = current.fingerprint();
            entries.push(current);
            if index.contains_key(&fp) {
                overflow.push(j as usize);
                proof {
                    assert(overflow@[old_overflow.len() as int] == j);
                    assert forall|k: int| 0 <= k < entries@.len() implies #[trigger] is_indexed(
                        entries@,
                        index@,
                        overflow@,
                        k,
                    ) by {
                        if k < j {
                            assert(is_indexed(old_entries, old_index, old_overflow, k));
                            assert(entries@[k] == old_entries[k]);
                            if !(old_index.contains_key(old_entries[k].spec_fingerprint())
                                && old_index[old_entries[k].spec_fingerprint()] == k) {
                                let w = choose|w: int|
                                    0 <= w < old_overflow.len() && #[trigger] old_overflow[w] == k;
                                assert(overflow@[w] == k);
                            }
                        }
                    }
                }
            } else {
                index.insert(fp, j as usize);
                proof {
                    assert forall|k: int| 0 <= k < entries@.len() implies #[trigger] is_indexed(
                        entries@,
                        index@,
                        overflow@,
                        k,
                    ) by {
                        if k < j {
                            assert(is_indexed(old_entries, old_index, old_overflow, k));
                            assert(entries@[k] == old_entries[k]);
                        }
                    }
                }
            }
            proof {
                lemma_mul_mod_successor(j as int, t);
                assert forall|k: int| 0 <= k < entries@.len() implies (#[trigger] entries@[k]).wf()
                    && entries@[k].exponent() == mul_mod(k, t) by {
                    if k < j {
                        assert(entries@[k] == old_entries[k]);
                    }
                }
            }
            current = element_add(&current, base);
            j = j + 1;
        }
        Some(BabyStepGiantStep { base: *base, entries, index, overflow, stride: current })
    }

    /// The entry that is a given element, if there is one.
    fn lookup(&self, y: &GroupElement) -> (r: Option<usize>)
        ensures
            r is Some ==> r->0 < self.steps() && self.entries@[r->0 as int] == *y,
            r is None ==> forall|j: int| 0 <= j < self.steps() ==> self.entries@[j] != *y,
    {
        broadcast use vstd::std_specs::hash::group_hash_axioms;

        proof {
            use_type_invariant(self);
            use_type_invariant(y);
        }
        let fp = y.fingerprint();
        match self.index.get(&fp) {
            Some(j) => {
                if self.entries[*j].same(y) {
                    return Some(*j);
                }
            },
            None => {},
        }
        let mut k: usize = 0;
        while k < self.overflow.len()
            invariant
                k <= self.overflow@.len(),
                self.wf(),
                forall|w: int| 0 <= w < k ==> self.entries@[(#[trigger] self.overflow@[w]) as int] != *y,
            decreases self.overflow@.len() - k,
        {
            let j = self.overflow[k];
            if self.entries[j].same(y) {
                return Some(j);
            }
            k = k + 1;
        }
        proof {
            assert forall|j: int| 0 <= j < self.steps() implies self.entries@[j] != *y by {
                if self.entries@[j] == *y {
                    assert(is_indexed(self.entries@, self.index@, self.overflow@, j));
                    if self.index@.contains_key(fp) && self.index@[fp] == j {
                        assert(false);
                    } else {
                        let w = choose|w: int|
                            0 <= w < self.overflow@.len() && #[trigger] self.overflow@[w] == j;
                        assert(self.entries@[self.overflow@[w] as int] != *y);
                    }
                }
            }
        }
        None
    }

    /// The logarithm of an element to the base of the table, if it lies
    /// within the range of the table: the search takes one giant stride
    /// off the element for every round in which the table does not hold it.
    pub fn discrete_log(&self, y: &GroupElement) -> (r: Option<u64>)
        ensures
            holds_log(r, log_below(self.generator_exponent(), y.exponent(), self.range())),
    {
        proof {
            use_type_invariant(self);
            use_type_invariant(y);
            self.lemma_table_bounds();
        }
        let m = self.entries.len();
        let ghost t = self.base.exponent();
        let ghost e = y.exponent();
        let mut current = *y;
        let mut i: usize = 0;
        proof {
            assert(0 * (m * t) == 0) by (nonlinear_arith);
            crate::modular::lemma_reduced_is_fixed(e);
            assert(0 * m == 0) by (nonlinear_arith);
        }
        while i < m
            invariant
                self.wf(),
                y.wf(),
                m == self.entries@.len(),
                t == self.base.exponent(),
                e == y.exponent(),
                i <= m,
                current.wf(),
                current.exponent() == sub_mod(e, i * (m * t)),
                forall|x: int| 0 <= x < i * m ==> !#[trigger] is_log(t, e, x),
            decreases m - i,
        {
            match self.lookup(&current) {
                Some(j) => {
                    proof {
                        assert(0 <= i * m && i * m + j < m * m <= 0x1_0000_0000) by (nonlinear_arith)
                            requires
                                0 <= i < m,
                                0 <= j < m,
                                m <= 65536,
                        ;
                    }
                    let found = (i as u64) * (m as u64) + (j as u64);
                    proof {
                        lemma_stride_match(e, t, m as int, i as int, j as int);
                        assert(is_log(t, e, i * m + j));
                        lemma_log_is_unique(t, e, self.range(), i * m + j);
                    }
                    return Some(found);
                },
                None => {
                    proof {
                        assert forall|x: int| 0 <= x < (i + 1) * m implies !#[trigger] is_log(
                            t,
                            e,
                            x,
                        ) by {
                            if x >= i * m {
                                let j = x - i * m;
                                assert((i + 1) * m == i * m + m) by (nonlinear_arith);
                                lemma_stride_match(e, t, m as int, i as int, j);
                                if is_log(t, e, x) {
                                    assert(self.entries@[j].exponent() == current.exponent());
                                    lemma_element_equal(self.entries@[j], current);
                                    assert(false);
                                }
                            }
                        }
                    }
                },
            }
            proof {
                lemma_stride_step(e, t, m as int, i as int);
            }
            current = element_sub(&current, &self.stride);
            i = i + 1;
        }
        proof {
            assert(i * m == self.range());
        }
        None
    }

    /// The exponent of the message of a ciphertext, if it lies within the
    /// range of the table.
    pub fn decrypt_exponent(&self, sk: &SecretKey, c: &Cipher) -> (r: Option<u64>)
        ensures
            holds_log(
                r,
                log_below(
                    self.generator_exponent(),
                    message_exponent(c@, sk.scalar.value()),
                    self.range(),
                ),
            ),
    {
        let shared = element_scale(&c.blinding, &sk.scalar);
        let message = element_sub(&c.payload, &shared);
        self.discrete_log(&message)
    }
}

/// To the base of a unit there is at most one logarithm below the group
/// order, so a logarithm within a range is the logarithm of that range.
pub proof fn lemma_log_is_unique(t: int, e: int, bound: int, x: int)
    requires
        is_unit(t),
        0 <= x < bound <= group_order(),
        is_log(t, e, x),
    ensures
        log_below(t, e, bound) == Some(x),
{
    let y = choose|y: int| 0 <= y < bound && #[trigger] is_log(t, e, y);
    lemma_unit_cancels(t, x, y);
}

/// Decrypts an amount with a table for the generator in whose exponent
/// amounts are encrypted. It fails where a half of the amount is not within
/// the range of the table, as with a ciphertext made for another key.
pub fn decrypt_amount(table: &BabyStepGiantStep, sk: &SecretKey, amount: &EncryptedAmount) -> (r:
    Result<u64, WalletError>)
    ensures
        holds_amount(
            r,
            decrypted_amount(
                table.generator_exponent(),
                table.steps(),
                sk.scalar.value(),
                amount@,
            ),
        ),
{
    proof {
        use_type_invariant(table);
        table.lemma_table_bounds();
    }
    let low = table.decrypt_exponent(sk, &amount.low);
    let high = table.decrypt_exponent(sk, &amount.high);
    match (low, high) {
        (Some(l), Some(h)) => {
            proof {
                let t = table.generator_exponent();
                let s = sk.scalar.value();
                let bound = table.range();
                lemma_log_in_range(t, message_exponent(amount@.low, s), bound);
                lemma_log_in_range(t, message_exponent(amount@.high, s), bound);
            }
            Ok(h * HALF_WEIGHT + l)
        },
        _ => Err(WalletError::DecryptionRangeError),
    }
}

/// The logarithm of a range lies in that range, and is a logarithm.
pub proof fn lemma_log_in_range(t: int, e: int, bound: int)
    requires
        log_below(t, e, bound) is Some,
    ensures
        0 <= log_below(t, e, bound)->0 < bound,
        is_log(t, e, log_below(t, e, bound)->0),
{
}

} // verus!
