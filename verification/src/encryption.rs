//! What it is for a ciphertext to encrypt a value, and what follows from it
//! for aggregation and decryption.

use crate::amount::{aggregated, combined, plain_encryption, AmountModel, CipherModel, HALF_WEIGHT};
use crate::dlog::{
    decrypted_amount, is_log, lemma_log_is_unique, log_below, message_exponent, MAX_STEPS,
};
use crate::error::WalletError;
use crate::group::is_unit;
use crate::modular::{add_mod, lemma_mul_mod_commutes, lemma_unit_cancels, sub_mod};
use crate::scalar::{group_order, mul_mod};
use vstd::arithmetic::div_mod::{
    lemma_add_mod_noop, lemma_mod_equivalence, lemma_mul_mod_noop_left, lemma_mul_mod_noop_right,
    lemma_small_mod, lemma_sub_mod_noop,
};
use vstd::prelude::*;

verus! {

/// What a public key is to the contracts: the exponents of its generator
/// and of the key itself.
pub struct KeyModel {
    pub generator: int,
    pub key: int,
}

/// The public key of a secret: the generator raised to it.
pub open spec fn public_key_of(generator: int, secret: int) -> KeyModel {
    KeyModel { generator, key: mul_mod(generator, secret) }
}

/// The ciphertext of a value in the exponent of the base of exponent `t`,
/// under a public key and with blinding `k`.
pub open spec fn blinded(pk: KeyModel, t: int, value: int, k: int) -> CipherModel {
    CipherModel {
        blinding: mul_mod(k, pk.generator),
        payload: add_mod(mul_mod(k, pk.key), mul_mod(value, t)),
    }
}

/// A ciphertext encrypts a value under a public key, with some blinding.
pub open spec fn is_encryption(c: CipherModel, pk: KeyModel, t: int, value: int) -> bool {
    exists|k: int| #[trigger] blinded(pk, t, value, k) == c
}

/// An encrypted amount encrypts the two given halves under a public key.
pub open spec fn encrypts_halves(a: AmountModel, pk: KeyModel, t: int, low: int, high: int)
    -> bool {
    is_encryption(a.low, pk, t, low) && is_encryption(a.high, pk, t, high)
}

/// An encrypted amount encrypts an amount under a public key: its low 32
/// bits in one ciphertext, its high 32 bits in the other.
pub open spec fn encrypts_amount(a: AmountModel, pk: KeyModel, t: int, amount: int) -> bool {
    encrypts_halves(a, pk, t, amount % (HALF_WEIGHT as int), amount / (HALF_WEIGHT as int))
}

/// The message of an encryption under the public key of a secret is the
/// base raised to the value.
pub proof fn lemma_message_of_encryption(
    c: CipherModel,
    generator: int,
    secret: int,
    t: int,
    value: int,
)
    requires
        is_encryption(c, public_key_of(generator, secret), t, value),
    ensures
        message_exponent(c, secret) == mul_mod(value, t),
{
    let r = group_order();
    let pk = public_key_of(generator, secret);
    let k = choose|k: int| #[trigger] blinded(pk, t, value, k) == c;
    let kg = k * generator;
    let shared = kg * secret;
    // the payload is congruent to shared + value * t
    lemma_mul_mod_noop_right(k, generator * secret, r);
    assert(k * (generator * secret) == shared) by (nonlinear_arith)
        requires
            kg == k * generator,
            shared == kg * secret,
    ;
    lemma_add_mod_noop(k * pk.key, value * t, r);
    assert(c.payload == (mul_mod(k, pk.key) + mul_mod(value, t)) % r);
    assert(c.payload == (shared % r + (value * t) % r) % r);
    lemma_add_mod_noop(shared, value * t, r);
    assert(c.payload == (shared + value * t) % r);
    // the blinding raised to the secret is congruent to shared
    lemma_mul_mod_noop_left(kg, secret, r);
    assert(mul_mod(c.blinding, secret) == shared % r);
    lemma_sub_mod_noop(shared + value * t, shared, r);
    lemma_small_mod(((value * t) % r) as nat, r as nat);
}

/// An encryption without blinding is an encryption under any public key.
pub proof fn lemma_plain_encryption_encrypts(pk: KeyModel, t: int, amount: u64)
    ensures
        encrypts_amount(plain_encryption(t, amount), pk, t, amount as int),
{
    let r = group_order();
    let w = HALF_WEIGHT as int;
    let a = amount as int;
    assert(0 * pk.generator == 0) by (nonlinear_arith);
    assert(0 * pk.key == 0) by (nonlinear_arith);
    lemma_mul_mod_commutes(t, a % w);
    lemma_mul_mod_commutes(t, a / w);
    lemma_small_mod(mul_mod(a % w, t) as nat, r as nat);
    lemma_small_mod(mul_mod(a / w, t) as nat, r as nat);
    assert(blinded(pk, t, a % w, 0) == plain_encryption(t, amount).low);
    assert(blinded(pk, t, a / w, 0) == plain_encryption(t, amount).high);
}

/// Combining the encryptions of two values gives an encryption of their
/// sum.
pub proof fn lemma_combined_encrypts_sum(
    a: CipherModel,
    b: CipherModel,
    pk: KeyModel,
    t: int,
    x: int,
    y: int,
)
    requires
        is_encryption(a, pk, t, x),
        is_encryption(b, pk, t, y),
    ensures
        is_encryption(combined(a, b), pk, t, x + y),
{
    let r = group_order();
    let ka = choose|k: int| #[trigger] blinded(pk, t, x, k) == a;
    let kb = choose|k: int| #[trigger] blinded(pk, t, y, k) == b;
    let k = ka + kb;
    assert((ka + kb) * pk.generator == ka * pk.generator + kb * pk.generator) by (nonlinear_arith);
    assert((ka + kb) * pk.key == ka * pk.key + kb * pk.key) by (nonlinear_arith);
    assert((x + y) * t == x * t + y * t) by (nonlinear_arith);
    lemma_add_mod_noop(ka * pk.generator, kb * pk.generator, r);
    lemma_add_mod_noop(ka * pk.key, kb * pk.key, r);
    lemma_add_mod_noop(x * t, y * t, r);
    lemma_add_mod_noop(ka * pk.key, x * t, r);
    lemma_add_mod_noop(kb * pk.key, y * t, r);
    lemma_add_mod_noop(ka * pk.key + x * t, kb * pk.key + y * t, r);
    lemma_add_mod_noop(k * pk.key, (x + y) * t, r);
    assert(blinded(pk, t, x + y, k) == combined(a, b));
}

/// Aggregating the encryptions of two pairs of halves gives an encryption
/// of the sums of the halves.
pub proof fn lemma_aggregate_encrypts_sums(
    a: AmountModel,
    b: AmountModel,
    pk: KeyModel,
    t: int,
    low_a: int,
    high_a: int,
    low_b: int,
    high_b: int,
)
    requires
        encrypts_halves(a, pk, t, low_a, high_a),
        encrypts_halves(b, pk, t, low_b, high_b),
    ensures
        encrypts_halves(aggregated(a, b), pk, t, low_a + low_b, high_a + high_b),
{
    lemma_combined_encrypts_sum(a.low, b.low, pk, t, low_a, low_b);
    lemma_combined_encrypts_sum(a.high, b.high, pk, t, high_a, high_b);
}

/// Decryption recovers the halves that were encrypted, where the table
/// reaches them: a table for a base that generates the group decrypts an
/// encryption under the public key of a secret to the halves put together
/// if both are within its range, and fails if one is not.
pub proof fn lemma_decryption_recovers_halves(
    a: AmountModel,
    generator: int,
    secret: int,
    t: int,
    steps: int,
    low: int,
    high: int,
)
    requires
        is_unit(t),
        0 < steps <= MAX_STEPS,
        0 <= low < group_order(),
        0 <= high < group_order(),
        encrypts_halves(a, public_key_of(generator, secret), t, low, high),
    ensures
        decrypted_amount(t, steps, secret, a) == if low < steps * steps && high < steps * steps {
            Ok::<int, WalletError>(high * (HALF_WEIGHT as int) + low)
        } else {
            Err::<int, WalletError>(WalletError::DecryptionRangeError)
        },
{
    assert(0 < steps * steps <= 0x1_0000_0000) by (nonlinear_arith)
        requires
            0 < steps <= 65536,
    ;
    lemma_message_of_encryption(a.low, generator, secret, t, low);
    lemma_message_of_encryption(a.high, generator, secret, t, high);
    lemma_log_of_multiple(t, steps * steps, low);
    lemma_log_of_multiple(t, steps * steps, high);
}

/// The logarithm of the base raised to `x`, within a range: `x` if the
/// range holds it, and none otherwise.
pub proof fn lemma_log_of_multiple(t: int, bound: int, x: int)
    requires
        is_unit(t),
        0 <= x < group_order(),
        0 <= bound <= group_order(),
    ensures
        log_below(t, mul_mod(x, t), bound) == if x < bound {
            Some(x)
        } else {
            None::<int>
        },
{
    let e = mul_mod(x, t);
    assert(is_log(t, e, x));
    if x < bound {
        lemma_log_is_unique(t, e, bound, x);
    } else if log_below(t, e, bound) is Some {
        let y = log_below(t, e, bound)->0;
        assert(0 <= y < bound && is_log(t, e, y));
        lemma_unit_cancels(t, x, y);
    }
}

/// Encrypting and then decrypting gives back the amount: a table of the
/// full size decrypts every encryption of every 64-bit amount under the
/// public key of the secret.
pub proof fn lemma_decryption_inverts_encryption(
    a: AmountModel,
    generator: int,
    secret: int,
    t: int,
    amount: u64,
)
    requires
        is_unit(t),
        encrypts_amount(a, public_key_of(generator, secret), t, amount as int),
    ensures
        decrypted_amount(t, MAX_STEPS as int, secret, a) == Ok::<int, WalletError>(amount as int),
{
    let w = HALF_WEIGHT as int;
    let v = amount as int;
    lemma_decryption_recovers_halves(a, generator, secret, t, MAX_STEPS as int, v % w, v / w);
}

/// Encrypting without blinding and then decrypting gives back the amount,
/// whatever the secret.
pub proof fn lemma_decryption_inverts_plain_encryption(secret: int, t: int, amount: u64)
    requires
        is_unit(t),
    ensures
        decrypted_amount(t, MAX_STEPS as int, secret, plain_encryption(t, amount)) == Ok::<
            int,
            WalletError,
        >(amount as int),
{
    lemma_plain_encryption_encrypts(public_key_of(0, secret), t, amount);
    lemma_decryption_inverts_encryption(plain_encryption(t, amount), 0, secret, t, amount);
}

/// What an encryption of an amount decrypts to with a table of a given
/// size: the amount if both of its halves are within the range of the
/// table, and nothing otherwise.
pub proof fn lemma_decryption_of_encryption(
    a: AmountModel,
    generator: int,
    secret: int,
    t: int,
    steps: int,
    amount: u64,
)
    requires
        is_unit(t),
        0 < steps <= MAX_STEPS,
        encrypts_amount(a, public_key_of(generator, secret), t, amount as int),
    ensures
        decrypted_amount(t, steps, secret, a) == if (amount as int) % 0x1_0000_0000 < steps * steps
            && (amount as int) / 0x1_0000_0000 < steps * steps {
            Ok::<int, WalletError>(amount as int)
        } else {
            Err::<int, WalletError>(WalletError::DecryptionRangeError)
        },
{
    let v = amount as int;
    lemma_decryption_recovers_halves(
        a,
        generator,
        secret,
        t,
        steps,
        v % 0x1_0000_0000,
        v / 0x1_0000_0000,
    );
}

/// The aggregate of two encrypted amounts decrypts to the sum of what they
/// encrypt, half by half, where the sums of the halves are within the
/// range of the table.
pub proof fn lemma_aggregate_decrypts_to_sum(
    a: AmountModel,
    b: AmountModel,
    generator: int,
    secret: int,
    t: int,
    steps: int,
    x: u64,
    y: u64,
)
    requires
        is_unit(t),
        0 < steps <= MAX_STEPS,
        encrypts_amount(a, public_key_of(generator, secret), t, x as int),
        encrypts_amount(b, public_key_of(generator, secret), t, y as int),
        (x as int) % 0x1_0000_0000 + (y as int) % 0x1_0000_0000 < steps * steps,
        (x as int) / 0x1_0000_0000 + (y as int) / 0x1_0000_0000 < steps * steps,
    ensures
        decrypted_amount(t, steps, secret, aggregated(a, b)) == Ok::<int, WalletError>(x + y),
{
    let w = 0x1_0000_0000int;
    let pk = public_key_of(generator, secret);
    lemma_aggregate_encrypts_sums(
        a,
        b,
        pk,
        t,
        (x as int) % w,
        (x as int) / w,
        (y as int) % w,
        (y as int) / w,
    );
    lemma_decryption_recovers_halves(
        aggregated(a, b),
        generator,
        secret,
        t,
        steps,
        (x as int) % w + (y as int) % w,
        (x as int) / w + (y as int) / w,
    );
}

/// Aggregates of three amounts decrypt alike, whichever two were combined
/// first.
pub proof fn lemma_nesting_decrypts_alike(
    a: AmountModel,
    b: AmountModel,
    c: AmountModel,
    t: int,
    steps: int,
    secret: int,
)
    ensures
        decrypted_amount(t, steps, secret, aggregated(a, aggregated(b, c))) == decrypted_amount(
            t,
            steps,
            secret,
            aggregated(aggregated(a, b), c),
        ),
{
    crate::amount::lemma_aggregate_associates(a, b, c);
}

} // verus!
