//! Transfers between the public and the encrypted balance of an account,
//! and between the encrypted balances of two accounts.
//!
//! Each operation folds the incoming amounts into the amount of the
//! account, decrypts what it needs, and returns what goes to the chain
//! together with the decrypted remaining balance. The proofs that a
//! transfer carries are made by `concordium_base`; this library hands them
//! on as bytes.

use crate::amount::{
    aggregate, aggregate_all, aggregated, encrypt_amount_with_fixed_randomness, folded,
    is_amount_encoding, plain_encryption, AmountModel, EncryptedAmount, AMOUNT_LENGTH,
};
use crate::bytes::{append_all, be_value, u64_from_be, u64_to_be};
use crate::context::{announced_generators, is_framed, GlobalContext};
use crate::dlog::{
    decrypt_amount, decrypted_amount, BabyStepGiantStep, SecretKey, MAX_STEPS,
};
use crate::encryption::{
    encrypts_amount, lemma_decryption_of_encryption, public_key_of, KeyModel,
};
use crate::error::WalletError;
use crate::group::GroupElement;
use crate::prf::{prf_is_degenerate, prf_value, PrfKey};
use concordium_base::common::from_bytes;
use concordium_base::common::to_bytes;
use concordium_base::common::types::Amount;
use concordium_base::encrypted_transfers::make_sec_to_pub_transfer_data;
use concordium_base::encrypted_transfers::make_transfer_data;
use pairing::bls12_381::G1;
use rand::thread_rng;
use vstd::prelude::*;

verus! {

/// Number of bytes before the proof in the encoding of a transfer to the
/// public balance: the remaining amount, the amount, and the index.
pub const SEC_TO_PUB_HEADER: usize = 208;

/// Number of bytes before the proof in the encoding of an encrypted
/// transfer: the remaining amount, the amount sent, and the index.
pub const TRANSFER_HEADER: usize = 392;

/// The number of pairs of generators that the range proofs of an encrypted
/// transfer take from the parameters of the chain: one for each bit of an
/// amount.
pub const TRANSFER_GENERATORS: u32 = 64;

/// An ElGamal public key, with its generator.
#[derive(Clone, Copy, Debug)]
pub struct PublicKey {
    pub generator: GroupElement,
    pub key: GroupElement,
}

impl View for PublicKey {
    type V = KeyModel;

    open spec fn view(&self) -> KeyModel {
        KeyModel { generator: self.generator.exponent(), key: self.key.exponent() }
    }
}

impl PublicKey {
    /// The 96 bytes that encode the key: the generator, then the key.
    pub fn to_bytes(&self) -> (r: Vec<u8>)
        ensures
            r@ == self.generator.encoding() + self.key.encoding(),
    {
        let mut out = self.generator.to_bytes();
        let mut tail = self.key.to_bytes();
        out.append(&mut tail);
        out
    }
}

/// The sum of the amounts up to an index, under encryption and in the
/// clear.
#[derive(Clone, Copy, Debug)]
pub struct AggregatedDecryptedAmount {
    pub agg_encrypted_amount: EncryptedAmount,
    pub agg_amount: u64,
    pub agg_index: u64,
}

impl AggregatedDecryptedAmount {
    /// The 208 bytes that encode the value: the encrypted amount, then the
    /// amount and the index, each in eight bytes.
    pub fn to_bytes(&self) -> (r: Vec<u8>)
        ensures
            r@.len() == SEC_TO_PUB_HEADER,
            r@.subrange(0, AMOUNT_LENGTH as int) == self.agg_encrypted_amount.encoding(),
            be_value(r@.subrange(192, 200)) == self.agg_amount,
            be_value(r@.subrange(200, 208)) == self.agg_index,
    {
        let mut out = self.agg_encrypted_amount.to_bytes();
        let mut amount = u64_to_be(self.agg_amount);
        let mut index = u64_to_be(self.agg_index);
        let ghost head = out@;
        let ghost a = amount@;
        let ghost i = index@;
        out.append(&mut amount);
        out.append(&mut index);
        proof {
            assert(out@ =~= head + a + i);
            assert(out@.subrange(0, 192) =~= head);
            assert(out@.subrange(192, 200) =~= a);
            assert(out@.subrange(200, 208) =~= i);
        }
        out
    }
}

/// What goes to the chain for a transfer from the encrypted to the public
/// balance.
#[derive(Debug)]
pub struct SecToPubAmountTransferData {
    /// The encrypted balance that remains.
    pub remaining_amount: EncryptedAmount,
    /// The amount that becomes public.
    pub transfer_amount: u64,
    /// The index up to which incoming amounts were used.
    pub index: u64,
    /// The proof that the transfer is well-formed, as it is encoded.
    pub proof: Vec<u8>,
}

impl SecToPubAmountTransferData {
    /// The transfer that a byte string encodes, if it starts with the
    /// encoding of an encrypted amount and two numbers of eight bytes.
    pub fn from_bytes(bytes: &[u8]) -> (r: Option<SecToPubAmountTransferData>)
        ensures
            r is Some <==> bytes@.len() >= SEC_TO_PUB_HEADER && is_amount_encoding(
                bytes@.subrange(0, AMOUNT_LENGTH as int),
            ),
            r is Some ==> {
                &&& r->0.remaining_amount.encoding() == bytes@.subrange(0, AMOUNT_LENGTH as int)
                &&& r->0.transfer_amount == be_value(bytes@.subrange(192, 200))
                &&& r->0.index == be_value(bytes@.subrange(200, 208))
                &&& r->0.proof@ == bytes@.subrange(SEC_TO_PUB_HEADER as int, bytes@.len() as int)
            },
    {
        if bytes.len() < SEC_TO_PUB_HEADER {
            return None;
        }
        let head = vstd::slice::slice_subrange(bytes, 0, AMOUNT_LENGTH);
        match EncryptedAmount::from_bytes(head) {
            None => None,
            Some(remaining_amount) => {
                let transfer_amount = u64_from_be(vstd::slice::slice_subrange(bytes, 192, 200));
                let index = u64_from_be(vstd::slice::slice_subrange(bytes, 200, 208));
                let proof = vstd::slice::slice_to_vec(
                    vstd::slice::slice_subrange(bytes, SEC_TO_PUB_HEADER, bytes.len()),
                );
                Some(SecToPubAmountTransferData { remaining_amount, transfer_amount, index, proof })
            },
        }
    }

    /// The bytes that encode the transfer: the remaining amount, the
    /// amount and the index in eight bytes each, and the proof.
    pub fn to_bytes(&self) -> (r: Vec<u8>)
        ensures
            r@.len() == SEC_TO_PUB_HEADER + self.proof@.len(),
            r@.subrange(0, AMOUNT_LENGTH as int) == self.remaining_amount.encoding(),
            be_value(r@.subrange(192, 200)) == self.transfer_amount,
            be_value(r@.subrange(200, 208)) == self.index,
            r@.subrange(SEC_TO_PUB_HEADER as int, r@.len() as int) == self.proof@,
    {
        let mut out = self.remaining_amount.to_bytes();
        let mut amount = u64_to_be(self.transfer_amount);
        let mut index = u64_to_be(self.index);
        let ghost head = out@;
        let ghost a = amount@;
        let ghost i = index@;
        out.append(&mut amount);
        out.append(&mut index);
        append_all(&mut out, &self.proof);
        proof {
            assert(out@ =~= head + a + i + self.proof@);
            assert(out@.subrange(0, 192) =~= head);
            assert(out@.subrange(192, 200) =~= a);
            assert(out@.subrange(200, 208) =~= i);
            assert(out@.subrange(208, out@.len() as int) =~= self.proof@);
        }
        out
    }
}

/// What goes to the chain for a transfer between encrypted balances.
#[derive(Debug)]
pub struct EncryptedAmountTransferData {
    /// The encrypted balance that remains with the sender.
    pub remaining_amount: EncryptedAmount,
    /// The amount sent, encrypted for the receiver.
    pub transfer_amount: EncryptedAmount,
    /// The index up to which incoming amounts were used.
    pub index: u64,
    /// The proof that the transfer is well-formed, as it is encoded.
    pub proof: Vec<u8>,
}

impl EncryptedAmountTransferData {
    /// The transfer that a byte string encodes, if it starts with the
    /// encodings of two encrypted amounts and a number of eight bytes.
    pub fn from_bytes(bytes: &[u8]) -> (r: Option<EncryptedAmountTransferData>)
        ensures
            r is Some <==> bytes@.len() >= TRANSFER_HEADER && is_amount_encoding(
                bytes@.subrange(0, AMOUNT_LENGTH as int),
            ) && is_amount_encoding(bytes@.subrange(AMOUNT_LENGTH as int, 384)),
            r is Some ==> {
                &&& r->0.remaining_amount.encoding() == bytes@.subrange(0, AMOUNT_LENGTH as int)
                &&& r->0.transfer_amount.encoding() == bytes@.subrange(AMOUNT_LENGTH as int, 384)
                &&& r->0.index == be_value(bytes@.subrange(384, 392))
                &&& r->0.proof@ == bytes@.subrange(TRANSFER_HEADER as int, bytes@.len() as int)
            },
    {
        if bytes.len() < TRANSFER_HEADER {
            return None;
        }
        let first = vstd::slice::slice_subrange(bytes, 0, AMOUNT_LENGTH);
        let second = vstd::slice::slice_subrange(bytes, AMOUNT_LENGTH, 384);
        match (EncryptedAmount::from_bytes(first), EncryptedAmount::from_bytes(second)) {
            (Some(remaining_amount), Some(transfer_amount)) => {
                let index = u64_from_be(vstd::slice::slice_subrange(bytes, 384, 392));
                let proof = vstd::slice::slice_to_vec(
                    vstd::slice::slice_subrange(bytes, TRANSFER_HEADER, bytes.len()),
                );
                Some(
                    EncryptedAmountTransferData { remaining_amount, transfer_amount, index, proof },
                )
            },
            _ => None,
        }
    }

    /// The bytes that encode the transfer: the remaining amount, the
    /// amount sent, the index in eight bytes, and the proof.
    pub fn to_bytes(&self) -> (r: Vec<u8>)
        ensures
            r@.len() == TRANSFER_HEADER + self.proof@.len(),
            r@.subrange(0, AMOUNT_LENGTH as int) == self.remaining_amount.encoding(),
            r@.subrange(AMOUNT_LENGTH as int, 384) == self.transfer_amount.encoding(),
            be_value(r@.subrange(384, 392)) == self.index,
            r@.subrange(TRANSFER_HEADER as int, r@.len() as int) == self.proof@,
    {
        let mut out = self.remaining_amount.to_bytes();
        let mut sent = self.transfer_amount.to_bytes();
        let mut index = u64_to_be(self.index);
        let ghost head = out@;
        let ghost a = sent@;
        let ghost i = index@;
        out.append(&mut sent);
        out.append(&mut index);
        append_all(&mut out, &self.proof);
        proof {
            assert(out@ =~= head + a + i + self.proof@);
            assert(out@.subrange(0, 192) =~= head);
            assert(out@.subrange(192, 384) =~= a);
            assert(out@.subrange(384, 392) =~= i);
            assert(out@.subrange(392, out@.len() as int) =~= self.proof@);
        }
        out
    }
}

/// What a transfer to the public balance returns.
#[derive(Debug)]
pub struct SecToPubResponse {
    pub payload: SecToPubAmountTransferData,
    pub decrypted_remaining: u64,
}

/// What a transfer to the encrypted balance returns.
#[derive(Clone, Copy, Debug)]
pub struct PubToSecResponse {
    pub new_self_encrypted_amount: EncryptedAmount,
    pub decrypted_remaining: u64,
}

/// What a transfer between encrypted balances returns.
#[derive(Debug)]
pub struct EncryptedTransferResponse {
    pub payload: EncryptedAmountTransferData,
    pub remaining: EncryptedAmount,
    pub decrypted_remaining: u64,
}

/// Calls `make_sec_to_pub_transfer_data` of `concordium_base`'s
/// `encrypted_transfers` with the generator of random numbers of the
/// thread. The blinding and the proof differ from call to call; the
/// contract states what the source shows of every payload that comes back:
/// it comes back only where the balance covers the amount, names the
/// amount and the index that went in, and its remaining amount encrypts the
/// difference under the public key of the sender. Reading the parameters
/// allocates as many bytes as the genesis string announces, so the
/// remainder must hold what it announces.
#[verifier::external_body]
fn request_sec_to_pub_payload(
    ctx: &GlobalContext,
    sk: &SecretKey,
    input: &AggregatedDecryptedAmount,
    to_transfer: u64,
) -> (r: Option<SecToPubAmountTransferData>)
    requires
        is_framed(ctx.remainder@),
    ensures
        r is Some ==> {
            &&& input.agg_amount >= to_transfer
            &&& r->0.transfer_amount == to_transfer
            &&& r->0.index == input.agg_index
            &&& r->0.remaining_amount.wf()
            &&& encrypts_amount(
                r->0.remaining_amount@,
                public_key_of(sk.generator.exponent(), sk.scalar.value()),
                ctx.on_chain_commitment_key.h.exponent(),
                input.agg_amount - to_transfer,
            )
        },
{
    let context = from_bytes(&mut ctx.to_bytes().as_slice()).ok()?;
    let secret = from_bytes(&mut sk.to_bytes().as_slice()).ok()?;
    let balance = from_bytes(&mut input.to_bytes().as_slice()).ok()?;
    let amount = Amount::from_micro_ccd(to_transfer);
    let data = make_sec_to_pub_transfer_data::<G1, _>(
        &context,
        &secret,
        &balance,
        amount,
        &mut thread_rng(),
    )?;
    SecToPubAmountTransferData::from_bytes(&to_bytes(&data))
}

/// Calls `make_transfer_data` of `concordium_base`'s `encrypted_transfers`
/// with the generator of random numbers of the thread. The blinding and the
/// proof differ from call to call; the contract states what the source
/// shows of every payload that comes back: it comes back only where the
/// balance covers the amount, names the index that went in, its remaining
/// amount encrypts the difference under the public key of the sender, and
/// its transfer amount encrypts the amount under the key of the receiver.
/// The call takes the first 64 pairs of generators and panics where the
/// parameters hold fewer, and reading the parameters allocates as many
/// bytes as the genesis string announces: the remainder must announce 64
/// pairs at least and hold what it announces.
#[verifier::external_body]
fn request_transfer_payload(
    ctx: &GlobalContext,
    receiver: &PublicKey,
    sk: &SecretKey,
    input: &AggregatedDecryptedAmount,
    to_transfer: u64,
) -> (r: Option<EncryptedAmountTransferData>)
    requires
        ctx.remainder@.len() >= 4,
        be_value(ctx.remainder@.subrange(0, 4)) >= 64,
        is_framed(ctx.remainder@),
    ensures
        r is Some ==> {
            &&& input.agg_amount >= to_transfer
            &&& r->0.index == input.agg_index
            &&& r->0.remaining_amount.wf()
            &&& r->0.transfer_amount.wf()
            &&& encrypts_amount(
                r->0.remaining_amount@,
                public_key_of(sk.generator.exponent(), sk.scalar.value()),
                ctx.on_chain_commitment_key.h.exponent(),
                input.agg_amount - to_transfer,
            )
            &&& encrypts_amount(
                r->0.transfer_amount@,
                receiver@,
                ctx.on_chain_commitment_key.h.exponent(),
                to_transfer as int,
            )
        },
{
    let context = from_bytes(&mut ctx.to_bytes().as_slice()).ok()?;
    let to = from_bytes(&mut receiver.to_bytes().as_slice()).ok()?;
    let secret = from_bytes(&mut sk.to_bytes().as_slice()).ok()?;
    let balance = from_bytes(&mut input.to_bytes().as_slice()).ok()?;
    let amount = Amount::from_micro_ccd(to_transfer);
    let data = make_transfer_data::<G1, _>(
        &context,
        &to,
        &secret,
        &balance,
        amount,
        &mut thread_rng(),
    )?;
    EncryptedAmountTransferData::from_bytes(&to_bytes(&data))
}

/// The views of a list of encrypted amounts.
pub open spec fn models(amounts: Seq<EncryptedAmount>) -> Seq<AmountModel> {
    amounts.map_values(|a: EncryptedAmount| a@)
}

/// What decryption goes by: the exponent of the base of the table, the
/// number of its steps, and the secret.
pub struct Decryption {
    pub base: int,
    pub steps: int,
    pub secret: int,
}

/// What decryption goes by with a table and a secret key.
pub open spec fn decryption_with(table: BabyStepGiantStep, sk: SecretKey) -> Decryption {
    Decryption {
        base: table.generator_exponent(),
        steps: table.steps(),
        secret: sk.scalar.value(),
    }
}

/// What decryption goes by for an account of a wallet on a chain: a table
/// of the full size for the generator of the chain, and the secret of the
/// sub-account.
pub open spec fn decryption_of_account(ctx: GlobalContext, prf_key: PrfKey, account_number: u8)
    -> Decryption {
    Decryption {
        base: ctx.on_chain_commitment_key.h.exponent(),
        steps: MAX_STEPS as int,
        secret: prf_value(prf_key.scalar.value(), account_number),
    }
}

/// What an encrypted amount decrypts to.
pub open spec fn decrypts_to(d: Decryption, a: AmountModel) -> Result<int, WalletError> {
    decrypted_amount(d.base, d.steps, d.secret, a)
}

/// The balance of an account: what the amount of the account decrypts to
/// with the incoming amounts folded into it.
pub open spec fn balance_of(
    d: Decryption,
    incoming: Seq<EncryptedAmount>,
    self_amount: EncryptedAmount,
) -> Result<int, WalletError> {
    decrypts_to(d, folded(self_amount@, models(incoming)))
}

/// An amount is within what a table of `steps` steps decrypts: both of its
/// halves are below the range of the table.
pub open spec fn is_within(steps: int, amount: int) -> bool {
    amount % 0x1_0000_0000 < steps * steps && amount / 0x1_0000_0000 < steps * steps
}

/// The secret key of the account with the given number: the secret of the
/// sub-account, with the generator of the chain for public keys.
pub fn account_secret_key(ctx: &GlobalContext, prf_key: &PrfKey, account_number: u8) -> (r: Result<
    SecretKey,
    WalletError,
>)
    ensures
        prf_is_degenerate(prf_key.scalar.value(), account_number) <==> r is Err,
        r is Err ==> r->Err_0 == WalletError::PrfDomainError,
        r is Ok ==> r->Ok_0.generator == ctx.on_chain_commitment_key.g && r->Ok_0.scalar.value()
            == prf_value(prf_key.scalar.value(), account_number),
{
    match prf_key.prf_exponent(account_number) {
        Ok(scalar) => Ok(SecretKey { generator: *ctx.elgamal_generator(), scalar }),
        Err(e) => Err(e),
    }
}

/// The table of the full size for the generator in whose exponent the
/// chain encrypts amounts. Parameters whose generator is the neutral
/// element are no parameters of a chain.
pub fn decryption_table(ctx: &GlobalContext) -> (r: Result<BabyStepGiantStep, WalletError>)
    ensures
        ctx.on_chain_commitment_key.h.exponent() == 0 <==> r is Err,
        r is Err ==> r->Err_0 == WalletError::DecodingError,
        r is Ok ==> r->Ok_0.wf() && r->Ok_0.generator() == ctx.on_chain_commitment_key.h
            && r->Ok_0.steps() == MAX_STEPS,
{
    match BabyStepGiantStep::new(ctx.encryption_in_exponent_generator(), MAX_STEPS) {
        Some(table) => Ok(table),
        None => Err(WalletError::DecodingError),
    }
}

/// Folds the incoming amounts into the amount of the account and decrypts
/// the sum. The index is recorded as it was given.
pub fn aggregate_balance(
    table: &BabyStepGiantStep,
    sk: &SecretKey,
    incoming: &Vec<EncryptedAmount>,
    self_amount: &EncryptedAmount,
    agg_index: u64,
) -> (r: Result<AggregatedDecryptedAmount, WalletError>)
    ensures
        match balance_of(decryption_with(*table, *sk), incoming@, *self_amount) {
            Ok(b) => r is Ok && r->Ok_0.agg_amount == b && r->Ok_0.agg_index == agg_index
                && r->Ok_0.agg_encrypted_amount@ == folded(self_amount@, models(incoming@))
                && r->Ok_0.agg_encrypted_amount.wf(),
            Err(e) => r is Err && r->Err_0 == e,
        },
{
    let input_amount = aggregate_all(self_amount, incoming);
    match decrypt_amount(table, sk, &input_amount) {
        Ok(agg_amount) => Ok(
            AggregatedDecryptedAmount { agg_encrypted_amount: input_amount, agg_amount, agg_index },
        ),
        Err(e) => Err(e),
    }
}

/// Takes what the request for a payload returned, for a transfer to the
/// public balance, and adds the decrypted remaining balance. Without a
/// payload there is no transfer.
pub fn finish_sec_to_pub(
    table: &BabyStepGiantStep,
    sk: &SecretKey,
    payload: Option<SecToPubAmountTransferData>,
) -> (r: Result<SecToPubResponse, WalletError>)
    ensures
        match payload {
            None => r is Err && r->Err_0 == WalletError::ProofGenerationFailed,
            Some(p) => match decrypts_to(decryption_with(*table, *sk), p.remaining_amount@) {
                Ok(v) => r is Ok && r->Ok_0.payload == p && r->Ok_0.decrypted_remaining == v,
                Err(e) => r is Err && r->Err_0 == e,
            },
        },
{
    match payload {
        None => Err(WalletError::ProofGenerationFailed),
        Some(p) => match decrypt_amount(table, sk, &p.remaining_amount) {
            Ok(decrypted_remaining) => Ok(SecToPubResponse { payload: p, decrypted_remaining }),
            Err(e) => Err(e),
        },
    }
}

/// Takes what the request for a payload returned, for a transfer between
/// encrypted balances, and adds the remaining amount and what it decrypts
/// to. Without a payload there is no transfer.
pub fn finish_encrypted_transfer(
    table: &BabyStepGiantStep,
    sk: &SecretKey,
    payload: Option<EncryptedAmountTransferData>,
) -> (r: Result<EncryptedTransferResponse, WalletError>)
    ensures
        match payload {
            None => r is Err && r->Err_0 == WalletError::PayloadConstructionError,
            Some(p) => match decrypts_to(decryption_with(*table, *sk), p.remaining_amount@) {
                Ok(v) => r is Ok && r->Ok_0.payload == p && r->Ok_0.remaining == p.remaining_amount
                    && r->Ok_0.decrypted_remaining == v,
                Err(e) => r is Err && r->Err_0 == e,
            },
        },
{
    match payload {
        None => Err(WalletError::PayloadConstructionError),
        Some(p) => match decrypt_amount(table, sk, &p.remaining_amount) {
            Ok(decrypted_remaining) => {
                let remaining = p.remaining_amount;
                Ok(EncryptedTransferResponse { payload: p, remaining, decrypted_remaining })
            },
            Err(e) => Err(e),
        },
    }
}

/// The parameters of a chain hold what the range proofs of an encrypted
/// transfer take from them: the remainder holds what it announces, and it
/// announces 64 pairs of generators at least.
pub open spec fn holds_transfer_generators(remainder: Seq<u8>) -> bool {
    is_framed(remainder) && announced_generators(remainder)->0 >= TRANSFER_GENERATORS
}

/// What holds of a transfer out of the encrypted balance that succeeded:
/// the balance covered the amount, the payload names the index, the
/// remaining amount encrypts the balance less the amount under the public
/// key of the sender, and the decrypted remaining balance is what the
/// remaining amount decrypts to, which is the balance less the amount
/// where the table is one for the generator of the chain.
pub open spec fn is_spent(
    d: Decryption,
    sender: int,
    h: int,
    balance: Result<int, WalletError>,
    agg_index: u64,
    to_transfer: u64,
    remaining: EncryptedAmount,
    index: u64,
    decrypted_remaining: u64,
) -> bool {
    &&& balance is Ok
    &&& balance->Ok_0 >= to_transfer
    &&& index == agg_index
    &&& remaining.wf()
    &&& encrypts_amount(
        remaining@,
        public_key_of(sender, d.secret),
        h,
        balance->Ok_0 - to_transfer,
    )
    &&& decrypts_to(d, remaining@) == Ok::<int, WalletError>(decrypted_remaining as int)
    &&& d.base == h ==> decrypted_remaining == balance->Ok_0 - to_transfer
}

/// What holds of a transfer out of the encrypted balance that failed: the
/// balance could not be decrypted; or it does not cover the amount; or no
/// payload came back, as where the parameters of the chain do not hold what
/// the proofs take from them; or the remaining amount is not within what
/// the table decrypts.
pub open spec fn is_unspent(
    d: Decryption,
    h: int,
    balance: Result<int, WalletError>,
    to_transfer: u64,
    no_payload: WalletError,
    e: WalletError,
) -> bool {
    match balance {
        Err(b) => e == b,
        Ok(b) => if b < to_transfer {
            e == WalletError::InsufficientFunds
        } else {
            e == no_payload || (e == WalletError::DecryptionRangeError && !(d.base == h
                && is_within(d.steps, b - to_transfer)))
        },
    }
}

/// Builds a transfer from the encrypted to the public balance, with a
/// table at hand. It fails where the balance cannot be decrypted, with
/// `InsufficientFunds` where the balance does not cover the amount, and
/// with `ProofGenerationFailed` where the remainder of the parameters does
/// not hold what it announces.
pub fn create_sec_to_pub_with_table(
    table: &BabyStepGiantStep,
    ctx: &GlobalContext,
    sk: &SecretKey,
    incoming: &Vec<EncryptedAmount>,
    self_amount: &EncryptedAmount,
    agg_index: u64,
    to_transfer: u64,
) -> (r: Result<SecToPubResponse, WalletError>)
    ensures
        balance_of(decryption_with(*table, *sk), incoming@, *self_amount) is Err ==> r is Err,
        balance_of(decryption_with(*table, *sk), incoming@, *self_amount) is Ok && balance_of(
            decryption_with(*table, *sk),
            incoming@,
            *self_amount,
        )->Ok_0 < to_transfer ==> r is Err,
        r is Ok ==> r->Ok_0.payload.transfer_amount == to_transfer && is_spent(
            decryption_with(*table, *sk),
            sk.generator.exponent(),
            ctx.on_chain_commitment_key.h.exponent(),
            balance_of(decryption_with(*table, *sk), incoming@, *self_amount),
            agg_index,
            to_transfer,
            r->Ok_0.payload.remaining_amount,
            r->Ok_0.payload.index,
            r->Ok_0.decrypted_remaining,
        ),
        r is Err ==> is_unspent(
            decryption_with(*table, *sk),
            ctx.on_chain_commitment_key.h.exponent(),
            balance_of(decryption_with(*table, *sk), incoming@, *self_amount),
            to_transfer,
            WalletError::ProofGenerationFailed,
            r->Err_0,
        ),
        balance_of(decryption_with(*table, *sk), incoming@, *self_amount) is Ok && balance_of(
            decryption_with(*table, *sk),
            incoming@,
            *self_amount,
        )->Ok_0 >= to_transfer && !is_framed(ctx.remainder@) ==> r is Err && r->Err_0
            == WalletError::ProofGenerationFailed,
{
    let balance = match aggregate_balance(table, sk, incoming, self_amount, agg_index) {
        Ok(b) => b,
        Err(e) => {
            return Err(e);
        },
    };
    if balance.agg_amount < to_transfer {
        return Err(WalletError::InsufficientFunds);
    }
    if !ctx.is_framed() {
        return Err(WalletError::ProofGenerationFailed);
    }
    let payload = request_sec_to_pub_payload(ctx, sk, &balance, to_transfer);
    proof {
        use_type_invariant(table);
        table.lemma_table_bounds();
        if payload is Some && table.generator_exponent()
            == ctx.on_chain_commitment_key.h.exponent() {
            lemma_decryption_of_encryption(
                payload->0.remaining_amount@,
                sk.generator.exponent(),
                sk.scalar.value(),
                ctx.on_chain_commitment_key.h.exponent(),
                table.steps(),
                (balance.agg_amount - to_transfer) as u64,
            );
        }
    }
    finish_sec_to_pub(table, sk, payload)
}

/// Builds a transfer between encrypted balances, with a table at hand. It
/// fails where the balance cannot be decrypted, with `InsufficientFunds`
/// where the balance does not cover the amount, and with
/// `PayloadConstructionError` where the parameters hold fewer than 64 pairs
/// of generators or not what they announce.
pub fn create_encrypted_transfer_with_table(
    table: &BabyStepGiantStep,
    ctx: &GlobalContext,
    receiver: &PublicKey,
    sk: &SecretKey,
    incoming: &Vec<EncryptedAmount>,
    self_amount: &EncryptedAmount,
    agg_index: u64,
    to_transfer: u64,
) -> (r: Result<EncryptedTransferResponse, WalletError>)
    ensures
        balance_of(decryption_with(*table, *sk), incoming@, *self_amount) is Err ==> r is Err,
        balance_of(decryption_with(*table, *sk), incoming@, *self_amount) is Ok && balance_of(
            decryption_with(*table, *sk),
            incoming@,
            *self_amount,
        )->Ok_0 < to_transfer ==> r is Err,
        r is Ok ==> r->Ok_0.remaining == r->Ok_0.payload.remaining_amount && encrypts_amount(
            r->Ok_0.payload.transfer_amount@,
            receiver@,
            ctx.on_chain_commitment_key.h.exponent(),
            to_transfer as int,
        ) && is_spent(
            decryption_with(*table, *sk),
            sk.generator.exponent(),
            ctx.on_chain_commitment_key.h.exponent(),
            balance_of(decryption_with(*table, *sk), incoming@, *self_amount),
            agg_index,
            to_transfer,
            r->Ok_0.payload.remaining_amount,
            r->Ok_0.payload.index,
            r->Ok_0.decrypted_remaining,
        ),
        r is Err ==> is_unspent(
            decryption_with(*table, *sk),
            ctx.on_chain_commitment_key.h.exponent(),
            balance_of(decryption_with(*table, *sk), incoming@, *self_amount),
            to_transfer,
            WalletError::PayloadConstructionError,
            r->Err_0,
        ),
        balance_of(decryption_with(*table, *sk), incoming@, *self_amount) is Ok && balance_of(
            decryption_with(*table, *sk),
            incoming@,
            *self_amount,
        )->Ok_0 >= to_transfer && !holds_transfer_generators(ctx.remainder@) ==> r is Err
            && r->Err_0 == WalletError::PayloadConstructionError,
{
    let balance = match aggregate_balance(table, sk, incoming, self_amount, agg_index) {
        Ok(b) => b,
        Err(e) => {
            return Err(e);
        },
    };
    if balance.agg_amount < to_transfer {
        return Err(WalletError::InsufficientFunds);
    }
    match ctx.generator_count() {
        Some(count) => {
            if count < TRANSFER_GENERATORS || !ctx.is_framed() {
                return Err(WalletError::PayloadConstructionError);
            }
        },
        None => {
            return Err(WalletError::PayloadConstructionError);
        },
    }
    let payload = request_transfer_payload(ctx, receiver, sk, &balance, to_transfer);
    proof {
        use_type_invariant(table);
        table.lemma_table_bounds();
        if payload is Some && table.generator_exponent()
            == ctx.on_chain_commitment_key.h.exponent() {
            lemma_decryption_of_encryption(
                payload->0.remaining_amount@,
                sk.generator.exponent(),
                sk.scalar.value(),
                ctx.on_chain_commitment_key.h.exponent(),
                table.steps(),
                (balance.agg_amount - to_transfer) as u64,
            );
        }
    }
    finish_encrypted_transfer(table, sk, payload)
}

/// The encrypted balance after a transfer into it: the amount, encrypted
/// without blinding for the generator of exponent `h`, aggregated into the
/// balance.
pub open spec fn topped_up(
    h: int,
    incoming: Seq<EncryptedAmount>,
    self_amount: EncryptedAmount,
    to_transfer: u64,
) -> AmountModel {
    aggregated(folded(self_amount@, models(incoming)), plain_encryption(h, to_transfer))
}

/// Builds a transfer from the public to the encrypted balance, with a
/// table at hand: the amount is encrypted without blinding and aggregated
/// into the balance, which needs no proof and reveals no amount.
pub fn create_pub_to_sec_with_table(
    table: &BabyStepGiantStep,
    ctx: &GlobalContext,
    sk: &SecretKey,
    incoming: &Vec<EncryptedAmount>,
    self_amount: &EncryptedAmount,
    to_transfer: u64,
) -> (r: Result<PubToSecResponse, WalletError>)
    ensures
        match decrypts_to(
            decryption_with(*table, *sk),
            topped_up(
                ctx.on_chain_commitment_key.h.exponent(),
                incoming@,
                *self_amount,
                to_transfer,
            ),
        ) {
            Ok(v) => r is Ok && r->Ok_0.decrypted_remaining == v
                && r->Ok_0.new_self_encrypted_amount.wf() && r->Ok_0.new_self_encrypted_amount@
                == topped_up(
                ctx.on_chain_commitment_key.h.exponent(),
                incoming@,
                *self_amount,
                to_transfer,
            ),
            Err(e) => r is Err && r->Err_0 == e,
        },
{
    let to_transfer_encrypted = encrypt_amount_with_fixed_randomness(ctx, to_transfer);
    let current_amount = aggregate_all(self_amount, incoming);
    let remaining_amount = aggregate(&current_amount, &to_transfer_encrypted);
    match decrypt_amount(table, sk, &remaining_amount) {
        Ok(decrypted_remaining) => Ok(
            PubToSecResponse { new_self_encrypted_amount: remaining_amount, decrypted_remaining },
        ),
        Err(e) => Err(e),
    }
}

/// What a list of encrypted amounts decrypts to: all of the amounts, or the
/// failure of the first that cannot be decrypted.
pub open spec fn decrypted_list(d: Decryption, amounts: Seq<AmountModel>) -> Result<
    Seq<int>,
    WalletError,
>
    decreases amounts.len(),
{
    if amounts.len() == 0 {
        Ok(Seq::empty())
    } else {
        match decrypted_list(d, amounts.drop_last()) {
            Err(e) => Err(e),
            Ok(front) => match decrypts_to(d, amounts.last()) {
                Err(e) => Err(e),
                Ok(v) => Ok(front.push(v)),
            },
        }
    }
}

/// An exec result holds the amounts, or the error, that the contract
/// speaks of.
pub open spec fn holds_amounts(r: Result<Vec<u64>, WalletError>, expected: Result<
    Seq<int>,
    WalletError,
>) -> bool {
    match expected {
        Ok(values) => r is Ok && r->Ok_0@.map_values(|v: u64| v as int) == values,
        Err(e) => r is Err && r->Err_0 == e,
    }
}

/// Decrypts a list of amounts with a table at hand.
pub fn decrypt_amounts_with_table(
    table: &BabyStepGiantStep,
    sk: &SecretKey,
    encrypted_amounts: &Vec<EncryptedAmount>,
) -> (r: Result<Vec<u64>, WalletError>)
    ensures
        holds_amounts(
            r,
            decrypted_list(decryption_with(*table, *sk), models(encrypted_amounts@)),
        ),
{
    let ghost d = decryption_with(*table, *sk);
    let ghost all = models(encrypted_amounts@);
    let mut out: Vec<u64> = Vec::new();
    let mut i: usize = 0;
    proof {
        assert(all.subrange(0, 0) =~= Seq::<AmountModel>::empty());
        assert(out@.map_values(|v: u64| v as int) =~= Seq::<int>::empty());
    }
    while i < encrypted_amounts.len()
        invariant
            i <= encrypted_amounts@.len(),
            d == decryption_with(*table, *sk),
            all == models(encrypted_amounts@),
            decrypted_list(d, all.subrange(0, i as int)) == Ok::<Seq<int>, WalletError>(
                out@.map_values(|v: u64| v as int),
            ),
        decreases encrypted_amounts@.len() - i,
    {
        let ghost done = all.subrange(0, i as int);
        let ghost next = all.subrange(0, i + 1);
        proof {
            assert(next.drop_last() =~= done);
            assert(next.last() == encrypted_amounts@[i as int]@);
        }
        match decrypt_amount(table, sk, &encrypted_amounts[i]) {
            Ok(v) => {
                let ghost before = out@.map_values(|v: u64| v as int);
                out.push(v);
                proof {
                    assert(out@.map_values(|v: u64| v as int) =~= before.push(v as int));
                }
            },
            Err(e) => {
                proof {
                    lemma_decrypted_list_fails(d, all, i + 1);
                }
                return Err(e);
            },
        }
        i = i + 1;
    }
    proof {
        assert(all.subrange(0, i as int) =~= all);
    }
    Ok(out)
}

/// Once the front of a list fails to decrypt, the list fails in the same
/// way.
pub proof fn lemma_decrypted_list_fails(d: Decryption, amounts: Seq<AmountModel>, n: int)
    requires
        0 <= n <= amounts.len(),
        decrypted_list(d, amounts.subrange(0, n)) is Err,
    ensures
        decrypted_list(d, amounts) == decrypted_list(d, amounts.subrange(0, n)),
    decreases amounts.len() - n,
{
    if n < amounts.len() {
        let longer = amounts.subrange(0, n + 1);
        assert(longer.drop_last() =~= amounts.subrange(0, n));
        lemma_decrypted_list_fails(d, amounts, n + 1);
    } else {
        assert(amounts.subrange(0, n) =~= amounts);
    }
}

/// Why an operation on an account cannot start: the index of the account
/// is the negative of the key, or the generator of the chain is the
/// neutral element.
pub open spec fn setup_failure(ctx: GlobalContext, prf_key: PrfKey, account_number: u8) -> Option<
    WalletError,
> {
    if prf_is_degenerate(prf_key.scalar.value(), account_number) {
        Some(WalletError::PrfDomainError)
    } else if ctx.on_chain_commitment_key.h.exponent() == 0 {
        Some(WalletError::DecodingError)
    } else {
        None
    }
}

/// Decrypts the amounts of the account with the given number.
pub fn decrypt_amounts_aux(
    ctx: &GlobalContext,
    prf_key: &PrfKey,
    credential_number: u8,
    encrypted_amounts: &Vec<EncryptedAmount>,
) -> (r: Result<Vec<u64>, WalletError>)
    ensures
        match setup_failure(*ctx, *prf_key, credential_number) {
            Some(e) => r is Err && r->Err_0 == e,
            None => holds_amounts(
                r,
                decrypted_list(
                    decryption_of_account(*ctx, *prf_key, credential_number),
                    models(encrypted_amounts@),
                ),
            ),
        },
{
    let secret_key = match account_secret_key(ctx, prf_key, credential_number) {
        Ok(k) => k,
        Err(e) => {
            return Err(e);
        },
    };
    let table = match decryption_table(ctx) {
        Ok(t) => t,
        Err(e) => {
            return Err(e);
        },
    };
    decrypt_amounts_with_table(&table, &secret_key, encrypted_amounts)
}

/// Builds a transfer from the encrypted to the public balance of the
/// account with the given number.
pub fn create_sec_to_pub_aux(
    ctx: &GlobalContext,
    prf_key: &PrfKey,
    account_number: u8,
    incoming_amounts: &Vec<EncryptedAmount>,
    self_amount: &EncryptedAmount,
    agg_index: u64,
    to_transfer: u64,
) -> (r: Result<SecToPubResponse, WalletError>)
    ensures
        match setup_failure(*ctx, *prf_key, account_number) {
            Some(e) => r is Err && r->Err_0 == e,
            None => match r {
                Ok(response) => response.payload.transfer_amount == to_transfer && is_spent(
                    decryption_of_account(*ctx, *prf_key, account_number),
                    ctx.on_chain_commitment_key.g.exponent(),
                    ctx.on_chain_commitment_key.h.exponent(),
                    balance_of(
                        decryption_of_account(*ctx, *prf_key, account_number),
                        incoming_amounts@,
                        *self_amount,
                    ),
                    agg_index,
                    to_transfer,
                    response.payload.remaining_amount,
                    response.payload.index,
                    response.decrypted_remaining,
                ),
                Err(e) => is_unspent(
                    decryption_of_account(*ctx, *prf_key, account_number),
                    ctx.on_chain_commitment_key.h.exponent(),
                    balance_of(
                        decryption_of_account(*ctx, *prf_key, account_number),
                        incoming_amounts@,
                        *self_amount,
                    ),
                    to_transfer,
                    WalletError::ProofGenerationFailed,
                    e,
                ),
            },
        },
        r is Ok ==> is_framed(ctx.remainder@),
{
    let secret_key = match account_secret_key(ctx, prf_key, account_number) {
        Ok(k) => k,
        Err(e) => {
            return Err(e);
        },
    };
    let table = match decryption_table(ctx) {
        Ok(t) => t,
        Err(e) => {
            return Err(e);
        },
    };
    create_sec_to_pub_with_table(
        &table,
        ctx,
        &secret_key,
        incoming_amounts,
        self_amount,
        agg_index,
        to_transfer,
    )
}

/// Builds a transfer from the public to the encrypted balance of the
/// account with the given number.
pub fn create_pub_to_sec_aux(
    ctx: &GlobalContext,
    prf_key: &PrfKey,
    account_number: u8,
    incoming_amounts: &Vec<EncryptedAmount>,
    self_amount: &EncryptedAmount,
    to_transfer: u64,
) -> (r: Result<PubToSecResponse, WalletError>)
    ensures
        match setup_failure(*ctx, *prf_key, account_number) {
            Some(e) => r is Err && r->Err_0 == e,
            None => match decrypts_to(
                decryption_of_account(*ctx, *prf_key, account_number),
                topped_up(
                    ctx.on_chain_commitment_key.h.exponent(),
                    incoming_amounts@,
                    *self_amount,
                    to_transfer,
                ),
            ) {
                Ok(v) => r is Ok && r->Ok_0.decrypted_remaining == v
                    && r->Ok_0.new_self_encrypted_amount.wf()
                    && r->Ok_0.new_self_encrypted_amount@ == topped_up(
                    ctx.on_chain_commitment_key.h.exponent(),
                    incoming_amounts@,
                    *self_amount,
                    to_transfer,
                ),
                Err(e) => r is Err && r->Err_0 == e,
            },
        },
{
    let secret_key = match account_secret_key(ctx, prf_key, account_number) {
        Ok(k) => k,
        Err(e) => {
            return Err(e);
        },
    };
    let table = match decryption_table(ctx) {
        Ok(t) => t,
        Err(e) => {
            return Err(e);
        },
    };
    create_pub_to_sec_with_table(
        &table,
        ctx,
        &secret_key,
        incoming_amounts,
        self_amount,
        to_transfer,
    )
}

/// Builds a transfer from the encrypted balance of the account with the
/// given number to the encrypted balance of the holder of a public key.
pub fn create_encrypted_transfer_aux(
    ctx: &GlobalContext,
    prf_key: &PrfKey,
    account_number: u8,
    receiver_pk: &PublicKey,
    incoming_amounts: &Vec<EncryptedAmount>,
    self_amount: &EncryptedAmount,
    agg_index: u64,
    to_transfer: u64,
) -> (r: Result<EncryptedTransferResponse, WalletError>)
    ensures
        match setup_failure(*ctx, *prf_key, account_number) {
            Some(e) => r is Err && r->Err_0 == e,
            None => match r {
                Ok(response) => response.remaining == response.payload.remaining_amount
                    && encrypts_amount(
                    response.payload.transfer_amount@,
                    receiver_pk@,
                    ctx.on_chain_commitment_key.h.exponent(),
                    to_transfer as int,
                ) && is_spent(
                    decryption_of_account(*ctx, *prf_key, account_number),
                    ctx.on_chain_commitment_key.g.exponent(),
                    ctx.on_chain_commitment_key.h.exponent(),
                    balance_of(
                        decryption_of_account(*ctx, *prf_key, account_number),
                        incoming_amounts@,
                        *self_amount,
                    ),
                    agg_index,
                    to_transfer,
                    response.payload.remaining_amount,
                    response.payload.index,
                    response.decrypted_remaining,
                ),
                Err(e) => is_unspent(
                    decryption_of_account(*ctx, *prf_key, account_number),
                    ctx.on_chain_commitment_key.h.exponent(),
                    balance_of(
                        decryption_of_account(*ctx, *prf_key, account_number),
                        incoming_amounts@,
                        *self_amount,
                    ),
                    to_transfer,
                    WalletError::PayloadConstructionError,
                    e,
                ),
            },
        },
        r is Ok ==> holds_transfer_generators(ctx.remainder@),
{
    let secret_key = match account_secret_key(ctx, prf_key, account_number) {
        Ok(k) => k,
        Err(e) => {
            return Err(e);
        },
    };
    let table = match decryption_table(ctx) {
        Ok(t) => t,
        Err(e) => {
            return Err(e);
        },
    };
    create_encrypted_transfer_with_table(
        &table,
        ctx,
        receiver_pk,
        &secret_key,
        incoming_amounts,
        self_amount,
        agg_index,
        to_transfer,
    )
}

} // verus!
