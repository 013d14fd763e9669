use concordium_base::common::from_bytes;
use concordium_base::common::to_bytes;
use concordium_base::common::types::Amount;
use concordium_base::elgamal;
use concordium_base::encrypted_transfers::types::{
    EncryptedAmount as ChainAmount, EncryptedAmountTransferData as ChainTransfer,
    SecToPubAmountTransferData as ChainSecToPub,
};
use concordium_base::encrypted_transfers::{
    encrypt_amount, verify_sec_to_pub_transfer_data, verify_transfer_data,
};
use concordium_base::id::types::GlobalContext as ChainContext;
use ff::PrimeField;
use pairing::bls12_381::{Fr, FrRepr, G1};
use rand::thread_rng;
use shielded_wallet::amount::{encrypt_amount_with_fixed_randomness, EncryptedAmount};
use shielded_wallet::context::GlobalContext;
use shielded_wallet::dlog::{decrypt_amount, BabyStepGiantStep, SecretKey};
use shielded_wallet::error::WalletError;
use shielded_wallet::group::GroupElement;
use shielded_wallet::prf::PrfKey;
use shielded_wallet::scalar::Scalar;
use shielded_wallet::transfer::{
    account_secret_key, aggregate_balance, create_encrypted_transfer_aux,
    create_encrypted_transfer_with_table, create_pub_to_sec_aux, create_pub_to_sec_with_table,
    create_sec_to_pub_aux, create_sec_to_pub_with_table, decrypt_amounts_aux, decryption_table,
    finish_encrypted_transfer, finish_sec_to_pub, AggregatedDecryptedAmount,
    EncryptedAmountTransferData, PublicKey, SecToPubAmountTransferData,
};

struct Account {
    chain: ChainContext<G1>,
    ctx: GlobalContext,
    secret: elgamal::SecretKey<G1>,
    sk: SecretKey,
}

fn account(secret_limbs: [u64; 4]) -> Account {
    account_with(secret_limbs, 64)
}

fn account_with(secret_limbs: [u64; 4], generators: usize) -> Account {
    let chain = ChainContext::<G1>::generate_size(String::from("test"), generators);
    let ctx = GlobalContext::from_bytes(&to_bytes(&chain)).expect("parameters");
    let scalar = Fr::from_repr(FrRepr(secret_limbs)).unwrap();
    let secret = elgamal::SecretKey { generator: *chain.elgamal_generator(), scalar };
    let sk = SecretKey {
        generator: *ctx.elgamal_generator(),
        scalar: Scalar::from_limbs(secret_limbs).expect("a scalar"),
    };
    Account { chain, ctx, secret, sk }
}

fn chain_amount(account: &Account, amount: u64) -> ChainAmount<G1> {
    let pk = elgamal::PublicKey::from(&account.secret);
    encrypt_amount(&account.chain, &pk, Amount::from_micro_ccd(amount), &mut thread_rng()).0
}

fn blinded(account: &Account, amount: u64) -> EncryptedAmount {
    EncryptedAmount::from_bytes(&to_bytes(&chain_amount(account, amount))).expect("an amount")
}

fn table(account: &Account, steps: u64) -> BabyStepGiantStep {
    BabyStepGiantStep::new(account.ctx.encryption_in_exponent_generator(), steps).expect("a table")
}

fn public_key(account: &Account) -> PublicKey {
    let pk = elgamal::PublicKey::from(&account.secret);
    PublicKey {
        generator: GroupElement::from_bytes(&to_bytes(&pk.generator)).unwrap(),
        key: GroupElement::from_bytes(&to_bytes(&pk.key)).unwrap(),
    }
}

fn degenerate_key() -> PrfKey {
    // the group order less five
    let limbs = [0xfffffffefffffffc, 0x53bda402fffe5bfe, 0x3339d80809a1d805, 0x73eda753299d7d48];
    PrfKey { scalar: Scalar::from_limbs(limbs).unwrap() }
}

#[test]
fn balance_is_aggregated_and_decrypted() {
    let a = account([11, 0, 0, 0]);
    let t = table(&a, 16);
    let incoming = vec![blinded(&a, 50), blinded(&a, 25)];
    let balance = aggregate_balance(&t, &a.sk, &incoming, &blinded(&a, 100), 7).unwrap();
    assert_eq!(balance.agg_amount, 175);
    assert_eq!(balance.agg_index, 7);
    assert_eq!(decrypt_amount(&t, &a.sk, &balance.agg_encrypted_amount), Ok(175));
}

#[test]
fn balance_out_of_range_is_a_range_error() {
    let a = account([11, 0, 0, 0]);
    let t = table(&a, 4);
    let r = aggregate_balance(&t, &a.sk, &vec![blinded(&a, 10)], &blinded(&a, 10), 0);
    assert_eq!(r.map(|b| b.agg_amount), Err(WalletError::DecryptionRangeError));
}

#[test]
fn transfer_of_200_out_of_175_to_public_is_insufficient_funds() {
    let a = account([11, 12, 13, 14]);
    let t = table(&a, 16);
    let incoming = vec![blinded(&a, 50), blinded(&a, 25)];
    let r = create_sec_to_pub_with_table(&t, &a.ctx, &a.sk, &incoming, &blinded(&a, 100), 2, 200);
    assert_eq!(r.map(|x| x.decrypted_remaining), Err(WalletError::InsufficientFunds));
    let r = create_sec_to_pub_with_table(&t, &a.ctx, &a.sk, &incoming, &blinded(&a, 100), 2, 176);
    assert_eq!(r.map(|x| x.decrypted_remaining), Err(WalletError::InsufficientFunds));
}

#[test]
fn transfer_of_75_out_of_175_to_public_leaves_100() {
    let a = account([11, 12, 13, 14]);
    let t = table(&a, 16);
    let self_amount = chain_amount(&a, 100);
    let first = chain_amount(&a, 50);
    let second = chain_amount(&a, 25);
    let incoming = vec![
        EncryptedAmount::from_bytes(&to_bytes(&first)).unwrap(),
        EncryptedAmount::from_bytes(&to_bytes(&second)).unwrap(),
    ];
    let mine = EncryptedAmount::from_bytes(&to_bytes(&self_amount)).unwrap();
    let r = create_sec_to_pub_with_table(&t, &a.ctx, &a.sk, &incoming, &mine, 2, 75).unwrap();
    assert_eq!(r.decrypted_remaining, 100);
    assert_eq!(r.payload.transfer_amount, 75);
    assert_eq!(r.payload.index, 2);
    assert_eq!(decrypt_amount(&t, &a.sk, &r.payload.remaining_amount), Ok(100));
    // the chain accepts the payload against the balance before the transfer
    let data: ChainSecToPub<G1> = from_bytes(&mut r.payload.to_bytes().as_slice()).unwrap();
    let before = concordium_base::encrypted_transfers::aggregate(
        &concordium_base::encrypted_transfers::aggregate(&self_amount, &first),
        &second,
    );
    let pk = elgamal::PublicKey::from(&a.secret);
    assert!(verify_sec_to_pub_transfer_data(&a.chain, &pk, &before, &data));
}

#[test]
fn transfer_of_the_whole_balance_to_public_leaves_nothing() {
    let a = account([1, 0, 0, 0]);
    let t = table(&a, 16);
    let r = create_sec_to_pub_with_table(&t, &a.ctx, &a.sk, &vec![], &blinded(&a, 175), 0, 175)
        .unwrap();
    assert_eq!(r.decrypted_remaining, 0);
    assert_eq!(r.payload.transfer_amount, 175);
}

#[test]
fn transfer_out_of_a_balance_that_does_not_decrypt_is_a_range_error() {
    let a = account([1, 0, 0, 0]);
    let other = account([2, 0, 0, 0]);
    let t = table(&a, 16);
    let r = create_sec_to_pub_with_table(&t, &a.ctx, &a.sk, &vec![], &blinded(&other, 175), 0, 5);
    assert_eq!(r.map(|x| x.decrypted_remaining), Err(WalletError::DecryptionRangeError));
    let pk = public_key(&other);
    let r = create_encrypted_transfer_with_table(
        &t,
        &a.ctx,
        &pk,
        &a.sk,
        &vec![],
        &blinded(&other, 175),
        0,
        5,
    );
    assert_eq!(r.map(|x| x.decrypted_remaining), Err(WalletError::DecryptionRangeError));
}

#[test]
fn transfer_of_50_from_public_into_nothing_leaves_50() {
    let a = account([21, 22, 23, 24]);
    let t = table(&a, 16);
    let r = create_pub_to_sec_with_table(&t, &a.ctx, &a.sk, &vec![], &blinded(&a, 0), 50).unwrap();
    assert_eq!(r.decrypted_remaining, 50);
    assert_eq!(decrypt_amount(&t, &a.sk, &r.new_self_encrypted_amount), Ok(50));
}

#[test]
fn transfer_from_public_adds_to_the_balance() {
    let a = account([21, 22, 23, 24]);
    let t = table(&a, 16);
    let self_amount = blinded(&a, 100);
    let incoming = vec![blinded(&a, 20)];
    let r = create_pub_to_sec_with_table(&t, &a.ctx, &a.sk, &incoming, &self_amount, 30).unwrap();
    assert_eq!(r.decrypted_remaining, 150);
    let expected = shielded_wallet::amount::aggregate(
        &shielded_wallet::amount::aggregate(&self_amount, &incoming[0]),
        &encrypt_amount_with_fixed_randomness(&a.ctx, 30),
    );
    assert_eq!(r.new_self_encrypted_amount.to_bytes(), expected.to_bytes());
}

#[test]
fn transfer_from_public_beyond_the_range_is_a_range_error() {
    let a = account([21, 22, 23, 24]);
    let t = table(&a, 16);
    let r = create_pub_to_sec_with_table(&t, &a.ctx, &a.sk, &vec![], &blinded(&a, 200), 100);
    assert_eq!(r.map(|x| x.decrypted_remaining), Err(WalletError::DecryptionRangeError));
}

#[test]
fn encrypted_transfer_of_75_out_of_175_leaves_100() {
    let a = account([31, 32, 33, 34]);
    let b = account([41, 42, 43, 44]);
    let t = table(&a, 16);
    let self_amount = chain_amount(&a, 175);
    let mine = EncryptedAmount::from_bytes(&to_bytes(&self_amount)).unwrap();
    let r = create_encrypted_transfer_with_table(
        &t,
        &a.ctx,
        &public_key(&b),
        &a.sk,
        &vec![],
        &mine,
        9,
        75,
    )
    .unwrap();
    assert_eq!(r.decrypted_remaining, 100);
    assert_eq!(r.payload.index, 9);
    assert_eq!(r.remaining.to_bytes(), r.payload.remaining_amount.to_bytes());
    // the receiver decrypts what was sent
    assert_eq!(decrypt_amount(&table(&b, 16), &b.sk, &r.payload.transfer_amount), Ok(75));
    // the chain accepts the payload against the balance before the transfer
    let data: ChainTransfer<G1> = from_bytes(&mut r.payload.to_bytes().as_slice()).unwrap();
    let sender = elgamal::PublicKey::from(&a.secret);
    let receiver = elgamal::PublicKey::from(&b.secret);
    assert!(verify_transfer_data(&a.chain, &receiver, &sender, &self_amount, &data));
}

#[test]
fn encrypted_transfer_of_more_than_the_balance_is_insufficient_funds() {
    let a = account([31, 32, 33, 34]);
    let b = account([41, 42, 43, 44]);
    let t = table(&a, 16);
    let r = create_encrypted_transfer_with_table(
        &t,
        &a.ctx,
        &public_key(&b),
        &a.sk,
        &vec![blinded(&a, 75)],
        &blinded(&a, 100),
        1,
        200,
    );
    assert_eq!(r.map(|x| x.decrypted_remaining), Err(WalletError::InsufficientFunds));
}

#[test]
fn encrypted_transfer_needs_64_pairs_of_generators() {
    let a = account_with([31, 32, 33, 34], 2);
    let b = account_with([41, 42, 43, 44], 2);
    assert_eq!(a.ctx.generator_count(), Some(2));
    let t = table(&a, 16);
    let r = create_encrypted_transfer_with_table(
        &t,
        &a.ctx,
        &public_key(&b),
        &a.sk,
        &vec![],
        &blinded(&a, 175),
        0,
        75,
    );
    assert_eq!(r.map(|x| x.decrypted_remaining), Err(WalletError::PayloadConstructionError));
    let a = account_with([31, 32, 33, 34], 63);
    let t = table(&a, 16);
    let r = create_encrypted_transfer_with_table(
        &t,
        &a.ctx,
        &public_key(&b),
        &a.sk,
        &vec![],
        &blinded(&a, 175),
        0,
        75,
    );
    assert_eq!(r.map(|x| x.decrypted_remaining), Err(WalletError::PayloadConstructionError));
}

#[test]
fn encrypted_transfer_of_nothing_needs_generators_too() {
    let a = account([31, 32, 33, 34]);
    let t = table(&a, 16);
    let mut bytes = a.ctx.to_bytes();
    bytes.truncate(96);
    let no_remainder = GlobalContext::from_bytes(&bytes).unwrap();
    bytes.extend_from_slice(&[0u8; 8]);
    let no_generators = GlobalContext::from_bytes(&bytes).unwrap();
    assert_eq!(no_generators.generator_count(), Some(0));
    assert!(no_generators.is_framed());
    for ctx in [no_remainder, no_generators] {
        let r = create_encrypted_transfer_with_table(
            &t,
            &ctx,
            &public_key(&a),
            &a.sk,
            &vec![],
            &blinded(&a, 5),
            0,
            0,
        );
        assert_eq!(
            r.map(|x| x.decrypted_remaining),
            Err(WalletError::PayloadConstructionError)
        );
    }
}

#[test]
fn insufficient_funds_come_before_missing_generators() {
    let a = account_with([31, 32, 33, 34], 2);
    let t = table(&a, 16);
    let r = create_encrypted_transfer_with_table(
        &t,
        &a.ctx,
        &public_key(&a),
        &a.sk,
        &vec![],
        &blinded(&a, 5),
        0,
        6,
    );
    assert_eq!(r.map(|x| x.decrypted_remaining), Err(WalletError::InsufficientFunds));
}

#[test]
fn transfers_need_parameters_that_hold_what_they_announce() {
    let a = account([1, 1, 1, 1]);
    let t = table(&a, 16);
    let whole = a.ctx.to_bytes();
    // the genesis string cut short
    let cut = GlobalContext::from_bytes(&whole[..whole.len() - 1]).unwrap();
    // the genesis string announced longer than it is
    let mut longer = whole.clone();
    let at = 96 + 4 + 64 * 96;
    longer[at] = 0xff;
    let lying = GlobalContext::from_bytes(&longer).unwrap();
    // only a commitment key
    let bare = GlobalContext::from_bytes(&whole[..96]).unwrap();
    for ctx in [cut, lying, bare] {
        assert!(!ctx.is_framed());
        let r = create_sec_to_pub_with_table(&t, &ctx, &a.sk, &vec![], &blinded(&a, 9), 0, 4);
        assert_eq!(r.map(|x| x.decrypted_remaining), Err(WalletError::ProofGenerationFailed));
        let r = create_encrypted_transfer_with_table(
            &t,
            &ctx,
            &public_key(&a),
            &a.sk,
            &vec![],
            &blinded(&a, 9),
            0,
            4,
        );
        assert_eq!(
            r.map(|x| x.decrypted_remaining),
            Err(WalletError::PayloadConstructionError)
        );
    }
}

#[test]
fn transfer_to_public_without_enough_generators_makes_no_proof() {
    let a = account_with([1, 1, 1, 1], 2);
    let t = table(&a, 16);
    assert!(a.ctx.is_framed());
    let r = create_sec_to_pub_with_table(&t, &a.ctx, &a.sk, &vec![], &blinded(&a, 9), 0, 4);
    assert_eq!(r.map(|x| x.decrypted_remaining), Err(WalletError::ProofGenerationFailed));
}

#[test]
fn transfer_from_public_needs_no_generators() {
    let a = account_with([21, 22, 23, 24], 0);
    let t = table(&a, 16);
    let bare = GlobalContext::from_bytes(&a.ctx.to_bytes()[..96]).unwrap();
    let r = create_pub_to_sec_with_table(&t, &bare, &a.sk, &vec![], &blinded(&a, 1), 2).unwrap();
    assert_eq!(r.decrypted_remaining, 3);
}

#[test]
fn no_payload_is_a_failure_of_its_own_kind() {
    let a = account([5, 0, 0, 0]);
    let t = table(&a, 4);
    assert_eq!(
        finish_sec_to_pub(&t, &a.sk, None).map(|x| x.decrypted_remaining),
        Err(WalletError::ProofGenerationFailed)
    );
    assert_eq!(
        finish_encrypted_transfer(&t, &a.sk, None).map(|x| x.decrypted_remaining),
        Err(WalletError::PayloadConstructionError)
    );
}

#[test]
fn payload_that_came_back_is_returned_with_its_decrypted_remainder() {
    let a = account([5, 0, 0, 0]);
    let t = table(&a, 4);
    let remaining = blinded(&a, 3);
    let payload = SecToPubAmountTransferData {
        remaining_amount: remaining,
        transfer_amount: 2,
        index: 1,
        proof: vec![1, 2, 3],
    };
    let r = finish_sec_to_pub(&t, &a.sk, Some(payload)).unwrap();
    assert_eq!(r.decrypted_remaining, 3);
    assert_eq!(r.payload.proof, vec![1, 2, 3]);
    assert_eq!(r.payload.transfer_amount, 2);
    let payload = EncryptedAmountTransferData {
        remaining_amount: remaining,
        transfer_amount: blinded(&a, 2),
        index: 1,
        proof: vec![],
    };
    let r = finish_encrypted_transfer(&t, &a.sk, Some(payload)).unwrap();
    assert_eq!(r.decrypted_remaining, 3);
    assert_eq!(r.remaining.to_bytes(), remaining.to_bytes());
    let beyond = SecToPubAmountTransferData {
        remaining_amount: blinded(&a, 16),
        transfer_amount: 2,
        index: 1,
        proof: vec![],
    };
    assert_eq!(
        finish_sec_to_pub(&t, &a.sk, Some(beyond)).map(|x| x.decrypted_remaining),
        Err(WalletError::DecryptionRangeError)
    );
}

#[test]
fn payloads_are_encoded_as_the_chain_reads_them() {
    let a = account([5, 0, 0, 0]);
    let remaining = blinded(&a, 3);
    let payload = SecToPubAmountTransferData {
        remaining_amount: remaining,
        transfer_amount: 0x0102030405060708,
        index: 0x1112131415161718,
        proof: vec![9, 8, 7],
    };
    let bytes = payload.to_bytes();
    assert_eq!(bytes.len(), 211);
    assert_eq!(&bytes[..192], remaining.to_bytes().as_slice());
    assert_eq!(&bytes[192..200], &[1, 2, 3, 4, 5, 6, 7, 8]);
    assert_eq!(&bytes[200..208], &[0x11, 0x12, 0x13, 0x14, 0x15, 0x16, 0x17, 0x18]);
    assert_eq!(&bytes[208..], &[9, 8, 7]);
    let back = SecToPubAmountTransferData::from_bytes(&bytes).unwrap();
    assert_eq!(back.transfer_amount, 0x0102030405060708);
    assert_eq!(back.index, 0x1112131415161718);
    assert_eq!(back.proof, vec![9, 8, 7]);
    assert_eq!(back.remaining_amount.to_bytes(), remaining.to_bytes());
    assert!(SecToPubAmountTransferData::from_bytes(&bytes[..207]).is_none());
    assert!(SecToPubAmountTransferData::from_bytes(&[0u8; 300]).is_none());
    let sent = blinded(&a, 4);
    let transfer = EncryptedAmountTransferData {
        remaining_amount: remaining,
        transfer_amount: sent,
        index: 5,
        proof: vec![1],
    };
    let bytes = transfer.to_bytes();
    assert_eq!(bytes.len(), 393);
    assert_eq!(&bytes[192..384], sent.to_bytes().as_slice());
    assert_eq!(&bytes[384..392], &[0, 0, 0, 0, 0, 0, 0, 5]);
    let back = EncryptedAmountTransferData::from_bytes(&bytes).unwrap();
    assert_eq!(back.index, 5);
    assert_eq!(back.transfer_amount.to_bytes(), sent.to_bytes());
    assert_eq!(back.proof, vec![1]);
    assert!(EncryptedAmountTransferData::from_bytes(&bytes[..391]).is_none());
    let balance = AggregatedDecryptedAmount {
        agg_encrypted_amount: remaining,
        agg_amount: 3,
        agg_index: 0x0100,
    };
    let bytes = balance.to_bytes();
    assert_eq!(bytes.len(), 208);
    assert_eq!(&bytes[192..], &[0, 0, 0, 0, 0, 0, 0, 3, 0, 0, 0, 0, 0, 0, 1, 0]);
    assert_eq!(public_key(&a).to_bytes(), to_bytes(&elgamal::PublicKey::from(&a.secret)));
}

#[test]
fn account_key_is_the_exponent_with_the_generator_of_the_chain() {
    let a = account([5, 0, 0, 0]);
    let prf = PrfKey { scalar: Scalar::from_u64(1) };
    let sk = account_secret_key(&a.ctx, &prf, 1).unwrap();
    assert_eq!(sk.generator.to_bytes(), a.ctx.elgamal_generator().to_bytes());
    // the inverse of two
    assert_eq!(
        sk.scalar.limbs(),
        [0x7fffffff80000001, 0xa9ded2017fff2dff, 0x199cec0404d0ec02, 0x39f6d3a994cebea4]
    );
}

#[test]
fn index_that_cancels_the_key_stops_every_operation() {
    let a = account([5, 0, 0, 0]);
    let key = degenerate_key();
    let amount = blinded(&a, 1);
    assert_eq!(
        account_secret_key(&a.ctx, &key, 5).map(|k| k.scalar.limbs()),
        Err(WalletError::PrfDomainError)
    );
    assert_eq!(
        decrypt_amounts_aux(&a.ctx, &key, 5, &vec![amount]),
        Err(WalletError::PrfDomainError)
    );
    assert_eq!(
        create_sec_to_pub_aux(&a.ctx, &key, 5, &vec![], &amount, 0, 1)
            .map(|x| x.decrypted_remaining),
        Err(WalletError::PrfDomainError)
    );
    assert_eq!(
        create_pub_to_sec_aux(&a.ctx, &key, 5, &vec![], &amount, 1).map(|x| x.decrypted_remaining),
        Err(WalletError::PrfDomainError)
    );
    assert_eq!(
        create_encrypted_transfer_aux(&a.ctx, &key, 5, &public_key(&a), &vec![], &amount, 0, 1)
            .map(|x| x.decrypted_remaining),
        Err(WalletError::PrfDomainError)
    );
}

#[test]
fn parameters_without_a_generator_are_rejected() {
    let a = account([5, 0, 0, 0]);
    let mut bytes = a.ctx.to_bytes();
    bytes[48] = 0xc0;
    for b in bytes[49..96].iter_mut() {
        *b = 0;
    }
    let ctx = GlobalContext::from_bytes(&bytes).expect("parameters");
    assert_eq!(decryption_table(&ctx).map(|_| ()), Err(WalletError::DecodingError));
    let prf = PrfKey { scalar: Scalar::from_u64(1) };
    assert_eq!(
        decrypt_amounts_aux(&ctx, &prf, 1, &vec![]),
        Err(WalletError::DecodingError)
    );
    assert_eq!(
        create_pub_to_sec_aux(&ctx, &prf, 1, &vec![], &blinded(&a, 1), 1)
            .map(|x| x.decrypted_remaining),
        Err(WalletError::DecodingError)
    );
}
