use concordium_base::common::to_bytes;
use concordium_base::curve_arithmetic::Curve;
use concordium_base::id::types::account_address_from_registration_id;
use concordium_base::id::types::GlobalContext as ChainContext;
use pairing::bls12_381::G1;
use sha2::{Digest, Sha256};
use shielded_wallet::context::GlobalContext;
use shielded_wallet::credential::{
    baker_challenge, block_item_bytes, build_key_map, calculate_cred_id,
    check_revealed_attributes, deployment_details, genesis_valid_to,
    get_address_from_cred_id, revocation_threshold, AttributeError, BakerKeyVariant, VerifyKey,
};
use shielded_wallet::error::WalletError;
use shielded_wallet::prf::{generate_cred_id, PrfKey};
use shielded_wallet::scalar::Scalar;

#[test]
fn keys_are_numbered_in_order() {
    let keys = vec![VerifyKey { bytes: [7; 32] }, VerifyKey { bytes: [8; 32] }];
    assert_eq!(
        build_key_map(&keys),
        vec![(0, VerifyKey { bytes: [7; 32] }), (1, VerifyKey { bytes: [8; 32] })]
    );
    assert_eq!(build_key_map(&vec![]), vec![]);
    let many = vec![VerifyKey { bytes: [1; 32] }; 256];
    let map = build_key_map(&many);
    assert_eq!(map.len(), 256);
    assert_eq!(map[255].0, 255);
}

#[test]
fn threshold_is_all_revokers_but_one() {
    assert_eq!(revocation_threshold(0), None);
    assert_eq!(revocation_threshold(1), Some(1));
    assert_eq!(revocation_threshold(2), Some(1));
    assert_eq!(revocation_threshold(3), Some(2));
    assert_eq!(revocation_threshold(10), Some(9));
    assert_eq!(revocation_threshold(255), Some(254));
    assert_eq!(revocation_threshold(256), Some(255));
    assert_eq!(revocation_threshold(257), Some(255));
    assert_eq!(revocation_threshold(100000), Some(255));
}

#[test]
fn attributes_are_revealed_once_and_from_the_list() {
    assert_eq!(check_revealed_attributes(&vec![], &vec![]), Ok(()));
    assert_eq!(check_revealed_attributes(&vec![], &vec![1, 2]), Ok(()));
    assert_eq!(check_revealed_attributes(&vec![2, 1], &vec![1, 2, 3]), Ok(()));
    assert_eq!(
        check_revealed_attributes(&vec![1, 1], &vec![1, 2, 3]),
        Err(AttributeError::RevealedTwice)
    );
    assert_eq!(
        check_revealed_attributes(&vec![1, 4], &vec![1, 2, 3]),
        Err(AttributeError::NotInList)
    );
    assert_eq!(check_revealed_attributes(&vec![1], &vec![]), Err(AttributeError::NotInList));
    // the first name that cannot be revealed decides
    assert_eq!(
        check_revealed_attributes(&vec![1, 1, 4], &vec![1, 2, 3]),
        Err(AttributeError::RevealedTwice)
    );
    assert_eq!(
        check_revealed_attributes(&vec![4, 1, 1], &vec![1, 2, 3]),
        Err(AttributeError::NotInList)
    );
    // a name that is not in the list is that before it is a repetition
    assert_eq!(
        check_revealed_attributes(&vec![4, 4], &vec![1, 2, 3]),
        Err(AttributeError::NotInList)
    );
}

#[test]
fn genesis_credential_is_valid_for_five_years() {
    assert_eq!(genesis_valid_to(2021), Some(2026));
    assert_eq!(genesis_valid_to(0), Some(5));
    assert_eq!(genesis_valid_to(65530), Some(65535));
    assert_eq!(genesis_valid_to(65531), None);
    assert_eq!(genesis_valid_to(u16::MAX), None);
}

#[test]
fn baker_challenge_starts_with_what_the_keys_are_for() {
    let add = baker_challenge(BakerKeyVariant::ADD, &vec![1, 2], &vec![3], &vec![4, 5], &vec![6]);
    assert_eq!(add, [b"addBaker".to_vec(), vec![1, 2, 3, 4, 5, 6]].concat());
    let update = baker_challenge(BakerKeyVariant::UPDATE, &vec![1], &vec![], &vec![2], &vec![3]);
    assert_eq!(update, [b"updateBakerKeys".to_vec(), vec![1, 2, 3]].concat());
}

#[test]
fn deployment_is_framed_with_tag_and_version() {
    let message = vec![9u8, 8, 7];
    assert_eq!(block_item_bytes(&message), vec![1, 9, 8, 7]);
    let details = deployment_details(&message);
    assert_eq!(details.hex, b"0001090807".to_vec());
    let digest = Sha256::digest(&[1u8, 9, 8, 7]);
    assert_eq!(details.hash, hex::encode(digest).into_bytes());
    assert_eq!(details.hash.len(), 64);
}

#[test]
fn address_is_the_digest_of_the_identifier() {
    let point = G1::one_point().mul_by_scalar(&G1::scalar_from_u64(12345));
    let text = hex::encode(to_bytes(&point));
    let address = get_address_from_cred_id(&text).unwrap();
    assert_eq!(address.len(), 32);
    assert_eq!(address, account_address_from_registration_id(&point).0.to_vec());
    assert_eq!(address, Sha256::digest(&to_bytes(&point)).to_vec());
    // what follows the identifier is not read
    let longer = format!("{}00ff", text);
    assert_eq!(get_address_from_cred_id(&longer).unwrap(), address);
}

#[test]
fn address_needs_an_identifier() {
    assert_eq!(get_address_from_cred_id(""), Err(WalletError::DecodingError));
    assert_eq!(get_address_from_cred_id("zz"), Err(WalletError::DecodingError));
    assert_eq!(get_address_from_cred_id("abc"), Err(WalletError::DecodingError));
    assert_eq!(get_address_from_cred_id(&"00".repeat(48)), Err(WalletError::DecodingError));
    let point = G1::one_point();
    let text = hex::encode(to_bytes(&point));
    assert_eq!(get_address_from_cred_id(&text[..94]), Err(WalletError::DecodingError));
}

#[test]
fn credential_identifier_is_written_in_hexadecimal() {
    let chain = ChainContext::<G1>::generate_size(String::from("test"), 2);
    let ctx = GlobalContext::from_bytes(&to_bytes(&chain)).expect("parameters");
    let key = PrfKey { scalar: Scalar::from_u64(77) };
    let text = calculate_cred_id(&key, 3, &ctx).unwrap();
    let id = generate_cred_id(&key, 3, &ctx).unwrap();
    assert_eq!(text, hex::encode(id.to_bytes()).into_bytes());
    assert_eq!(text.len(), 96);
    let degenerate = PrfKey {
        scalar: Scalar::from_limbs([
            0xfffffffefffffffc,
            0x53bda402fffe5bfe,
            0x3339d80809a1d805,
            0x73eda753299d7d48,
        ])
        .unwrap(),
    };
    assert_eq!(calculate_cred_id(&degenerate, 5, &ctx), Err(WalletError::PrfDomainError));
}
