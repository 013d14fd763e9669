use concordium_base::common::to_bytes;
use concordium_base::curve_arithmetic::Curve;
use concordium_base::id::types::GlobalContext as ChainContext;
use ff::Field;
use ff::PrimeField;
use pairing::bls12_381::{Fr, FrRepr, G1};
use shielded_wallet::context::GlobalContext;
use shielded_wallet::error::WalletError;
use shielded_wallet::keygen::RawBlsType;
use shielded_wallet::prf::{generate_cred_id, get_id_cred_sec, get_prf_key, PrfKey};
use shielded_wallet::scalar::Scalar;

fn key(limbs: [u64; 4]) -> PrfKey {
    PrfKey { scalar: Scalar::from_limbs(limbs).expect("a scalar") }
}

fn context() -> GlobalContext {
    let chain = ChainContext::<G1>::generate_size(String::from("test"), 2);
    GlobalContext::from_bytes(&to_bytes(&chain)).expect("parameters")
}

#[test]
fn exponent_is_the_inverse_of_key_plus_index() {
    // the inverse of two
    assert_eq!(
        key([1, 0, 0, 0]).prf_exponent(1).unwrap().limbs(),
        [0x7fffffff80000001, 0xa9ded2017fff2dff, 0x199cec0404d0ec02, 0x39f6d3a994cebea4]
    );
    assert_eq!(key([1, 0, 0, 0]).prf_exponent(0).unwrap().limbs(), [1, 0, 0, 0]);
    let k = key([0x1234567890abcdef, 0, 0, 0]);
    assert_eq!(
        k.prf_exponent(0).unwrap().limbs(),
        [0xa98f70b3f165e6da, 0x54507ee49089868e, 0x5ebbf3ba1a05be3e, 0x6e8ea549af2c09ea]
    );
    assert_eq!(
        k.prf_exponent(1).unwrap().limbs(),
        [0x70583da910484e40, 0xbdc0d0d4cbf69a5c, 0x3875b03c37bf6299, 0x2375f1da69c66ca5]
    );
    assert_eq!(
        k.prf_exponent(255).unwrap().limbs(),
        [0x58fc58b06814da72, 0x885f4d9637a633b3, 0xeca919e8643e81de, 0x2616b4e04274d45c]
    );
}

#[test]
fn exponent_times_key_plus_index_is_one() {
    let k = key([5, 6, 7, 8]);
    for n in [0u8, 1, 17, 255] {
        let e = k.prf_exponent(n).unwrap();
        let mut sum = Fr::from_repr(FrRepr(k.scalar.limbs())).unwrap();
        sum.add_assign(&Fr::from_repr(FrRepr([n as u64, 0, 0, 0])).unwrap());
        sum.mul_assign(&Fr::from_repr(FrRepr(e.limbs())).unwrap());
        assert_eq!(sum, Fr::one());
    }
}

#[test]
fn index_that_cancels_the_key_is_rejected() {
    // the group order less five
    let k = key([0xfffffffefffffffc, 0x53bda402fffe5bfe, 0x3339d80809a1d805, 0x73eda753299d7d48]);
    assert_eq!(k.prf_exponent(5).map(|s| s.limbs()), Err(WalletError::PrfDomainError));
    assert!(k.prf_exponent(4).is_ok());
    assert!(k.prf_exponent(6).is_ok());
    assert_eq!(
        key([0, 0, 0, 0]).prf_exponent(0).map(|s| s.limbs()),
        Err(WalletError::PrfDomainError)
    );
}

#[test]
fn subkeys_are_stable_and_differ_by_index() {
    let k = key([42, 0, 0, 1]);
    let mut seen: Vec<[u64; 4]> = Vec::new();
    for n in 0..=255u8 {
        let first = k.prf_exponent(n).unwrap().limbs();
        let second = k.prf_exponent(n).unwrap().limbs();
        assert_eq!(first, second);
        assert!(!seen.contains(&first));
        seen.push(first);
    }
}

#[test]
fn keys_are_derived_from_text_in_every_mode() {
    let raw = "0000000000000004000000000000000300000000000000020000000000000001";
    assert_eq!(get_prf_key(raw, RawBlsType::Bls, None).unwrap().scalar.limbs(), [1, 2, 3, 4]);
    assert_eq!(get_id_cred_sec(raw, RawBlsType::Bls, None).unwrap().scalar.limbs(), [1, 2, 3, 4]);
    assert_eq!(
        get_prf_key("00", RawBlsType::Seed, None).unwrap().scalar.limbs(),
        [0x5d5adddc9afc3c5f, 0x69a3477b86e2a814, 0x0c7b8d0fffca5ced, 0x05696e76efc94358]
    );
    assert_eq!(
        get_id_cred_sec("00", RawBlsType::Seed, None).unwrap().scalar.limbs(),
        [0x5d5adddc9afc3c5f, 0x69a3477b86e2a814, 0x0c7b8d0fffca5ced, 0x05696e76efc94358]
    );
    let legacy = Scalar::from_u64(9);
    assert_eq!(
        get_prf_key("x", RawBlsType::SeedDeprecated, Some(legacy)).unwrap().scalar.limbs(),
        [9, 0, 0, 0]
    );
    assert_eq!(
        get_prf_key("x", RawBlsType::Seed, None).map(|k| k.scalar.limbs()),
        Err(WalletError::DecodingError)
    );
    assert_eq!(
        get_id_cred_sec("x", RawBlsType::SeedDeprecated, None).map(|k| k.scalar.limbs()),
        Err(WalletError::KeyDerivationError)
    );
}

#[test]
fn credential_identifier_is_the_generator_raised_to_the_exponent() {
    let chain = ChainContext::<G1>::generate_size(String::from("test"), 2);
    let ctx = GlobalContext::from_bytes(&to_bytes(&chain)).expect("parameters");
    let k = key([7, 0, 0, 0]);
    let id = generate_cred_id(&k, 3, &ctx).unwrap();
    let e = k.prf_exponent(3).unwrap();
    let expected = chain
        .on_chain_commitment_key
        .g
        .mul_by_scalar(&Fr::from_repr(FrRepr(e.limbs())).unwrap());
    assert_eq!(id.to_bytes(), to_bytes(&expected));
    assert_ne!(id.to_bytes(), generate_cred_id(&k, 4, &ctx).unwrap().to_bytes());
}

#[test]
fn credential_identifier_needs_an_exponent() {
    let k = key([0xfffffffefffffffc, 0x53bda402fffe5bfe, 0x3339d80809a1d805, 0x73eda753299d7d48]);
    assert_eq!(
        generate_cred_id(&k, 5, &context()).map(|g| g.to_bytes()),
        Err(WalletError::PrfDomainError)
    );
}

#[test]
fn parameters_are_read_from_their_encoding() {
    let chain = ChainContext::<G1>::generate_size(String::from("genesis"), 3);
    let bytes = to_bytes(&chain);
    let ctx = GlobalContext::from_bytes(&bytes).expect("parameters");
    assert_eq!(ctx.elgamal_generator().to_bytes(), to_bytes(chain.elgamal_generator()));
    assert_eq!(
        ctx.encryption_in_exponent_generator().to_bytes(),
        to_bytes(chain.encryption_in_exponent_generator())
    );
    assert_eq!(ctx.remainder, bytes[96..].to_vec());
    assert_eq!(ctx.to_bytes(), bytes);
    assert!(GlobalContext::from_bytes(&bytes[..95]).is_none());
    assert!(GlobalContext::from_bytes(&[0u8; 200]).is_none());
    let bare = GlobalContext::from_bytes(&bytes[..96]).expect("a key alone");
    assert!(bare.remainder.is_empty());
}

#[test]
fn parameters_announce_their_generators() {
    let chain = ChainContext::<G1>::generate_size(String::from("genesis"), 3);
    let bytes = to_bytes(&chain);
    let ctx = GlobalContext::from_bytes(&bytes).expect("parameters");
    assert_eq!(ctx.generator_count(), Some(3));
    assert!(ctx.is_framed());
    let many = ChainContext::<G1>::generate_size(String::new(), 64);
    let ctx = GlobalContext::from_bytes(&to_bytes(&many)).expect("parameters");
    assert_eq!(ctx.generator_count(), Some(64));
    assert!(ctx.is_framed());
    // the number is written in four bytes, most significant first
    let mut made = bytes[..96].to_vec();
    made.extend_from_slice(&[1, 2, 3, 4]);
    let ctx = GlobalContext::from_bytes(&made).expect("parameters");
    assert_eq!(ctx.generator_count(), Some(0x01020304));
    assert!(!ctx.is_framed());
    made.truncate(99);
    let ctx = GlobalContext::from_bytes(&made).expect("parameters");
    assert_eq!(ctx.generator_count(), None);
    assert!(!ctx.is_framed());
    let bare = GlobalContext::from_bytes(&bytes[..96]).expect("a key alone");
    assert_eq!(bare.generator_count(), None);
    assert!(!bare.is_framed());
}

#[test]
fn parameters_are_framed_when_they_hold_what_they_announce() {
    let chain = ChainContext::<G1>::generate_size(String::from("genesis"), 1);
    let bytes = to_bytes(&chain);
    assert_eq!(bytes.len(), 96 + 4 + 96 + 4 + 7);
    // what follows the genesis string is not counted
    let mut more = bytes.clone();
    more.push(0);
    assert!(GlobalContext::from_bytes(&more).unwrap().is_framed());
    // a byte less than announced
    assert!(!GlobalContext::from_bytes(&bytes[..bytes.len() - 1]).unwrap().is_framed());
    // the length of the genesis string cut off
    assert!(!GlobalContext::from_bytes(&bytes[..96 + 4 + 96 + 3]).unwrap().is_framed());
    // a pair of generators cut off
    assert!(!GlobalContext::from_bytes(&bytes[..96 + 4 + 95]).unwrap().is_framed());
    // the largest announcements
    let mut made = bytes[..96].to_vec();
    made.extend_from_slice(&[0xff; 8]);
    assert!(!GlobalContext::from_bytes(&made).unwrap().is_framed());
    let mut made = bytes[..96].to_vec();
    made.extend_from_slice(&[0, 0, 0, 0, 0xff, 0xff, 0xff, 0xff]);
    assert!(!GlobalContext::from_bytes(&made).unwrap().is_framed());
    let mut made = bytes[..96].to_vec();
    made.extend_from_slice(&[0, 0, 0, 0, 0, 0, 0, 2, 7, 7]);
    assert!(GlobalContext::from_bytes(&made).unwrap().is_framed());
}
