use concordium_base::common::to_bytes;
use concordium_base::curve_arithmetic::Curve;
use pairing::bls12_381::G1;
use shielded_wallet::amount::{
    aggregate, aggregate_all, encrypt_amount_with_fixed_randomness, Cipher, EncryptedAmount,
};
use shielded_wallet::context::{CommitmentKey, GlobalContext};
use shielded_wallet::group::GroupElement;

const GENERATOR: &str = "97f1d3a73197d7942695638c4fa9ac0fc3688c4f9774b905a14e3a3f171bac586c55e83ff97a1aeffb3af00adb22c6bb";
const DOUBLE: &str = "a572cbea904d67468808c8eb50a9450c9721db309128012543902d0ac358a62ae28f75bb8f1c7c42c39a8c5529bf0f4e";

fn element(hex_text: &str) -> GroupElement {
    GroupElement::from_bytes(&hex::decode(hex_text).unwrap()).expect("an element")
}

fn chain(h: &str) -> GlobalContext {
    GlobalContext {
        on_chain_commitment_key: CommitmentKey { g: element(DOUBLE), h: element(h) },
        remainder: vec![],
    }
}

fn multiple(n: u64) -> Vec<u8> {
    to_bytes(&G1::one_point().mul_by_scalar(&G1::scalar_from_u64(n)))
}

fn zero_bytes() -> Vec<u8> {
    let mut z = vec![0u8; 48];
    z[0] = 0xc0;
    z
}

#[test]
fn generator_is_an_element() {
    let g = element(GENERATOR);
    assert_eq!(g.to_bytes(), hex::decode(GENERATOR).unwrap());
    assert_eq!(g.to_bytes(), to_bytes(&G1::one_point()));
}

#[test]
fn neutral_element_is_an_element() {
    let z = GroupElement::from_bytes(&zero_bytes()).expect("an element");
    assert_eq!(z.to_bytes(), to_bytes(&G1::zero_point()));
}

#[test]
fn other_bytes_are_no_element() {
    assert!(GroupElement::from_bytes(&[]).is_none());
    assert!(GroupElement::from_bytes(&[0u8; 48]).is_none());
    assert!(GroupElement::from_bytes(&[0xffu8; 48]).is_none());
    assert!(GroupElement::from_bytes(&zero_bytes()[..47]).is_none());
    let mut long = hex::decode(GENERATOR).unwrap();
    long.push(0);
    assert!(GroupElement::from_bytes(&long).is_none());
    // the neutral element with another bit set
    let mut z = zero_bytes();
    z[47] = 1;
    assert!(GroupElement::from_bytes(&z).is_none());
    // the generator with the other sign
    let mut flipped = hex::decode(GENERATOR).unwrap();
    flipped[0] ^= 0x20;
    let other = GroupElement::from_bytes(&flipped).expect("the inverse of the generator");
    assert!(!other.same(&element(GENERATOR)));
}

#[test]
fn same_compares_encodings() {
    assert!(element(GENERATOR).same(&element(GENERATOR)));
    assert!(!element(GENERATOR).same(&element(DOUBLE)));
}

#[test]
fn fingerprint_is_the_last_eight_bytes_read_backwards() {
    assert_eq!(element(GENERATOR).fingerprint(), 0xbbc622db0af03afb);
    assert_eq!(GroupElement::from_bytes(&zero_bytes()).unwrap().fingerprint(), 0);
}

#[test]
fn plain_encryption_puts_halves_in_the_exponent() {
    let g = chain(GENERATOR);
    let amount = (3u64 << 32) + 2;
    let enc = encrypt_amount_with_fixed_randomness(&g, amount);
    assert_eq!(enc.low.blinding.to_bytes(), zero_bytes());
    assert_eq!(enc.high.blinding.to_bytes(), zero_bytes());
    assert_eq!(enc.low.payload.to_bytes(), hex::decode(DOUBLE).unwrap());
    assert_eq!(enc.low.payload.to_bytes(), multiple(2));
    assert_eq!(enc.high.payload.to_bytes(), multiple(3));
}

#[test]
fn plain_encryption_of_zero_is_neutral() {
    let g = chain(GENERATOR);
    let zero = encrypt_amount_with_fixed_randomness(&g, 0);
    assert_eq!(zero.to_bytes(), [zero_bytes(), zero_bytes(), zero_bytes(), zero_bytes()].concat());
    let some = encrypt_amount_with_fixed_randomness(&g, 77);
    assert_eq!(aggregate(&some, &zero).to_bytes(), some.to_bytes());
    assert_eq!(aggregate(&zero, &some).to_bytes(), some.to_bytes());
}

#[test]
fn plain_encryption_of_the_largest_amount() {
    let g = chain(GENERATOR);
    let enc = encrypt_amount_with_fixed_randomness(&g, u64::MAX);
    assert_eq!(enc.low.payload.to_bytes(), multiple(0xffff_ffff));
    assert_eq!(enc.high.payload.to_bytes(), multiple(0xffff_ffff));
}

#[test]
fn aggregation_adds_in_the_exponent() {
    let g = chain(GENERATOR);
    let a = encrypt_amount_with_fixed_randomness(&g, (1u64 << 32) + 5);
    let b = encrypt_amount_with_fixed_randomness(&g, (2u64 << 32) + 7);
    let sum = aggregate(&a, &b);
    assert_eq!(sum.low.payload.to_bytes(), multiple(12));
    assert_eq!(sum.high.payload.to_bytes(), multiple(3));
    assert_eq!(sum.to_bytes(), encrypt_amount_with_fixed_randomness(&g, (3u64 << 32) + 12).to_bytes());
}

#[test]
fn aggregation_is_commutative_and_associative() {
    let g = element(GENERATOR);
    let h = element(DOUBLE);
    let a = encrypt_amount_with_fixed_randomness(&chain(GENERATOR), 100);
    let b = encrypt_amount_with_fixed_randomness(&chain(DOUBLE), (9u64 << 32) + 50);
    let c = EncryptedAmount {
        low: Cipher { blinding: g, payload: h },
        high: Cipher { blinding: h, payload: g },
    };
    assert_eq!(aggregate(&a, &b).to_bytes(), aggregate(&b, &a).to_bytes());
    assert_eq!(aggregate(&a, &c).to_bytes(), aggregate(&c, &a).to_bytes());
    let left = aggregate(&a, &aggregate(&b, &c));
    let right = aggregate(&aggregate(&a, &b), &c);
    assert_eq!(left.to_bytes(), right.to_bytes());
    assert_ne!(left.to_bytes(), a.to_bytes());
}

#[test]
fn folding_aggregates_in_order() {
    let g = chain(GENERATOR);
    let start = encrypt_amount_with_fixed_randomness(&g, 100);
    let incoming = vec![
        encrypt_amount_with_fixed_randomness(&g, 50),
        encrypt_amount_with_fixed_randomness(&g, 25),
    ];
    let all = aggregate_all(&start, &incoming);
    assert_eq!(all.to_bytes(), encrypt_amount_with_fixed_randomness(&g, 175).to_bytes());
    assert_eq!(aggregate_all(&start, &vec![]).to_bytes(), start.to_bytes());
}

#[test]
fn ciphers_and_amounts_are_read_from_their_encodings() {
    let g = hex::decode(GENERATOR).unwrap();
    let d = hex::decode(DOUBLE).unwrap();
    let cipher = Cipher::from_bytes(&[g.clone(), d.clone()].concat()).expect("a cipher");
    assert_eq!(cipher.blinding.to_bytes(), g);
    assert_eq!(cipher.payload.to_bytes(), d);
    assert_eq!(cipher.to_bytes(), [g.clone(), d.clone()].concat());
    assert!(Cipher::from_bytes(&g).is_none());
    assert!(Cipher::from_bytes(&[g.clone(), vec![0u8; 48]].concat()).is_none());
    let bytes = [g.clone(), d.clone(), d.clone(), zero_bytes()].concat();
    let amount = EncryptedAmount::from_bytes(&bytes).expect("an amount");
    assert_eq!(amount.low.blinding.to_bytes(), g);
    assert_eq!(amount.low.payload.to_bytes(), d);
    assert_eq!(amount.high.blinding.to_bytes(), d);
    assert_eq!(amount.high.payload.to_bytes(), zero_bytes());
    assert_eq!(amount.to_bytes(), bytes);
    assert!(EncryptedAmount::from_bytes(&bytes[..191]).is_none());
    assert!(EncryptedAmount::from_bytes(&[bytes.clone(), vec![0]].concat()).is_none());
    assert!(EncryptedAmount::from_bytes(&[0u8; 192]).is_none());
}
