//! Derivation of secret scalars from seeds.

use crate::bytes::{
    be_value, le_value, lemma_be_value_reversed, lemma_le_value_bound, lemma_le_value_concat,
    lemma_le_value_padded, lemma_pow256_values, pow256, zeros,
};
use crate::error::WalletError;
use crate::hexcode::{
    hex_decode, hex_decoded, hex_value, is_hex, lemma_hex_value_concat, lemma_is_hex_subrange,
    lemma_pow16_values, parse_hex_u64,
};
use crate::scalar::{
    field_add, field_mul, group_order, lemma_scalar_equal, limbs_value, scalar_capacity,
    scalar_from_bytes, shift_value, Scalar,
};
use hkdf::Hkdf;
use sha2::Digest;
use sha2::Sha256;
use vstd::prelude::*;
use vstd::slice::slice_to_vec;
use vstd::string::StringSliceAdditionalSpecFns;

verus! {

/// The SHA-256 digest of a byte string.
pub uninterp spec fn sha256_digest(data: Seq<u8>) -> Seq<u8>;

/// The pseudorandom key that the extraction step of HKDF with SHA-256 makes
/// of a salt and input keying material.
pub uninterp spec fn hkdf_extract(salt: Seq<u8>, ikm: Seq<u8>) -> Seq<u8>;

/// The output keying material of the given length that the expansion step
/// of HKDF with SHA-256 makes of a pseudorandom key and an info string.
pub uninterp spec fn hkdf_expand(prk: Seq<u8>, info: Seq<u8>, len: nat) -> Seq<u8>;

/// Number of bytes of output keying material that one scalar is made of.
pub const OKM_LENGTH: usize = 48;

/// Number of salts that are tried before the derivation gives up.
pub const KEYGEN_MAX_ROUNDS: u32 = 256;

/// The text whose digest is the first salt: `BLS-SIG-KEYGEN-SALT-`.
pub open spec fn keygen_salt_text() -> Seq<u8> {
    seq![
        0x42u8, 0x4c, 0x53, 0x2d, 0x53, 0x49, 0x47, 0x2d, 0x4b, 0x45, 0x59, 0x47, 0x45, 0x4e,
        0x2d, 0x53, 0x41, 0x4c, 0x54, 0x2d,
    ]
}

/// The scalar that one salt yields: 48 bytes of output keying material, read
/// as a big-endian integer and reduced modulo the group order.
pub open spec fn keygen_candidate(salt: Seq<u8>, ikm: Seq<u8>, key_info: Seq<u8>) -> int {
    let prk = hkdf_extract(salt, ikm.push(0));
    let okm = hkdf_expand(prk, key_info.push(0).push(OKM_LENGTH as u8), OKM_LENGTH as nat);
    be_value(okm) % group_order()
}

/// The first nonzero candidate among those of `rounds` salts, each salt the
/// digest of the one before.
pub open spec fn keygen_search(salt: Seq<u8>, ikm: Seq<u8>, key_info: Seq<u8>, rounds: nat)
    -> Option<int>
    decreases rounds,
{
    if rounds == 0 {
        None
    } else {
        let candidate = keygen_candidate(salt, ikm, key_info);
        if candidate != 0 {
            Some(candidate)
        } else {
            keygen_search(sha256_digest(salt), ikm, key_info, (rounds - 1) as nat)
        }
    }
}

/// The scalar derived from input keying material, if one of the salts
/// yields a nonzero one.
pub open spec fn keygen_scalar(ikm: Seq<u8>, key_info: Seq<u8>) -> Option<int> {
    keygen_search(sha256_digest(keygen_salt_text()), ikm, key_info, KEYGEN_MAX_ROUNDS as nat)
}

/// Calls `Sha256::digest` of the crate `sha2`. The contract names the digest
/// and states its length.
#[verifier::external_body]
pub(crate) fn sha256(data: &[u8]) -> (r: Vec<u8>)
    ensures
        r@ == sha256_digest(data@),
        r@.len() == 32,
{
    Sha256::digest(data).to_vec()
}

/// Calls `Hkdf::<Sha256>::extract` of the crate `hkdf` with the salt given,
/// and keeps the pseudorandom key. The contract names the key and states
/// its length.
#[verifier::external_body]
fn hkdf_extract_sha256(salt: &[u8], ikm: &[u8]) -> (r: Vec<u8>)
    ensures
        r@ == hkdf_extract(salt@, ikm@),
        r@.len() == 32,
{
    let (prk, _) = Hkdf::<Sha256>::extract(Some(salt), ikm);
    prk.to_vec()
}

/// Calls `Hkdf::<Sha256>::expand` of the crate `hkdf` on the pseudorandom
/// key. The key is long enough and the output short enough for the call to
/// succeed; the contract names the output and states its length.
#[verifier::external_body]
fn hkdf_expand_sha256(prk: &[u8], info: &[u8], len: usize) -> (r: Vec<u8>)
    requires
        prk@.len() >= 32,
        len <= 8160,
    ensures
        r@ == hkdf_expand(prk@, info@, len as nat),
        r@.len() == len,
{
    let mut okm = vec![0u8; len];
    let hk = Hkdf::<Sha256>::from_prk(prk).expect("key of digest length");
    hk.expand(info, &mut okm).expect("output within the limit");
    okm
}

/// The text whose digest is the first salt.
fn salt_text() -> (r: Vec<u8>)
    ensures
        r@ == keygen_salt_text(),
{
    let r = vec![
        0x42u8, 0x4c, 0x53, 0x2d, 0x53, 0x49, 0x47, 0x2d, 0x4b, 0x45, 0x59, 0x47, 0x45, 0x4e,
        0x2d, 0x53, 0x41, 0x4c, 0x54, 0x2d,
    ];
    assert(r@ =~= keygen_salt_text());
    r
}

/// Reads 48 bytes as a big-endian integer and reduces it modulo the group
/// order; there is no scalar for another number of bytes. The bytes are
/// split into a low limb of 31 bytes and a high limb of 17 bytes, each
/// small enough to be a scalar as it stands, and the high limb is shifted
/// into place by a multiplication in the field.
pub fn scalar_from_okm(okm: &[u8]) -> (r: Option<Scalar>)
    ensures
        r is Some <==> okm@.len() == OKM_LENGTH,
        r is Some ==> r->0.wf() && r->0.value() == be_value(okm@) % group_order(),
{
    if okm.len() != OKM_LENGTH {
        return None;
    }
    let mut low: Vec<u8> = Vec::new();
    let mut i: usize = 0;
    while i < 31
        invariant
            i <= 31,
            okm@.len() == 48,
            low@ =~= okm@.reverse().subrange(0, i as int),
        decreases 31 - i,
    {
        low.push(okm[47 - i]);
        i = i + 1;
    }
    low.push(0);
    let mut high: Vec<u8> = Vec::new();
    while i < 48
        invariant
            31 <= i <= 48,
            okm@.len() == 48,
            high@ =~= okm@.reverse().subrange(31, i as int),
        decreases 48 - i,
    {
        high.push(okm[47 - i]);
        i = i + 1;
    }
    while i < 63
        invariant
            48 <= i <= 63,
            high@ =~= okm@.reverse().subrange(31, 48) + zeros((i - 48) as nat),
        decreases 63 - i,
    {
        high.push(0);
        i = i + 1;
    }
    let y1 = scalar_from_bytes(low.as_slice());
    let y2 = scalar_from_bytes(high.as_slice());
    let shift = Scalar::shift_248();
    let shifted = field_mul(&y2, &shift);
    let sum = field_add(&y1, &shifted);
    proof {
        let rev = okm@.reverse();
        lemma_be_value_reversed(okm@);
        let a = rev.subrange(0, 31);
        let b = rev.subrange(31, 48);
        assert(rev =~= a + b);
        assert(low@ =~= a + zeros(1));
        lemma_le_value_padded(a, 1);
        lemma_le_value_padded(b, 15);
        lemma_le_value_concat(a, b);
        lemma_le_value_bound(a);
        lemma_le_value_bound(b);
        lemma_pow256_values();
        let va = le_value(a);
        let vb = le_value(b);
        assert(va % scalar_capacity() == va);
        assert(vb % scalar_capacity() == vb);
        assert(y1.value() == va);
        assert(y2.value() == vb);
        assert(shifted.value() == (vb * shift_value()) % group_order());
        vstd::arithmetic::div_mod::lemma_add_mod_noop_right(
            va,
            vb * shift_value(),
            group_order(),
        );
        assert(vb * shift_value() == pow256(31) * vb) by (nonlinear_arith)
            requires
                shift_value() == pow256(31),
        ;
    }
    Some(sum)
}

/// Derives a secret scalar from input keying material: the key generation
/// of BLS signatures, with the zero byte appended to the keying material
/// and the output length written in two bytes after the key info.
pub fn keygen_bls_fixed(ikm: &[u8], key_info: &[u8]) -> (r: Result<Scalar, WalletError>)
    ensures
        match keygen_scalar(ikm@, key_info@) {
            Some(v) => r is Ok && r->Ok_0.value() == v && r->Ok_0.wf(),
            None => r == Err::<Scalar, WalletError>(WalletError::KeyDerivationError),
        },
{
    let mut material = slice_to_vec(ikm);
    material.push(0);
    let mut info = slice_to_vec(key_info);
    info.push(0);
    info.push(OKM_LENGTH as u8);
    let text = salt_text();
    let mut salt = sha256(text.as_slice());
    let mut round: u32 = 0;
    while round < KEYGEN_MAX_ROUNDS
        invariant
            round <= KEYGEN_MAX_ROUNDS,
            material@ == ikm@.push(0),
            info@ == key_info@.push(0).push(OKM_LENGTH as u8),
            salt@.len() == 32,
            keygen_scalar(ikm@, key_info@) == keygen_search(
                salt@,
                ikm@,
                key_info@,
                (KEYGEN_MAX_ROUNDS - round) as nat,
            ),
        decreases KEYGEN_MAX_ROUNDS - round,
    {
        let prk = hkdf_extract_sha256(salt.as_slice(), material.as_slice());
        let okm = hkdf_expand_sha256(prk.as_slice(), info.as_slice(), OKM_LENGTH);
        match scalar_from_okm(okm.as_slice()) {
            Some(candidate) => {
                if !candidate.is_zero() {
                    return Ok(candidate);
                }
            },
            None => {
                return Err(WalletError::KeyDerivationError);
            },
        }
        salt = sha256(salt.as_slice());
        round = round + 1;
    }
    Err(WalletError::KeyDerivationError)
}

/// How the text handed to a derivation is to be read.
#[derive(Copy, Clone, Debug, PartialEq, Eq, Structural)]
pub enum RawBlsType {
    /// A seed in hexadecimal, for the key generation in use.
    Seed,
    /// A seed taken as the bytes of its text, for the key generation of
    /// keys issued earlier.
    SeedDeprecated,
    /// A scalar written out in hexadecimal.
    Bls,
}

/// Number of hexadecimal digits that write a scalar.
pub const RAW_SCALAR_DIGITS: usize = 64;

/// What a seed in hexadecimal derives: the scalar of its bytes, with empty
/// key info.
pub open spec fn seed_scalar(seed: Seq<u8>) -> Result<int, WalletError> {
    match hex_decoded(seed) {
        None => Err(WalletError::DecodingError),
        Some(ikm) => match keygen_scalar(ikm, Seq::<u8>::empty()) {
            None => Err(WalletError::KeyDerivationError),
            Some(v) => Ok(v),
        },
    }
}

/// What a scalar written in hexadecimal stands for: the number that its
/// first 64 digits write, if it lies below the group order.
pub open spec fn raw_scalar(text: Seq<u8>) -> Result<int, WalletError> {
    if text.len() >= RAW_SCALAR_DIGITS && is_hex(text.subrange(0, RAW_SCALAR_DIGITS as int))
        && hex_value(text.subrange(0, RAW_SCALAR_DIGITS as int)) < group_order() {
        Ok(hex_value(text.subrange(0, RAW_SCALAR_DIGITS as int)))
    } else {
        Err(WalletError::DecodingError)
    }
}

/// What the key generation of earlier keys yields, given what it returned.
pub open spec fn legacy_scalar(keygen_output: Option<Scalar>) -> Result<int, WalletError> {
    match keygen_output {
        Some(s) => Ok(s.value()),
        None => Err(WalletError::KeyDerivationError),
    }
}

/// The scalar that a text derives in a given reading.
pub open spec fn derived_scalar(text: Seq<u8>, raw_type: RawBlsType, legacy_output: Option<Scalar>)
    -> Result<int, WalletError> {
    match raw_type {
        RawBlsType::Seed => seed_scalar(text),
        RawBlsType::SeedDeprecated => legacy_scalar(legacy_output),
        RawBlsType::Bls => raw_scalar(text),
    }
}

/// A result holds the scalar, or the error, that a derivation specifies.
pub open spec fn holds_scalar(r: Result<Scalar, WalletError>, expected: Result<int, WalletError>)
    -> bool {
    match expected {
        Ok(v) => r is Ok && r->Ok_0.value() == v && r->Ok_0.wf(),
        Err(e) => r == Err::<Scalar, WalletError>(e),
    }
}

/// Derives a scalar from a seed written in hexadecimal.
pub fn generate_bls_key(seed: &str) -> (r: Result<Scalar, WalletError>)
    ensures
        holds_scalar(r, seed_scalar(seed.spec_bytes())),
{
    match hex_decode(seed.as_bytes()) {
        None => Err(WalletError::DecodingError),
        Some(ikm) => {
            let key_info: Vec<u8> = Vec::new();
            assert(key_info@ =~= Seq::<u8>::empty());
            keygen_bls_fixed(ikm.as_slice(), key_info.as_slice())
        },
    }
}

/// The keying material and the key info that the key generation of earlier
/// keys is to be run on for a seed: the bytes of the text as they stand, and
/// no key info.
pub fn legacy_keygen_input(seed: &str) -> (r: (Vec<u8>, Vec<u8>))
    ensures
        r.0@ == seed.spec_bytes(),
        r.1@ == Seq::<u8>::empty(),
{
    let key_info: Vec<u8> = Vec::new();
    assert(key_info@ =~= Seq::<u8>::empty());
    (slice_to_vec(seed.as_bytes()), key_info)
}

/// Takes what the key generation of earlier keys returned for a seed: its
/// scalar, or nothing where it failed.
pub fn generate_bls_key_deprecated(keygen_output: Option<Scalar>) -> (r: Result<
    Scalar,
    WalletError,
>)
    ensures
        holds_scalar(r, legacy_scalar(keygen_output)),
        keygen_output is Some ==> r == Ok::<Scalar, WalletError>(keygen_output->0),
{
    match keygen_output {
        Some(s) => {
            proof {
                use_type_invariant(&s);
            }
            Ok(s)
        },
        None => Err(WalletError::KeyDerivationError),
    }
}

/// Reads a scalar written as 64 hexadecimal digits, most significant first.
pub fn parse_raw_scalar(text: &[u8]) -> (r: Result<Scalar, WalletError>)
    ensures
        holds_scalar(r, raw_scalar(text@)),
{
    if text.len() < RAW_SCALAR_DIGITS {
        return Err(WalletError::DecodingError);
    }
    let ghost digits = text@.subrange(0, 64);
    let ghost d3 = text@.subrange(0, 16);
    let ghost d2 = text@.subrange(16, 32);
    let ghost d1 = text@.subrange(32, 48);
    let ghost d0 = text@.subrange(48, 64);
    proof {
        assert(digits =~= d3 + d2 + d1 + d0);
        if is_hex(digits) {
            lemma_is_hex_subrange(digits, 0, 16);
            lemma_is_hex_subrange(digits, 16, 32);
            lemma_is_hex_subrange(digits, 32, 48);
            lemma_is_hex_subrange(digits, 48, 64);
            assert(digits.subrange(0, 16) =~= d3);
            assert(digits.subrange(16, 32) =~= d2);
            assert(digits.subrange(32, 48) =~= d1);
            assert(digits.subrange(48, 64) =~= d0);
        }
    }
    let w0 = parse_hex_u64(text, 48);
    let w1 = parse_hex_u64(text, 32);
    let w2 = parse_hex_u64(text, 16);
    let w3 = parse_hex_u64(text, 0);
    match (w0, w1, w2, w3) {
        (Some(l0), Some(l1), Some(l2), Some(l3)) => {
            let limbs: [u64; 4] = [l0, l1, l2, l3];
            proof {
                assert(limbs[0] == l0 && limbs[1] == l1 && limbs[2] == l2 && limbs[3] == l3);
                assert forall|i: int| 0 <= i < 64 implies
                    (#[trigger] crate::hexcode::hex_digit_value(digits[i])) is Some by {
                    if i < 16 {
                        assert(digits[i] == d3[i]);
                    } else if i < 32 {
                        assert(digits[i] == d2[i - 16]);
                    } else if i < 48 {
                        assert(digits[i] == d1[i - 32]);
                    } else {
                        assert(digits[i] == d0[i - 48]);
                    }
                }
                lemma_hex_value_concat(d3 + d2 + d1, d0);
                lemma_hex_value_concat(d3 + d2, d1);
                lemma_hex_value_concat(d3, d2);
                lemma_pow16_values();
                assert(hex_value(digits) == limbs_value(limbs));
            }
            match Scalar::from_limbs(limbs) {
                Some(s) => Ok(s),
                None => Err(WalletError::DecodingError),
            }
        },
        _ => {
            proof {
                if is_hex(digits) {
                    assert(false);
                }
            }
            Err(WalletError::DecodingError)
        },
    }
}

/// Derives a secret scalar from a text, read as `raw_type` says. For a seed
/// of an earlier key the scalar is the one that the key generation of
/// earlier keys returned, which the caller hands over.
pub fn get_bls(s: &str, raw_type: RawBlsType, legacy_output: Option<Scalar>) -> (r: Result<
    Scalar,
    WalletError,
>)
    ensures
        holds_scalar(r, derived_scalar(s.spec_bytes(), raw_type, legacy_output)),
{
    match raw_type {
        RawBlsType::SeedDeprecated => generate_bls_key_deprecated(legacy_output),
        RawBlsType::Seed => generate_bls_key(s),
        RawBlsType::Bls => parse_raw_scalar(s.as_bytes()),
    }
}

/// The same text in the same reading derives the same scalar, or fails in
/// the same way.
pub proof fn lemma_derivation_is_deterministic(
    text: Seq<u8>,
    raw_type: RawBlsType,
    legacy_output: Option<Scalar>,
    first: Result<Scalar, WalletError>,
    second: Result<Scalar, WalletError>,
)
    requires
        holds_scalar(first, derived_scalar(text, raw_type, legacy_output)),
        holds_scalar(second, derived_scalar(text, raw_type, legacy_output)),
    ensures
        first == second,
{
    if first is Ok {
        lemma_scalar_equal(first->Ok_0, second->Ok_0);
    }
}

} // verus!
