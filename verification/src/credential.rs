//! What the wallet decides when it assembles requests for identities,
//! credentials and baker keys. The objects themselves, their proofs and
//! their signatures are made outside this library, which frames their
//! bytes.

use crate::bytes::append_all;
use crate::context::GlobalContext;
use crate::error::WalletError;
use crate::group::{exponent_encoding, is_element_encoding, GroupElement, ELEMENT_LENGTH};
use crate::hexcode::{hex_decode, hex_decoded, hex_encode, hex_text};
use crate::keygen::{sha256, sha256_digest};
use crate::prf::{generate_cred_id, prf_is_degenerate, prf_value, PrfKey};
use crate::scalar::mul_mod;
use vstd::prelude::*;
use vstd::string::StringSliceAdditionalSpecFns;

verus! {

/// The largest number of keys that an account holds: key indices are bytes.
pub const MAX_KEYS: usize = 256;

/// The tag that marks a credential deployment among block items.
pub const DEPLOYMENT_TAG: u8 = 1;

/// The version under which block items are sent, as it is encoded.
pub const VERSION_0: u8 = 0;

/// The number of accounts that the attributes of a genesis credential
/// allow for.
pub const GENESIS_MAX_ACCOUNTS: u8 = 238;

/// The number of years for which a genesis credential is valid.
pub const GENESIS_VALIDITY_YEARS: u16 = 5;

/// The number of anonymity revokers that a genesis credential needs.
pub const GENESIS_REVOCATION_THRESHOLD: u8 = 1;

/// A key that verifies signatures of an account, as its 32 bytes.
#[derive(Clone, Copy, Debug, PartialEq, Eq)]
pub struct VerifyKey {
    pub bytes: [u8; 32],
}

/// Why a baker asks for keys.
#[derive(Clone, Copy, Debug, PartialEq, Eq, Structural)]
pub enum BakerKeyVariant {
    ADD,
    UPDATE,
}

/// Why attributes cannot be revealed as asked.
#[derive(Clone, Copy, Debug, PartialEq, Eq, Structural)]
pub enum AttributeError {
    /// An attribute is named twice.
    RevealedTwice,
    /// An attribute is not part of the attribute list.
    NotInList,
}

/// Numbers the keys of an account in the order in which they are given.
pub fn build_key_map(keys: &Vec<VerifyKey>) -> (r: Vec<(u8, VerifyKey)>)
    requires
        keys@.len() <= MAX_KEYS,
    ensures
        r@.len() == keys@.len(),
        forall|i: int| 0 <= i < keys@.len() ==> (#[trigger] r@[i]) == (i as u8, keys@[i]),
{
    let mut out: Vec<(u8, VerifyKey)> = Vec::new();
    let mut i: usize = 0;
    while i < keys.len()
        invariant
            i <= keys@.len() <= MAX_KEYS,
            out@.len() == i,
            forall|k: int| 0 <= k < i ==> (#[trigger] out@[k]) == (k as u8, keys@[k]),
        decreases keys@.len() - i,
    {
        out.push((i as u8, keys[i]));
        i = i + 1;
    }
    out
}

/// The number of anonymity revokers that must cooperate to revoke the
/// anonymity of a holder, among `count` of them: all but one, at least one
/// and at most 255. Without revokers there is no threshold.
pub fn revocation_threshold(count: usize) -> (r: Option<u8>)
    ensures
        count == 0 <==> r is None,
        r is Some ==> r->0 == if count <= 2 {
            1int
        } else if count - 1 >= 255 {
            255int
        } else {
            count - 1
        },
{
    if count == 0 {
        None
    } else if count <= 2 {
        Some(1)
    } else if count - 1 >= 255 {
        Some(255)
    } else {
        Some((count - 1) as u8)
    }
}

/// Whether the attributes named can be revealed: each must be part of the
/// attribute list and named once. The first name that cannot be revealed
/// decides the failure.
pub open spec fn revealable(tags: Seq<u8>, available: Seq<u8>) -> Result<(), AttributeError>
    decreases tags.len(),
{
    if tags.len() == 0 {
        Ok(())
    } else {
        match revealable(tags.drop_last(), available) {
            Err(e) => Err(e),
            Ok(_) => if !available.contains(tags.last()) {
                Err(AttributeError::NotInList)
            } else if tags.drop_last().contains(tags.last()) {
                Err(AttributeError::RevealedTwice)
            } else {
                Ok(())
            },
        }
    }
}

/// Whether a byte is among the bytes of a list.
fn contains_tag(list: &[u8], upto: usize, tag: u8) -> (r: bool)
    requires
        upto <= list@.len(),
    ensures
        r <==> list@.subrange(0, upto as int).contains(tag),
{
    let mut i: usize = 0;
    while i < upto
        invariant
            i <= upto <= list@.len(),
            forall|k: int| 0 <= k < i ==> list@[k] != tag,
        decreases upto - i,
    {
        if list[i] == tag {
            assert(list@.subrange(0, upto as int)[i as int] == tag);
            return true;
        }
        i = i + 1;
    }
    assert forall|k: int| 0 <= k < upto implies list@.subrange(0, upto as int)[k] != tag by {
        assert(list@.subrange(0, upto as int)[k] == list@[k]);
    }
    false
}

/// Checks that the attributes named can be revealed from an attribute
/// list.
pub fn check_revealed_attributes(tags: &Vec<u8>, available: &Vec<u8>) -> (r: Result<
    (),
    AttributeError,
>)
    ensures
        r == revealable(tags@, available@),
{
    let mut i: usize = 0;
    proof {
        assert(tags@.subrange(0, 0) =~= Seq::<u8>::empty());
    }
    while i < tags.len()
        invariant
            i <= tags@.len(),
            revealable(tags@.subrange(0, i as int), available@) == Ok::<(), AttributeError>(()),
        decreases tags@.len() - i,
    {
        let tag = tags[i];
        let ghost next = tags@.subrange(0, i + 1);
        proof {
            assert(next.drop_last() =~= tags@.subrange(0, i as int));
            assert(next.last() == tag);
            assert(available@.subrange(0, available@.len() as int) =~= available@);
        }
        if !contains_tag(available.as_slice(), available.len(), tag) {
            proof {
                lemma_revealable_fails(tags@, available@, i + 1);
            }
            return Err(AttributeError::NotInList);
        }
        if contains_tag(tags.as_slice(), i, tag) {
            proof {
                lemma_revealable_fails(tags@, available@, i + 1);
            }
            return Err(AttributeError::RevealedTwice);
        }
        i = i + 1;
    }
    proof {
        assert(tags@.subrange(0, i as int) =~= tags@);
    }
    Ok(())
}

/// Once the front of a list of names cannot be revealed, the list cannot,
/// for the same reason.
pub proof fn lemma_revealable_fails(tags: Seq<u8>, available: Seq<u8>, n: int)
    requires
        0 <= n <= tags.len(),
        revealable(tags.subrange(0, n), available) is Err,
    ensures
        revealable(tags, available) == revealable(tags.subrange(0, n), available),
    decreases tags.len() - n,
{
    if n < tags.len() {
        let longer = tags.subrange(0, n + 1);
        assert(longer.drop_last() =~= tags.subrange(0, n));
        lemma_revealable_fails(tags, available, n + 1);
    } else {
        assert(tags.subrange(0, n) =~= tags);
    }
}

/// The year up to which a genesis credential made in a given year is
/// valid, if years are counted that far.
pub fn genesis_valid_to(created_year: u16) -> (r: Option<u16>)
    ensures
        r is Some <==> created_year + GENESIS_VALIDITY_YEARS <= u16::MAX,
        r is Some ==> r->0 == created_year + GENESIS_VALIDITY_YEARS,
{
    if created_year <= u16::MAX - GENESIS_VALIDITY_YEARS {
        Some(created_year + GENESIS_VALIDITY_YEARS)
    } else {
        None
    }
}

/// The text with which the challenge of a request for baker keys starts.
pub open spec fn baker_challenge_prefix(variant: BakerKeyVariant) -> Seq<u8> {
    match variant {
        // addBaker
        BakerKeyVariant::ADD => seq![0x61u8, 0x64, 0x64, 0x42, 0x61, 0x6b, 0x65, 0x72],
        // updateBakerKeys
        BakerKeyVariant::UPDATE => seq![
            0x75u8, 0x70, 0x64, 0x61, 0x74, 0x65, 0x42, 0x61, 0x6b, 0x65, 0x72, 0x4b, 0x65, 0x79,
            0x73,
        ],
    }
}

/// The challenge against which the proofs of knowledge of baker keys are
/// made: what the keys are for, then the sender and the three public keys
/// as they are encoded.
pub fn baker_challenge(
    variant: BakerKeyVariant,
    sender: &Vec<u8>,
    election_public: &Vec<u8>,
    signature_public: &Vec<u8>,
    aggregation_public: &Vec<u8>,
) -> (r: Vec<u8>)
    ensures
        r@ == baker_challenge_prefix(variant) + sender@ + election_public@ + signature_public@
            + aggregation_public@,
{
    let mut challenge: Vec<u8> = match variant {
        BakerKeyVariant::ADD => vec![0x61u8, 0x64, 0x64, 0x42, 0x61, 0x6b, 0x65, 0x72],
        BakerKeyVariant::UPDATE => vec![
            0x75u8, 0x70, 0x64, 0x61, 0x74, 0x65, 0x42, 0x61, 0x6b, 0x65, 0x72, 0x4b, 0x65, 0x79,
            0x73,
        ],
    };
    assert(challenge@ =~= baker_challenge_prefix(variant));
    append_all(&mut challenge, sender);
    append_all(&mut challenge, election_public);
    append_all(&mut challenge, signature_public);
    append_all(&mut challenge, aggregation_public);
    challenge
}

/// A credential deployment as a block item: its tag, then the message as
/// it is encoded.
pub fn block_item_bytes(message: &Vec<u8>) -> (r: Vec<u8>)
    ensures
        r@ == seq![DEPLOYMENT_TAG] + message@,
{
    let mut out: Vec<u8> = vec![DEPLOYMENT_TAG];
    assert(out@ =~= seq![DEPLOYMENT_TAG]);
    append_all(&mut out, message);
    out
}

/// What is sent to deploy a credential, and the hash under which the chain
/// knows it, both as hexadecimal text.
#[derive(Debug)]
pub struct DeploymentDetails {
    /// The block item under its version.
    pub hex: Vec<u8>,
    /// The digest of the block item.
    pub hash: Vec<u8>,
}

/// Frames the encoding of a credential message for deployment: the digest
/// is taken of the block item, and what is sent is the block item under
/// its version.
pub fn deployment_details(message: &Vec<u8>) -> (r: DeploymentDetails)
    ensures
        r.hash@ == hex_text(sha256_digest(seq![DEPLOYMENT_TAG] + message@)),
        r.hex@ == hex_text(seq![VERSION_0] + (seq![DEPLOYMENT_TAG] + message@)),
{
    let block_item = block_item_bytes(message);
    let digest = sha256(block_item.as_slice());
    let hash = hex_encode(digest.as_slice());
    let mut versioned: Vec<u8> = vec![VERSION_0];
    assert(versioned@ =~= seq![VERSION_0]);
    append_all(&mut versioned, &block_item);
    let hex = hex_encode(versioned.as_slice());
    DeploymentDetails { hex, hash }
}

/// The address of the account of a credential: the digest of the encoding
/// of the identifier of the credential.
pub open spec fn address_of(cred_id: Seq<u8>) -> Seq<u8> {
    sha256_digest(cred_id)
}

/// What the hexadecimal text of a credential identifier gives as the
/// address of its account: the text must decode to bytes that start with
/// the encoding of an element.
pub open spec fn address_from_text(text: Seq<u8>) -> Result<Seq<u8>, WalletError> {
    match hex_decoded(text) {
        None => Err(WalletError::DecodingError),
        Some(bytes) => if bytes.len() >= ELEMENT_LENGTH && is_element_encoding(
            bytes.subrange(0, ELEMENT_LENGTH as int),
        ) {
            Ok(address_of(bytes.subrange(0, ELEMENT_LENGTH as int)))
        } else {
            Err(WalletError::DecodingError)
        },
    }
}

/// The 32 bytes of the address of the account whose credential has the
/// identifier written in hexadecimal.
pub fn get_address_from_cred_id(cred_id: &str) -> (r: Result<Vec<u8>, WalletError>)
    ensures
        match address_from_text(cred_id.spec_bytes()) {
            Ok(address) => r is Ok && r->Ok_0@ == address && address.len() == 32,
            Err(e) => r is Err && r->Err_0 == e,
        },
{
    let bytes = match hex_decode(cred_id.as_bytes()) {
        Some(b) => b,
        None => {
            return Err(WalletError::DecodingError);
        },
    };
    if bytes.len() < ELEMENT_LENGTH {
        return Err(WalletError::DecodingError);
    }
    let head = vstd::slice::slice_subrange(bytes.as_slice(), 0, ELEMENT_LENGTH);
    match GroupElement::from_bytes(head) {
        None => Err(WalletError::DecodingError),
        Some(element) => {
            let encoded = element.to_bytes();
            Ok(sha256(encoded.as_slice()))
        },
    }
}

/// The identifier of the credential with the given counter, as
/// hexadecimal text: the encoding of the first base of the commitment key
/// of the chain, raised to the secret of the sub-account.
pub fn calculate_cred_id(prf_key: &PrfKey, cred_counter: u8, global_context: &GlobalContext) -> (r:
    Result<Vec<u8>, WalletError>)
    ensures
        prf_is_degenerate(prf_key.scalar.value(), cred_counter) <==> r is Err,
        r is Err ==> r->Err_0 == WalletError::PrfDomainError,
        r is Ok ==> r->Ok_0@ == hex_text(
            exponent_encoding(
                mul_mod(
                    global_context.on_chain_commitment_key.g.exponent(),
                    prf_value(prf_key.scalar.value(), cred_counter),
                ),
            ),
        ),
{
    match generate_cred_id(prf_key, cred_counter, global_context) {
        Ok(id) => {
            let encoded = id.to_bytes();
            Ok(hex_encode(encoded.as_slice()))
        },
        Err(e) => Err(e),
    }
}

} // verus!
