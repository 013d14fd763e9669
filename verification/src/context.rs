//! The parameters that everybody on one chain shares.

use crate::bytes::{be_value, pow256, u64_from_be};
use crate::group::{is_element_encoding, GroupElement, ELEMENT_LENGTH};
use vstd::prelude::*;

verus! {

/// Number of bytes in the encoding of a commitment key.
pub const KEY_LENGTH: usize = 96;

/// Number of bytes in which the remainder writes a length.
pub const LENGTH_BYTES: usize = 4;

/// Number of bytes in the encoding of one pair of generators for range
/// proofs.
pub const PAIR_LENGTH: u64 = 96;

/// The number of pairs of generators for range proofs that a remainder
/// announces: what its first four bytes write, if it has that many.
pub open spec fn announced_generators(remainder: Seq<u8>) -> Option<int> {
    if remainder.len() >= LENGTH_BYTES {
        Some(be_value(remainder.subrange(0, LENGTH_BYTES as int)))
    } else {
        None
    }
}

/// Where the length of the genesis string stands in a remainder that
/// announces `count` pairs of generators.
pub open spec fn string_length_at(count: int) -> int {
    LENGTH_BYTES + PAIR_LENGTH * count
}

/// A remainder holds what it announces: the pairs of generators after their
/// number, and after them the genesis string after its length.
pub open spec fn is_framed(remainder: Seq<u8>) -> bool {
    match announced_generators(remainder) {
        None => false,
        Some(count) => {
            let at = string_length_at(count);
            &&& at + LENGTH_BYTES <= remainder.len()
            &&& at + LENGTH_BYTES + be_value(remainder.subrange(at, at + LENGTH_BYTES))
                <= remainder.len()
        },
    }
}

/// A Pedersen commitment key: the base for values and the base for
/// randomness.
#[derive(Clone, Copy, Debug)]
pub struct CommitmentKey {
    pub g: GroupElement,
    pub h: GroupElement,
}

/// The parameters of a chain: its commitment key, and what follows the key
/// in the encoding of the parameters, which this library hands on as it is
/// (the generators for range proofs and the genesis string).
#[derive(Debug)]
pub struct GlobalContext {
    pub on_chain_commitment_key: CommitmentKey,
    pub remainder: Vec<u8>,
}

impl GlobalContext {
    /// The encoding of the parameters: the two bases of the key, then the
    /// remainder.
    pub open spec fn encoding(self) -> Seq<u8> {
        self.on_chain_commitment_key.g.encoding() + self.on_chain_commitment_key.h.encoding()
            + self.remainder@
    }

    /// The parameters that a byte string encodes, if it starts with the
    /// encodings of two elements.
    pub fn from_bytes(bytes: &[u8]) -> (r: Option<GlobalContext>)
        ensures
            r is Some <==> bytes@.len() >= KEY_LENGTH && is_element_encoding(
                bytes@.subrange(0, ELEMENT_LENGTH as int),
            ) && is_element_encoding(bytes@.subrange(ELEMENT_LENGTH as int, KEY_LENGTH as int)),
            r is Some ==> r->0.encoding() == bytes@,
    {
        if bytes.len() < KEY_LENGTH {
            return None;
        }
        let first = vstd::slice::slice_subrange(bytes, 0, ELEMENT_LENGTH);
        let second = vstd::slice::slice_subrange(bytes, ELEMENT_LENGTH, KEY_LENGTH);
        let rest = vstd::slice::slice_subrange(bytes, KEY_LENGTH, bytes.len());
        match (GroupElement::from_bytes(first), GroupElement::from_bytes(second)) {
            (Some(g), Some(h)) => {
                let remainder = vstd::slice::slice_to_vec(rest);
                assert(g.encoding() + h.encoding() + remainder@ =~= bytes@);
                Some(GlobalContext { on_chain_commitment_key: CommitmentKey { g, h }, remainder })
            },
            _ => None,
        }
    }

    /// The encoding of the parameters.
    pub fn to_bytes(&self) -> (r: Vec<u8>)
        ensures
            r@ == self.encoding(),
    {
        let mut out = self.on_chain_commitment_key.g.to_bytes();
        let mut second = self.on_chain_commitment_key.h.to_bytes();
        out.append(&mut second);
        let mut i: usize = 0;
        while i < self.remainder.len()
            invariant
                i <= self.remainder@.len(),
                out@ =~= self.on_chain_commitment_key.g.encoding()
                    + self.on_chain_commitment_key.h.encoding() + self.remainder@.subrange(
                    0,
                    i as int,
                ),
            decreases self.remainder@.len() - i,
        {
            out.push(self.remainder[i]);
            i = i + 1;
        }
        assert(self.remainder@.subrange(0, i as int) =~= self.remainder@);
        out
    }

    /// The number of pairs of generators for range proofs that the
    /// remainder announces, if it is long enough to announce one.
    pub fn generator_count(&self) -> (r: Option<u32>)
        ensures
            r is Some <==> self.remainder@.len() >= LENGTH_BYTES,
            r is Some ==> r->0 == be_value(self.remainder@.subrange(0, LENGTH_BYTES as int)),
            r is Some ==> announced_generators(self.remainder@) == Some(r->0 as int),
            r is None ==> announced_generators(self.remainder@) is None,
    {
        if self.remainder.len() < LENGTH_BYTES {
            return None;
        }
        let head = vstd::slice::slice_subrange(self.remainder.as_slice(), 0, LENGTH_BYTES);
        let count = u64_from_be(head);
        proof {
            reveal_with_fuel(pow256, 5);
        }
        Some(count as u32)
    }

    /// Whether the remainder holds what it announces: as many pairs of
    /// generators as it says, and a genesis string as long as it says.
    pub fn is_framed(&self) -> (r: bool)
        ensures
            r == is_framed(self.remainder@),
    {
        let count = match self.generator_count() {
            Some(c) => c,
            None => {
                return false;
            },
        };
        let len = self.remainder.len();
        let at: u64 = LENGTH_BYTES as u64 + PAIR_LENGTH * (count as u64);
        if at + LENGTH_BYTES as u64 > len as u64 {
            return false;
        }
        let start = at as usize;
        let field = vstd::slice::slice_subrange(
            self.remainder.as_slice(),
            start,
            start + LENGTH_BYTES,
        );
        let text = u64_from_be(field);
        proof {
            reveal_with_fuel(pow256, 5);
        }
        at + LENGTH_BYTES as u64 + text <= len as u64
    }

    /// The generator in whose exponent amounts are encrypted: the second
    /// base of the commitment key.
    pub fn encryption_in_exponent_generator(&self) -> (r: &GroupElement)
        ensures
            *r == self.on_chain_commitment_key.h,
    {
        &self.on_chain_commitment_key.h
    }

    /// The generator that is the base of public keys: the first base of the
    /// commitment key.
    pub fn elgamal_generator(&self) -> (r: &GroupElement)
        ensures
            *r == self.on_chain_commitment_key.g,
    {
        &self.on_chain_commitment_key.g
    }
}

} // verus!
