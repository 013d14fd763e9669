//! The ways in which an operation of the wallet can fail.

use vstd::prelude::*;

verus! {

/// Why an operation produced no result.
#[derive(Clone, Copy, Debug, PartialEq, Eq, Structural)]
pub enum WalletError {
    /// An input was not the hexadecimal text or the encoding it had to be.
    DecodingError,
    /// No nonzero scalar came out of the key derivation within its rounds.
    KeyDerivationError,
    /// The key and the index add up to zero, which has no inverse.
    PrfDomainError,
    /// A ciphertext holds no value within the range of the lookup table.
    DecryptionRangeError,
    /// The amount to transfer exceeds the decrypted balance.
    InsufficientFunds,
    /// No proof could be produced for a transfer to the public balance.
    ProofGenerationFailed,
    /// No payload could be constructed for a transfer to another account.
    PayloadConstructionError,
}

impl WalletError {
    /// What to tell the caller.
    pub fn message(&self) -> (r: &'static str)
        ensures
            r@ == match self {
                WalletError::DecodingError => "Input could not be decoded."@,
                WalletError::KeyDerivationError => "unable to build parse seed for bls_keygen."@,
                WalletError::PrfDomainError =>
                    "Cannot use this account number because K + number = 0."@,
                WalletError::DecryptionRangeError => "Amount could not be decrypted."@,
                WalletError::InsufficientFunds => "Insufficient funds."@,
                WalletError::ProofGenerationFailed => "Could not produce payload."@,
                WalletError::PayloadConstructionError => "Could not produce payload."@,
            },
    {
        match self {
            WalletError::DecodingError => "Input could not be decoded.",
            WalletError::KeyDerivationError => "unable to build parse seed for bls_keygen.",
            WalletError::PrfDomainError => "Cannot use this account number because K + number = 0.",
            WalletError::DecryptionRangeError => "Amount could not be decrypted.",
            WalletError::InsufficientFunds => "Insufficient funds.",
            WalletError::ProofGenerationFailed => "Could not produce payload.",
            WalletError::PayloadConstructionError => "Could not produce payload.",
        }
    }
}

} // verus!
