//! The cryptography of a wallet with encrypted balances.
//!
//! One seed gives the wallet its secret scalars ([`keygen`]); a key and the
//! number of an account give the secret of that account ([`prf`]). Amounts
//! are encrypted in the exponent of a group ([`group`], [`amount`],
//! [`encryption`]), added under encryption, and decrypted with a table of
//! baby steps and a search by giant steps ([`dlog`]). Transfers between the
//! public and the encrypted balance are assembled from these ([`transfer`]).
//! What the wallet decides for identities and credentials is in
//! [`credential`].
//!
//! The arithmetic of the curve, the hash functions and the proofs that
//! transfers carry are those of the crates that the chain uses. They are
//! called through functions whose contracts are taken on trust; each says in
//! its documentation which function it calls and what it claims of it.

pub mod amount;
pub mod bytes;
pub mod context;
pub mod credential;
pub mod dlog;
pub mod encryption;
pub mod error;
pub mod group;
pub mod hexcode;
pub mod keygen;
pub mod modular;
pub mod prf;
pub mod scalar;
pub mod transfer;
