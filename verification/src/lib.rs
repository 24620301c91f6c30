//! A deterministic, self-delimiting binary encoding for ledger transactions.
//!
//! The bytes produced here are the bytes that get signed, hashed and stored, so
//! every type states its encoding as a mathematical byte sequence and proves that
//! reading and writing are exact inverses of each other.
//!
//! * [`codec`] holds the encode/decode protocol and its laws.
//! * [`transaction`] applies it to an unsigned transaction and to its signed wrapper.
//! * [`hash`], [`runtime_function`] and [`bytes`] hold the field types and the
//!   byte-level helpers that the two records are built from.
use vstd::prelude::*;

pub mod bytes;
pub mod codec;
pub mod hash;
pub mod runtime_function;
pub mod transaction;

verus! {

/// Identifies the account that authorised a transaction. This is not a signature.
pub type AccountId = [u8; 32];

/// Number of transactions that the same signer has sent before.
pub type TxOrder = u64;

/// A signature over the encoded bytes of a transaction.
pub type Signature = hash::H512;

/// Public key of a validator's session.
pub type SessionKey = [u8; 32];

/// Seconds since the Unix epoch.
pub type Timestamp = u64;

} // verus!
