//! Error taxonomy of the ledger core.
//!
//! Every core operation returns a typed result; nothing is swallowed
//! silently. The variants follow the failure classes of the commit
//! pipeline: structural chain faults, missing signatures, policy-specific
//! faults, and storage faults.

use vstd::prelude::*;

verus! {

/// Height or hash-linkage mismatch found by the structural check.
#[derive(Debug, Clone, PartialEq, Eq, Structural)]
pub enum StructuralError {
    /// A block submitted to an empty ledger did not have height 0.
    NonZeroGenesisHeight,
    /// The block's height is not the tip's height plus one.
    HeightMismatch,
    /// The block's `prev_hash` is not the hash of the current tip.
    PrevHashMismatch,
}

/// A missing transaction signature.
#[derive(Debug, Clone, PartialEq, Eq, Structural)]
pub enum SignatureError {
    /// A transaction in the block or submission carries no signature.
    MissingTransactionSignature,
}

/// A policy-specific fault raised by a consensus engine.
#[derive(Debug, Clone, PartialEq, Eq, Structural)]
pub enum ConsensusPolicyError {
    /// A block proposal was requested from a ledger with no blocks.
    EmptyChain,
    /// The block carries no oracle attestation.
    MissingProof,
    /// The block's attestation is not the oracle's output for it.
    InvalidProof,
    /// The block carries no validator signature.
    MissingValidatorSignature,
}

/// A durable-storage fault.
#[derive(Debug, Clone)]
pub enum StorageError {
    /// The storage backend failed to read or write.
    Io(String),
    /// A loaded record does not form a valid chain.
    Corrupt,
}

/// The failure classes of ledger operations.
#[derive(Debug, Clone)]
pub enum ChainError {
    /// Height or hash-linkage mismatch.
    Structure(StructuralError),
    /// Missing or invalid signature.
    Signature(SignatureError),
    /// The active consensus policy refused the block.
    Policy(ConsensusPolicyError),
    /// The storage collaborator failed.
    Storage(StorageError),
}

/// A fault of the signature capability.
#[derive(Debug, Clone, PartialEq, Eq, Structural)]
pub enum CryptoError {
    /// The requested algorithm is reserved but not yet available.
    NotSupported,
}

/// A fault while parsing a hexadecimal string.
#[derive(Debug, Clone, PartialEq, Eq, Structural)]
pub enum HexError {
    /// The string has an odd number of digits.
    OddLength,
    /// A character is not a hexadecimal digit.
    InvalidDigit,
}

/// A fault of the peer-set bookkeeping.
#[derive(Debug, Clone, PartialEq, Eq, Structural)]
pub enum NetworkError {
    /// The maximum number of peers is reached.
    CapacityExceeded,
    /// The address is not a connected peer.
    PeerNotFound,
}

} // verus!
