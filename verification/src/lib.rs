//! Ledger core of a blockchain node: a linear, tamper-evident block sequence
//! advanced under a swappable consensus policy.
//!
//! The crate is organised leaf-first: the signature capability (`crypto`),
//! transactions and blocks with their canonical byte encoding
//! (`transaction`, `block`), the durable storage capability (`storage`),
//! the ledger state machine (`chain`), the two consensus engines
//! (`consensus`), peer-set bookkeeping (`network`), and the smart-contract
//! component (`contract`, `context`, `contract_storage`, `token`,
//! `ai_model`).

pub mod ai_model;
pub mod block;
pub mod chain;
pub mod consensus;
pub mod context;
pub mod contract;
pub mod contract_storage;
pub mod crypto;
pub mod errors;
pub mod network;
pub mod storage;
pub mod table;
pub mod token;
pub mod transaction;
pub mod utils;

pub use block::Block;
pub use chain::Blockchain;
pub use consensus::{ActiveConsensus, Consensus, DelegatedProofOfStake, ProofOfAI};
pub use crypto::{KeyPair, QuantumResistantCrypto, Signature, SignatureType};
pub use network::P2PNetwork;
pub use storage::{MemoryStorage, Storage};
pub use transaction::{Transaction, TransactionType};
