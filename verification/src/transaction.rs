//! Transactions: signed intents with a canonical hash that excludes the
//! signature fields.
//!
//! A transaction's identity is the SHA-256 digest, in lowercase hexadecimal,
//! of its canonical byte encoding with both signature fields cleared
//! ([`spec_tx_hash`]). Attaching a signature therefore never changes the
//! value being signed: see [`lemma_sign_preserves_hash`].

use vstd::prelude::*;

verus! {

use vstd::bytes::spec_u64_to_le_bytes;
use vstd::utf8::encode_utf8;
use crate::crypto::{copy_opt_signature, Signature, SignatureData, SignatureType};
use crate::utils::{
    copy_opt_bytes, copy_opt_string, now_unix_seconds, push_len_prefixed, push_string, push_u64,
    push_u8, sha256, spec_len_prefixed, spec_sha256_hex, spec_string_bytes,
};

/// Transaction kinds.
#[derive(Debug, Clone, Copy, PartialEq, Eq, Structural)]
pub enum TransactionType {
    /// Transfer of tokens.
    Transfer,
    /// Smart contract deployment.
    ContractDeploy,
    /// Smart contract call.
    ContractCall,
    /// Validator registration.
    ValidatorRegistration,
    /// AI model submission.
    AIModelSubmission,
    /// Governance proposal.
    GovernanceProposal,
    /// Governance vote.
    GovernanceVote,
}

/// The mathematical content of a [`Transaction`].
#[verifier::ext_equal]
pub struct TransactionData {
    pub tx_type: TransactionType,
    pub from: Seq<char>,
    pub to: Option<Seq<char>>,
    pub amount: Option<u64>,
    pub data: Option<Seq<u8>>,
    pub fee: u64,
    pub nonce: u64,
    pub timestamp: u64,
    pub signature: Option<SignatureData>,
    pub quantum_signature: Option<Seq<u8>>,
}

/// A signed intent.
#[derive(Debug)]
pub struct Transaction {
    /// Transaction kind.
    pub tx_type: TransactionType,
    /// Sender's address.
    pub from: String,
    /// Recipient's address, where one applies.
    pub to: Option<String>,
    /// Token amount, where one applies.
    pub amount: Option<u64>,
    /// Opaque payload: contract bytecode, call data, and the like.
    pub data: Option<Vec<u8>>,
    /// Transaction fee.
    pub fee: u64,
    /// Nonce against replay.
    pub nonce: u64,
    /// Creation time, seconds since the Unix epoch.
    pub timestamp: u64,
    /// Sender's signature.
    pub signature: Option<Signature>,
    /// Quantum-resistant signature, where the capability exists.
    pub quantum_signature: Option<Vec<u8>>,
}

impl View for Transaction {
    type V = TransactionData;

    open spec fn view(&self) -> TransactionData {
        TransactionData {
            tx_type: self.tx_type,
            from: self.from@,
            to: self.to.deep_view(),
            amount: self.amount,
            data: self.data.deep_view(),
            fee: self.fee,
            nonce: self.nonce,
            timestamp: self.timestamp,
            signature: self.signature.deep_view(),
            quantum_signature: self.quantum_signature.deep_view(),
        }
    }
}

impl DeepView for Transaction {
    type V = TransactionData;

    open spec fn deep_view(&self) -> TransactionData {
        self@
    }
}

impl Clone for Transaction {
    fn clone(&self) -> (r: Self)
        ensures
            r@ == self@,
    {
        let r = Transaction {
            tx_type: self.tx_type,
            from: self.from.clone(),
            to: copy_opt_string(&self.to),
            amount: self.amount,
            data: copy_opt_bytes(&self.data),
            fee: self.fee,
            nonce: self.nonce,
            timestamp: self.timestamp,
            signature: copy_opt_signature(&self.signature),
            quantum_signature: copy_opt_bytes(&self.quantum_signature),
        };
        proof {
            assert(r@ =~= self@);
        }
        r
    }
}

/// The canonical tag of a transaction kind in the byte encoding.
pub open spec fn spec_tx_type_tag(t: TransactionType) -> u8 {
    match t {
        TransactionType::Transfer => 0,
        TransactionType::ContractDeploy => 1,
        TransactionType::ContractCall => 2,
        TransactionType::ValidatorRegistration => 3,
        TransactionType::AIModelSubmission => 4,
        TransactionType::GovernanceProposal => 5,
        TransactionType::GovernanceVote => 6,
    }
}

fn tx_type_tag(t: &TransactionType) -> (r: u8)
    ensures
        r == spec_tx_type_tag(*t),
{
    match t {
        TransactionType::Transfer => 0,
        TransactionType::ContractDeploy => 1,
        TransactionType::ContractCall => 2,
        TransactionType::ValidatorRegistration => 3,
        TransactionType::AIModelSubmission => 4,
        TransactionType::GovernanceProposal => 5,
        TransactionType::GovernanceVote => 6,
    }
}

/// The canonical tag of a signature algorithm in the byte encoding.
pub open spec fn spec_sig_type_tag(t: SignatureType) -> u8 {
    match t {
        SignatureType::Ed25519 => 0,
        SignatureType::QuantumResistant => 1,
    }
}

fn sig_type_tag(t: &SignatureType) -> (r: u8)
    ensures
        r == spec_sig_type_tag(*t),
{
    match t {
        SignatureType::Ed25519 => 0,
        SignatureType::QuantumResistant => 1,
    }
}

/// An optional string in the canonical byte encoding.
pub open spec fn spec_opt_string_bytes(s: Option<Seq<char>>) -> Seq<u8> {
    match s {
        None => seq![0u8],
        Some(v) => seq![1u8] + spec_string_bytes(v),
    }
}

/// An optional 64-bit value in the canonical byte encoding.
pub open spec fn spec_opt_u64_bytes(x: Option<u64>) -> Seq<u8> {
    match x {
        None => seq![0u8],
        Some(v) => seq![1u8] + spec_u64_to_le_bytes(v),
    }
}

/// An optional byte field in the canonical byte encoding.
pub open spec fn spec_opt_bytes_bytes(b: Option<Seq<u8>>) -> Seq<u8> {
    match b {
        None => seq![0u8],
        Some(v) => seq![1u8] + spec_len_prefixed(v),
    }
}

/// A signature in the canonical byte encoding: its algorithm tag, then its
/// bytes with a length prefix.
pub open spec fn spec_sig_bytes(s: SignatureData) -> Seq<u8> {
    seq![spec_sig_type_tag(s.sig_type)] + spec_len_prefixed(s.bytes)
}

/// An optional signature in the canonical byte encoding.
pub open spec fn spec_opt_sig_bytes(s: Option<SignatureData>) -> Seq<u8> {
    match s {
        None => seq![0u8],
        Some(v) => seq![1u8] + spec_sig_bytes(v),
    }
}

/// The canonical byte encoding of a transaction, every field in a fixed
/// order and variable-length fields length-prefixed.
pub open spec fn spec_tx_encode(t: TransactionData) -> Seq<u8> {
    seq![spec_tx_type_tag(t.tx_type)] + spec_string_bytes(t.from) + spec_opt_string_bytes(t.to)
        + spec_opt_u64_bytes(t.amount) + spec_opt_bytes_bytes(t.data) + spec_u64_to_le_bytes(t.fee)
        + spec_u64_to_le_bytes(t.nonce) + spec_u64_to_le_bytes(t.timestamp) + spec_opt_sig_bytes(
        t.signature,
    ) + spec_opt_bytes_bytes(t.quantum_signature)
}

/// A transaction with both signature fields cleared: what the canonical
/// hash is computed over.
pub open spec fn spec_cleared(t: TransactionData) -> TransactionData {
    TransactionData { signature: None, quantum_signature: None, ..t }
}

/// The canonical hash of a transaction: the digest of its encoding with the
/// signature fields excluded, as lowercase hexadecimal text.
pub open spec fn spec_tx_hash(t: TransactionData) -> Seq<char> {
    spec_sha256_hex(spec_tx_encode(spec_cleared(t)))
}

/// Encode a transaction canonically, signature fields included as they
/// stand.
#[verifier::rlimit(60)]
pub(crate) fn tx_encode(tx: &Transaction) -> (r: Vec<u8>)
    ensures
        r@ == spec_tx_encode(tx@),
{
    let mut out: Vec<u8> = Vec::new();
    push_u8(&mut out, tx_type_tag(&tx.tx_type));
    push_string(&mut out, &tx.from);
    proof {
        assert(out@ =~= seq![spec_tx_type_tag(tx@.tx_type)] + spec_string_bytes(tx@.from));
    }
    match &tx.to {
        None => push_u8(&mut out, 0),
        Some(s) => {
            push_u8(&mut out, 1);
            push_string(&mut out, s);
            proof {
                assert(seq![1u8] + spec_string_bytes(s@) =~= spec_opt_string_bytes(tx@.to));
            }
        },
    }
    match &tx.amount {
        None => push_u8(&mut out, 0),
        Some(v) => {
            push_u8(&mut out, 1);
            push_u64(&mut out, *v);
            proof {
                assert(seq![1u8] + spec_u64_to_le_bytes(*v) =~= spec_opt_u64_bytes(tx@.amount));
            }
        },
    }
    proof {
        assert(out@ =~= seq![spec_tx_type_tag(tx@.tx_type)] + spec_string_bytes(tx@.from)
            + spec_opt_string_bytes(tx@.to) + spec_opt_u64_bytes(tx@.amount));
    }
    match &tx.data {
        None => push_u8(&mut out, 0),
        Some(d) => {
            push_u8(&mut out, 1);
            push_len_prefixed(&mut out, d.as_slice());
            proof {
                assert(seq![1u8] + spec_len_prefixed(d@) =~= spec_opt_bytes_bytes(tx@.data));
            }
        },
    }
    push_u64(&mut out, tx.fee);
    push_u64(&mut out, tx.nonce);
    push_u64(&mut out, tx.timestamp);
    proof {
        assert(out@ =~= seq![spec_tx_type_tag(tx@.tx_type)] + spec_string_bytes(tx@.from)
            + spec_opt_string_bytes(tx@.to) + spec_opt_u64_bytes(tx@.amount) + spec_opt_bytes_bytes(
            tx@.data,
        ) + spec_u64_to_le_bytes(tx@.fee) + spec_u64_to_le_bytes(tx@.nonce) + spec_u64_to_le_bytes(
            tx@.timestamp,
        ));
    }
    match &tx.signature {
        None => push_u8(&mut out, 0),
        Some(s) => {
            push_u8(&mut out, 1);
            push_u8(&mut out, sig_type_tag(&s.sig_type));
            push_len_prefixed(&mut out, s.bytes.as_slice());
            proof {
                assert(seq![1u8] + (seq![spec_sig_type_tag(s@.sig_type)] + spec_len_prefixed(
                    s@.bytes,
                )) =~= seq![1u8] + spec_sig_bytes(s@));
            }
        },
    }
    match &tx.quantum_signature {
        None => push_u8(&mut out, 0),
        Some(q) => {
            push_u8(&mut out, 1);
            push_len_prefixed(&mut out, q.as_slice());
        },
    }
    proof {
        assert(out@ =~= spec_tx_encode(tx@));
    }
    out
}

impl Transaction {
    /// Create a new transaction, stamped with the current time and with
    /// both signature fields empty.
    pub fn new(
        tx_type: TransactionType,
        from: String,
        to: Option<String>,
        amount: Option<u64>,
        data: Option<Vec<u8>>,
        fee: u64,
        nonce: u64,
    ) -> (r: Transaction)
        ensures
            r@.tx_type == tx_type,
            r@.from == from@,
            r@.to == to.deep_view(),
            r@.amount == amount,
            r@.data == data.deep_view(),
            r@.fee == fee,
            r@.nonce == nonce,
            r@.signature is None,
            r@.quantum_signature is None,
    {
        let timestamp = now_unix_seconds();
        Transaction {
            tx_type,
            from,
            to,
            amount,
            data,
            fee,
            nonce,
            timestamp,
            signature: None,
            quantum_signature: None,
        }
    }

    /// Calculate the canonical hash of this transaction: the digest of its
    /// encoding with both signature fields cleared.
    pub fn hash(&self) -> (r: String)
        ensures
            r@ == spec_tx_hash(self@),
            r@.len() == 64,
    {
        let cleared = Transaction {
            tx_type: self.tx_type,
            from: self.from.clone(),
            to: copy_opt_string(&self.to),
            amount: self.amount,
            data: copy_opt_bytes(&self.data),
            fee: self.fee,
            nonce: self.nonce,
            timestamp: self.timestamp,
            signature: None,
            quantum_signature: None,
        };
        proof {
            assert(cleared@ =~= spec_cleared(self@));
        }
        let bytes = tx_encode(&cleared);
        sha256(bytes.as_slice())
    }

    /// Attach the sender's signature. The canonical hash is unchanged.
    pub fn sign(&mut self, signature: Signature)
        ensures
            final(self)@ == (TransactionData { signature: Some(signature@), ..old(self)@ }),
            spec_tx_hash(final(self)@) == spec_tx_hash(old(self)@),
    {
        self.signature = Some(signature);
        proof {
            assert(self@ =~= (TransactionData { signature: Some(self.signature.deep_view()->Some_0), ..old(self)@ }));
            assert(spec_cleared(self@) =~= spec_cleared(old(self)@));
        }
    }

    /// Attach a quantum-resistant signature. The canonical hash is
    /// unchanged.
    pub fn add_quantum_signature(&mut self, signature: Vec<u8>)
        ensures
            final(self)@ == (TransactionData {
                quantum_signature: Some(signature@),
                ..old(self)@
            }),
            spec_tx_hash(final(self)@) == spec_tx_hash(old(self)@),
    {
        self.quantum_signature = Some(signature);
        proof {
            assert(self@ =~= (TransactionData {
                quantum_signature: self.quantum_signature.deep_view(),
                ..old(self)@
            }));
            assert(spec_cleared(self@) =~= spec_cleared(old(self)@));
        }
    }

    /// Whether the transaction carries a sender's signature.
    ///
    /// Key material for the sender addresses is not distributed in this
    /// system, so the check is for presence of the signature.
    pub fn verify_signature(&self) -> (r: bool)
        ensures
            r == (self@.signature is Some),
    {
        self.signature.is_some()
    }
}

/// Copy a transaction list. The copy holds the same content.
pub(crate) fn copy_transactions(v: &Vec<Transaction>) -> (r: Vec<Transaction>)
    ensures
        r.deep_view() == v.deep_view(),
{
    let r = v.clone();
    proof {
        assert forall|i: int| 0 <= i < v@.len() implies r@[i]@ == v@[i]@ by {
            assert(cloned::<Transaction>(v@[i], r@[i]));
        }
        assert(r.deep_view() =~= v.deep_view());
    }
    r
}

/// Law: attaching a primary or quantum-resistant signature never changes a
/// transaction's canonical hash, because the hash is computed over a copy
/// whose signature fields are cleared.
pub proof fn lemma_sign_preserves_hash(t: TransactionData, sig: SignatureData, q: Seq<u8>)
    ensures
        spec_tx_hash(TransactionData { signature: Some(sig), ..t }) == spec_tx_hash(t),
        spec_tx_hash(TransactionData { quantum_signature: Some(q), ..t }) == spec_tx_hash(t),
{
    assert(spec_cleared(TransactionData { signature: Some(sig), ..t }) =~= spec_cleared(t));
    assert(spec_cleared(TransactionData { quantum_signature: Some(q), ..t }) =~= spec_cleared(t));
}

} // verus!
