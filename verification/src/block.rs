//! Blocks: a header that carries the chain linkage, a transaction list
//! bound to the header through the merkle root, and optional
//! policy-specific evidence.
//!
//! A block's identity is the digest of its header alone
//! ([`spec_block_hash`]): tampering with the transaction list without
//! recomputing the merkle root is detectable, and the root itself is bound
//! into the hash.

use vstd::prelude::*;

verus! {

use vstd::bytes::{spec_u32_to_le_bytes, spec_u64_to_le_bytes};
use crate::crypto::{copy_opt_signature, Signature, SignatureData};
use crate::transaction::{copy_transactions, spec_tx_encode, tx_encode, Transaction, TransactionData};
use crate::utils::{
    copy_opt_bytes, now_unix_seconds, push_string, push_u32, push_u64, sha256, spec_sha256_hex,
    spec_string_bytes, spec_zero_hash, zero_hash,
};

/// The mathematical content of a [`BlockHeader`].
#[verifier::ext_equal]
pub struct BlockHeaderData {
    pub version: u32,
    pub prev_hash: Seq<char>,
    pub merkle_root: Seq<char>,
    pub timestamp: u64,
    pub height: u64,
    pub difficulty: u64,
    pub nonce: u64,
    pub shard_id: u32,
}

/// Block header: linkage, height, and consensus metadata.
#[derive(Debug)]
pub struct BlockHeader {
    /// Version of the block structure.
    pub version: u32,
    /// Hash of the previous block's header, or 64 zero characters for
    /// genesis.
    pub prev_hash: String,
    /// Merkle root of the transaction list.
    pub merkle_root: String,
    /// Creation time, seconds since the Unix epoch.
    pub timestamp: u64,
    /// Height of the block in the chain.
    pub height: u64,
    /// Difficulty target.
    pub difficulty: u64,
    /// Nonce used by consensus.
    pub nonce: u64,
    /// Shard the block belongs to.
    pub shard_id: u32,
}

impl View for BlockHeader {
    type V = BlockHeaderData;

    open spec fn view(&self) -> BlockHeaderData {
        BlockHeaderData {
            version: self.version,
            prev_hash: self.prev_hash@,
            merkle_root: self.merkle_root@,
            timestamp: self.timestamp,
            height: self.height,
            difficulty: self.difficulty,
            nonce: self.nonce,
            shard_id: self.shard_id,
        }
    }
}

impl DeepView for BlockHeader {
    type V = BlockHeaderData;

    open spec fn deep_view(&self) -> BlockHeaderData {
        self@
    }
}

impl Clone for BlockHeader {
    fn clone(&self) -> (r: Self)
        ensures
            r@ == self@,
    {
        let r = BlockHeader {
            version: self.version,
            prev_hash: self.prev_hash.clone(),
            merkle_root: self.merkle_root.clone(),
            timestamp: self.timestamp,
            height: self.height,
            difficulty: self.difficulty,
            nonce: self.nonce,
            shard_id: self.shard_id,
        };
        proof {
            assert(r@ =~= self@);
        }
        r
    }
}

/// The mathematical content of a [`Block`].
#[verifier::ext_equal]
pub struct BlockData {
    pub header: BlockHeaderData,
    pub transactions: Seq<TransactionData>,
    pub validator_signature: Option<SignatureData>,
    pub ai_proof: Option<Seq<u8>>,
}

/// A block: header, transaction list, and optional policy evidence.
#[derive(Debug)]
pub struct Block {
    /// Header holding the linkage and metadata.
    pub header: BlockHeader,
    /// Transactions included in this block.
    pub transactions: Vec<Transaction>,
    /// Validator signature, where the stake-weighted policy produced the
    /// block.
    pub validator_signature: Option<Signature>,
    /// Oracle attestation, where the oracle-attested policy produced the
    /// block.
    pub ai_proof: Option<Vec<u8>>,
}

impl View for Block {
    type V = BlockData;

    open spec fn view(&self) -> BlockData {
        BlockData {
            header: self.header@,
            transactions: self.transactions.deep_view(),
            validator_signature: self.validator_signature.deep_view(),
            ai_proof: self.ai_proof.deep_view(),
        }
    }
}

impl DeepView for Block {
    type V = BlockData;

    open spec fn deep_view(&self) -> BlockData {
        self@
    }
}

impl Clone for Block {
    fn clone(&self) -> (r: Self)
        ensures
            r@ == self@,
    {
        let r = Block {
            header: self.header.clone(),
            transactions: copy_transactions(&self.transactions),
            validator_signature: copy_opt_signature(&self.validator_signature),
            ai_proof: copy_opt_bytes(&self.ai_proof),
        };
        proof {
            assert(r@ =~= self@);
        }
        r
    }
}

/// Copy a block list. The copy holds the same content.
pub(crate) fn copy_blocks(v: &Vec<Block>) -> (r: Vec<Block>)
    ensures
        r.deep_view() == v.deep_view(),
{
    let r = v.clone();
    proof {
        assert forall|i: int| 0 <= i < v@.len() implies r@[i]@ == v@[i]@ by {
            assert(cloned::<Block>(v@[i], r@[i]));
        }
        assert(r.deep_view() =~= v.deep_view());
    }
    r
}

/// The canonical byte encoding of a block header, every field in a fixed
/// order.
pub open spec fn spec_header_bytes(h: BlockHeaderData) -> Seq<u8> {
    spec_u32_to_le_bytes(h.version) + spec_string_bytes(h.prev_hash) + spec_string_bytes(
        h.merkle_root,
    ) + spec_u64_to_le_bytes(h.timestamp) + spec_u64_to_le_bytes(h.height) + spec_u64_to_le_bytes(
        h.difficulty,
    ) + spec_u64_to_le_bytes(h.nonce) + spec_u32_to_le_bytes(h.shard_id)
}

/// The identity of a block: the digest of its header alone, as lowercase
/// hexadecimal text.
pub open spec fn spec_block_hash(h: BlockHeaderData) -> Seq<char> {
    spec_sha256_hex(spec_header_bytes(h))
}

/// The transaction list as one byte string: each transaction's canonical
/// encoding, in order.
pub open spec fn spec_concat_tx_bytes(txs: Seq<TransactionData>) -> Seq<u8>
    decreases txs.len(),
{
    if txs.len() == 0 {
        Seq::empty()
    } else {
        spec_concat_tx_bytes(txs.drop_last()) + spec_tx_encode(txs.last())
    }
}

/// The merkle root of a transaction list: 64 zero characters for an empty
/// list, else the digest of the concatenated canonical encodings.
pub open spec fn spec_merkle_root(txs: Seq<TransactionData>) -> Seq<char> {
    if txs.len() == 0 {
        spec_zero_hash()
    } else {
        spec_sha256_hex(spec_concat_tx_bytes(txs))
    }
}

fn header_encode(h: &BlockHeader) -> (r: Vec<u8>)
    ensures
        r@ == spec_header_bytes(h@),
{
    let mut out: Vec<u8> = Vec::new();
    push_u32(&mut out, h.version);
    push_string(&mut out, &h.prev_hash);
    push_string(&mut out, &h.merkle_root);
    push_u64(&mut out, h.timestamp);
    push_u64(&mut out, h.height);
    push_u64(&mut out, h.difficulty);
    push_u64(&mut out, h.nonce);
    push_u32(&mut out, h.shard_id);
    proof {
        assert(out@ =~= spec_header_bytes(h@));
    }
    out
}

impl Block {
    /// Create a new block, stamped with the current time, its merkle root
    /// derived from the transaction list, and no policy evidence attached.
    pub fn new(prev_hash: String, height: u64, transactions: Vec<Transaction>, shard_id: u32) -> (r:
        Block)
        ensures
            r@.header.version == 1,
            r@.header.prev_hash == prev_hash@,
            r@.header.merkle_root == spec_merkle_root(transactions.deep_view()),
            r@.header.height == height,
            r@.header.difficulty == 0,
            r@.header.nonce == 0,
            r@.header.shard_id == shard_id,
            r@.transactions == transactions.deep_view(),
            r@.validator_signature is None,
            r@.ai_proof is None,
    {
        let timestamp = now_unix_seconds();
        let merkle_root = Self::calculate_merkle_root(&transactions);
        Block {
            header: BlockHeader {
                version: 1,
                prev_hash,
                merkle_root,
                timestamp,
                height,
                difficulty: 0,
                nonce: 0,
                shard_id,
            },
            transactions,
            validator_signature: None,
            ai_proof: None,
        }
    }

    /// Calculate the hash of this block: the digest of its header alone.
    pub fn hash(&self) -> (r: String)
        ensures
            r@ == spec_block_hash(self@.header),
            r@.len() == 64,
    {
        let bytes = header_encode(&self.header);
        sha256(bytes.as_slice())
    }

    /// Calculate the merkle root of a transaction list.
    fn calculate_merkle_root(transactions: &Vec<Transaction>) -> (r: String)
        ensures
            r@ == spec_merkle_root(transactions.deep_view()),
    {
        let ghost txv = transactions.deep_view();
        if transactions.len() == 0 {
            return zero_hash();
        }
        let mut buf: Vec<u8> = Vec::new();
        let n = transactions.len();
        let mut i: usize = 0;
        while i < n
            invariant
                n == transactions@.len(),
                txv == transactions.deep_view(),
                txv.len() == n,
                i <= n,
                buf@ == spec_concat_tx_bytes(txv.take(i as int)),
            decreases n - i,
        {
            let mut piece = tx_encode(&transactions[i]);
            let ghost buf0 = buf@;
            buf.append(&mut piece);
            proof {
                let t = txv.take(i + 1 as int);
                assert(t.drop_last() =~= txv.take(i as int));
                assert(t.last() == txv[i as int]);
                assert(txv[i as int] == transactions@[i as int]@);
            }
            i = i + 1;
        }
        proof {
            assert(txv.take(n as int) =~= txv);
        }
        sha256(buf.as_slice())
    }

    /// Attach the producing validator's signature. The block's hash covers
    /// the header alone, so it is unchanged.
    pub fn sign(&mut self, signature: Signature)
        ensures
            final(self)@ == (BlockData { validator_signature: Some(signature@), ..old(self)@ }),
            spec_block_hash(final(self)@.header) == spec_block_hash(old(self)@.header),
    {
        self.validator_signature = Some(signature);
        proof {
            assert(self@ =~= (BlockData {
                validator_signature: self.validator_signature.deep_view(),
                ..old(self)@
            }));
        }
    }

    /// Attach an oracle attestation. The block's hash covers the header
    /// alone, so it is unchanged.
    pub fn add_ai_proof(&mut self, attestation: Vec<u8>)
        ensures
            final(self)@ == (BlockData { ai_proof: Some(attestation@), ..old(self)@ }),
            spec_block_hash(final(self)@.header) == spec_block_hash(old(self)@.header),
    {
        self.ai_proof = Some(attestation);
        proof {
            assert(self@ =~= (BlockData { ai_proof: self.ai_proof.deep_view(), ..old(self)@ }));
        }
    }
}

} // verus!
