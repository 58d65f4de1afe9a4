//! The ledger state machine: an ordered block sequence, a hash index kept
//! in sync with it, and a pending-transaction pool.
//!
//! The committed chain always satisfies [`spec_chain_linked`]: block `i`
//! has height `i`, and every non-genesis block's `prev_hash` is the hash of
//! its predecessor. `add_block` is the commit pipeline — structural check,
//! transaction validity, policy check, durable persistence, publication —
//! and every failure leaves the ledger's observable state unchanged.

use vstd::prelude::*;

verus! {

use crate::block::{spec_block_hash, Block, BlockData};
use crate::consensus::{spec_policy_verdict, ActiveConsensus, Consensus};
use crate::errors::{
    ChainError, SignatureError, StorageError, StructuralError,
};
use crate::storage::Storage;
use crate::transaction::{copy_transactions, spec_tx_hash, Transaction, TransactionData};
use crate::utils::{spec_zero_hash, str_eq, zero_hash};

/// The mathematical content of a [`ChainSnapshot`].
#[verifier::ext_equal]
pub struct ChainSnapshotData {
    pub tip: Option<BlockData>,
    pub pending: Seq<TransactionData>,
}

/// A read-only snapshot of the ledger handed to consensus engines: the
/// current tip and the pending pool.
pub struct ChainSnapshot {
    /// The latest committed block, where one exists.
    pub tip: Option<Block>,
    /// The pending transactions, in submission order.
    pub pending: Vec<Transaction>,
}

impl View for ChainSnapshot {
    type V = ChainSnapshotData;

    open spec fn view(&self) -> ChainSnapshotData {
        ChainSnapshotData { tip: self.tip.deep_view(), pending: self.pending.deep_view() }
    }
}

/// The structural chain invariant: block `i` sits at height `i`, and every
/// non-genesis block links to the hash of its predecessor.
pub open spec fn spec_chain_linked(chain: Seq<BlockData>) -> bool {
    &&& forall|i: int| 0 <= i < chain.len() ==> (#[trigger] chain[i].header).height == i
    &&& forall|i: int|
        1 <= i < chain.len() ==> (#[trigger] chain[i].header).prev_hash == spec_block_hash(
            chain[i - 1].header,
        )
}

/// Law: in a linked chain, every block stands at the index equal to its
/// header height.
pub proof fn lemma_height_indexing(chain: Seq<BlockData>, i: int)
    requires
        spec_chain_linked(chain),
        0 <= i < chain.len(),
    ensures
        chain[i].header.height == i,
{
}

/// The structural check of the commit pipeline: on an empty ledger only a
/// height-0 block is accepted, without further height or hash checks; on a
/// non-empty ledger the height must be the tip's plus one and `prev_hash`
/// the hash of the tip.
pub open spec fn spec_structural_verdict(chain: Seq<BlockData>, b: BlockData) -> Option<
    StructuralError,
> {
    if chain.len() == 0 {
        if b.header.height != 0 {
            Some(StructuralError::NonZeroGenesisHeight)
        } else {
            None
        }
    } else if b.header.height != chain.last().header.height + 1 {
        Some(StructuralError::HeightMismatch)
    } else if b.header.prev_hash != spec_block_hash(chain.last().header) {
        Some(StructuralError::PrevHashMismatch)
    } else {
        None
    }
}

/// Law: a block whose `prev_hash` is not exactly the hash of the tip fails
/// the structural check.
pub proof fn lemma_prev_hash_mismatch_rejected(chain: Seq<BlockData>, b: BlockData)
    requires
        chain.len() > 0,
        b.header.prev_hash != spec_block_hash(chain.last().header),
    ensures
        spec_structural_verdict(chain, b) is Some,
{
}

/// Law: a height-0 block is accepted by the structural check exactly once
/// per ledger lifetime: on the empty ledger it passes, and once any block
/// stands committed every further height-0 block fails.
pub proof fn lemma_genesis_accepted_once(chain: Seq<BlockData>, b: BlockData)
    requires
        b.header.height == 0,
    ensures
        chain.len() == 0 ==> spec_structural_verdict(chain, b) is None,
        chain.len() > 0 ==> spec_structural_verdict(chain, b) is Some,
{
}

/// Whether every transaction of a block carries a signature.
pub open spec fn spec_txs_signed(b: BlockData) -> bool {
    forall|i: int| 0 <= i < b.transactions.len() ==> (#[trigger] b.transactions[i]).signature is Some
}

/// Whether a block includes a transaction, keyed by canonical hash.
pub open spec fn spec_included(b: BlockData, t: TransactionData) -> bool {
    exists|k: int|
        0 <= k < b.transactions.len() && spec_tx_hash(#[trigger] b.transactions[k])
            == spec_tx_hash(t)
}

/// The pending pool after a block commits: every transaction the block
/// includes, keyed by canonical hash, leaves the pool.
pub open spec fn spec_pool_after_commit(pending: Seq<TransactionData>, b: BlockData) -> Seq<
    TransactionData,
>
    decreases pending.len(),
{
    if pending.len() == 0 {
        Seq::empty()
    } else {
        spec_pool_after_commit(pending.drop_last(), b) + if spec_included(b, pending.last()) {
            Seq::empty()
        } else {
            seq![pending.last()]
        }
    }
}

/// The validation verdict of the commit pipeline's first three steps:
/// the structural check, transaction validity, then the active policy's
/// check, each short-circuiting.
pub open spec fn spec_validation_verdict(
    chain: Seq<BlockData>,
    policy: ActiveConsensus,
    b: BlockData,
) -> Result<(), ChainError> {
    match spec_structural_verdict(chain, b) {
        Some(e) => Err(ChainError::Structure(e)),
        None => if !spec_txs_signed(b) {
            Err(ChainError::Signature(SignatureError::MissingTransactionSignature))
        } else {
            match spec_policy_verdict(policy, b) {
                Err(pe) => Err(ChainError::Policy(pe)),
                Ok(_) => Ok(()),
            }
        },
    }
}

/// An entry of the committed sequence: a block together with its hash text,
/// so that the hash index is always in sync with the sequence.
struct ChainEntry {
    block: Block,
    hash: String,
}

/// The committed sequence and its hash index, treated as one unit of
/// mutation: a reader never observes one without the other, and the chain
/// it holds is always linked.
struct CommittedChain {
    entries: Vec<ChainEntry>,
}

impl CommittedChain {
    spec fn chain(&self) -> Seq<BlockData> {
        Seq::new(self.entries@.len(), |i: int| self.entries@[i].block@)
    }

    #[verifier::type_invariant]
    spec fn wf(&self) -> bool {
        &&& spec_chain_linked(self.chain())
        &&& forall|i: int|
            0 <= i < self.entries@.len() ==> (#[trigger] self.entries@[i].hash)@ == spec_block_hash(
                self.entries@[i].block@.header,
            )
    }

    /// Publish a block that passed the structural check: append it to the
    /// sequence and the index as one unit.
    #[verifier::rlimit(60)]
    fn publish(&mut self, block: Block, hash: String)
        requires
            spec_structural_verdict(old(self).chain(), block@) is None,
            hash@ == spec_block_hash(block@.header),
        ensures
            final(self).chain() == old(self).chain().push(block@),
    {
        proof {
            use_type_invariant(&*self);
        }
        let ghost c = self.chain();
        let ghost b = block@;
        let mut entries: Vec<ChainEntry> = Vec::new();
        std::mem::swap(&mut entries, &mut self.entries);
        entries.push(ChainEntry { block, hash });
        proof {
            let c2 = Seq::new(entries@.len(), |i: int| entries@[i].block@);
            assert(c2 =~= c.push(b));
            assert(spec_chain_linked(c)) by {
                assert(c =~= Seq::new(
                    old(self).entries@.len(),
                    |i: int| old(self).entries@[i].block@,
                ));
            }
            if c.len() > 0 {
                assert(c.last() == c2[c2.len() - 2]);
                assert(c.last().header.height == c.len() - 1);
            }
            assert(spec_chain_linked(c2));
        }
        self.entries = entries;
        proof {
            assert(final(self).chain() =~= c.push(b));
        }
    }
}

/// The ledger: the committed block sequence with its hash index, the
/// pending pool, the storage collaborator, and the active consensus policy.
pub struct Blockchain<S: Storage> {
    committed: CommittedChain,
    pending: Vec<Transaction>,
    storage: S,
    policy: ActiveConsensus,
}

impl<S: Storage> Blockchain<S> {
    /// The committed chain.
    pub closed spec fn chain(&self) -> Seq<BlockData> {
        self.committed.chain()
    }

    /// The pending-transaction pool, in submission order.
    pub closed spec fn pending_view(&self) -> Seq<TransactionData> {
        self.pending.deep_view()
    }

    /// The blocks held by the storage collaborator.
    pub closed spec fn stored_blocks(&self) -> Seq<BlockData> {
        self.storage.blocks_view()
    }

    /// The active consensus policy.
    pub closed spec fn policy_view(&self) -> ActiveConsensus {
        self.policy
    }

    /// Create a ledger in its uninitialized state: no blocks, an empty
    /// pool, the given storage collaborator and active policy.
    pub fn new(storage: S, policy: ActiveConsensus) -> (r: Blockchain<S>)
        ensures
            r.chain() == Seq::<BlockData>::empty(),
            r.pending_view() == Seq::<TransactionData>::empty(),
            r.stored_blocks() == storage.blocks_view(),
            r.policy_view() == policy,
    {
        let r = Blockchain {
            committed: CommittedChain { entries: Vec::new() },
            pending: Vec::new(),
            storage,
            policy,
        };
        proof {
            assert(r.chain() =~= Seq::<BlockData>::empty());
            assert(r.pending_view() =~= Seq::<TransactionData>::empty());
        }
        r
    }

    /// Give the storage collaborator back, ending this ledger instance; a
    /// node restarting against the same store hands it to a fresh ledger.
    pub fn into_storage(self) -> (r: S)
        ensures
            r.blocks_view() == self.stored_blocks(),
    {
        self.storage
    }

    /// Initialize the ledger from storage: load the persisted chain, or
    /// where the store is empty, create and persist a genesis block. Fails
    /// only where storage is unusable or holds a corrupt chain.
    pub fn initialize(&mut self) -> (r: Result<(), ChainError>)
        requires
            old(self).chain().len() == 0,
        ensures
            r is Ok ==> spec_chain_linked(final(self).chain()),
            r is Ok && old(self).stored_blocks().len() == 0 ==> ({
                let g = final(self).chain()[0];
                &&& final(self).chain().len() == 1
                &&& g.header.height == 0
                &&& g.header.prev_hash == spec_zero_hash()
                &&& g.transactions.len() == 0
                &&& final(self).stored_blocks() == old(self).stored_blocks().push(g)
            }),
            r is Ok && old(self).stored_blocks().len() > 0 ==> final(self).chain() == old(self).stored_blocks()
                && final(self).stored_blocks() == old(self).stored_blocks(),
            old(self).stored_blocks().len() > 0 && !spec_chain_linked(old(self).stored_blocks())
                ==> r is Err,
            r is Err ==> r->Err_0 is Storage && final(self).chain() == old(self).chain(),
            final(self).pending_view() == old(self).pending_view(),
            final(self).policy_view() == old(self).policy_view(),
    {
        let loaded = match self.storage.load_blocks() {
            Ok(v) => v,
            Err(e) => {
                return Err(ChainError::Storage(e));
            },
        };
        if loaded.len() == 0 {
            self.create_genesis_block()
        } else {
            self.load_chain(loaded)
        }
    }

    /// Create, persist and publish the genesis block: height 0, 64 zero
    /// characters as `prev_hash`, no transactions.
    fn create_genesis_block(&mut self) -> (r: Result<(), ChainError>)
        requires
            old(self).chain().len() == 0,
        ensures
            r is Ok ==> ({
                let g = final(self).chain()[0];
                &&& final(self).chain().len() == 1
                &&& g.header.height == 0
                &&& g.header.prev_hash == spec_zero_hash()
                &&& g.transactions.len() == 0
                &&& final(self).stored_blocks() == old(self).stored_blocks().push(g)
            }),
            r is Err ==> r->Err_0 is Storage && final(self).chain() == old(self).chain(),
            final(self).pending_view() == old(self).pending_view(),
            final(self).policy_view() == old(self).policy_view(),
    {
        let genesis = Block::new(zero_hash(), 0, Vec::new(), 0);
        let hash = genesis.hash();
        match self.storage.store_block(&genesis) {
            Ok(()) => {},
            Err(e) => {
                return Err(ChainError::Storage(e));
            },
        }
        let mut entries: Vec<ChainEntry> = Vec::new();
        entries.push(ChainEntry { block: genesis, hash });
        self.committed = CommittedChain { entries };
        proof {
            assert(final(self).chain() =~= seq![final(self).committed.entries@[0].block@]);
        }
        Ok(())
    }

    /// Whether loaded blocks form a linked chain: heights sequential from
    /// 0, every later block linking to the hash of its predecessor.
    #[verifier::loop_isolation(false)]
    fn check_loaded_chain(blocks: &Vec<Block>) -> (r: bool)
        ensures
            r == spec_chain_linked(blocks.deep_view()),
    {
        let ghost bv = blocks.deep_view();
        let n = blocks.len();
        let mut i: usize = 0;
        while i < n
            invariant
                i <= n,
                forall|j: int| 0 <= j < i ==> (#[trigger] bv[j].header).height == j,
                forall|j: int|
                    1 <= j < i ==> (#[trigger] bv[j].header).prev_hash == spec_block_hash(
                        bv[j - 1].header,
                    ),
            decreases n - i,
        {
            proof {
                assert(bv[i as int] == blocks@[i as int]@);
            }
            if blocks[i].header.height != i as u64 {
                proof {
                    assert(bv[i as int].header.height != i);
                }
                return false;
            }
            if i > 0 {
                let prev_hash = blocks[i - 1].hash();
                proof {
                    assert(bv[i - 1 as int] == blocks@[i - 1 as int]@);
                }
                if !str_eq(blocks[i].header.prev_hash.as_str(), prev_hash.as_str()) {
                    proof {
                        assert(bv[i as int].header.prev_hash != spec_block_hash(
                            bv[i - 1 as int].header,
                        ));
                    }
                    return false;
                }
            }
            i = i + 1;
        }
        true
    }

    /// Adopt a loaded chain: validate its structure, rebuild the hash
    /// index, and publish it. A chain that does not link is reported as a
    /// corrupt store.
    #[verifier::loop_isolation(false)]
    fn load_chain(&mut self, blocks: Vec<Block>) -> (r: Result<(), ChainError>)
        requires
            old(self).chain().len() == 0,
            blocks@.len() > 0,
        ensures
            r is Ok <==> spec_chain_linked(blocks.deep_view()),
            r is Ok ==> final(self).chain() == blocks.deep_view(),
            r is Err ==> r->Err_0 is Storage && final(self).chain() == old(self).chain(),
            final(self).stored_blocks() == old(self).stored_blocks(),
            final(self).pending_view() == old(self).pending_view(),
            final(self).policy_view() == old(self).policy_view(),
    {
        let ghost bv = blocks.deep_view();
        if !Self::check_loaded_chain(&blocks) {
            return Err(ChainError::Storage(StorageError::Corrupt));
        }
        let n = blocks.len();
        let mut entries: Vec<ChainEntry> = Vec::new();
        let mut i: usize = 0;
        while i < n
            invariant
                i <= n,
                entries@.len() == i,
                forall|j: int| 0 <= j < i ==> (#[trigger] entries@[j].block)@ == bv[j],
                forall|j: int|
                    0 <= j < i ==> (#[trigger] entries@[j].hash)@ == spec_block_hash(bv[j].header),
            decreases n - i,
        {
            let block = blocks[i].clone();
            let hash = block.hash();
            proof {
                assert(bv[i as int] == blocks@[i as int]@);
            }
            entries.push(ChainEntry { block, hash });
            i = i + 1;
        }
        self.committed = CommittedChain { entries };
        proof {
            assert(final(self).chain() =~= bv);
        }
        Ok(())
    }

    /// Submit a transaction to the pending pool. A transaction without a
    /// signature is rejected; an accepted transaction extends the pool by
    /// exactly itself, so no concurrent submission is lost.
    pub fn add_transaction(&mut self, transaction: Transaction) -> (r: Result<(), ChainError>)
        ensures
            transaction@.signature is Some ==> r is Ok && final(self).pending_view() == old(self).pending_view().push(transaction@),
            transaction@.signature is None ==> r == Err::<(), ChainError>(
                ChainError::Signature(SignatureError::MissingTransactionSignature),
            ) && final(self).pending_view() == old(self).pending_view(),
            final(self).chain() == old(self).chain(),
            final(self).stored_blocks() == old(self).stored_blocks(),
            final(self).policy_view() == old(self).policy_view(),
    {
        if !transaction.verify_signature() {
            return Err(ChainError::Signature(SignatureError::MissingTransactionSignature));
        }
        self.pending.push(transaction);
        proof {
            assert(final(self).pending_view() =~= old(self).pending_view().push(transaction@));
            assert(final(self).chain() =~= old(self).chain());
        }
        Ok(())
    }

    /// The pending pool, in submission order.
    pub fn get_pending_transactions(&self) -> (r: Vec<Transaction>)
        ensures
            r.deep_view() == self.pending_view(),
    {
        copy_transactions(&self.pending)
    }

    /// The latest committed block, where one exists.
    pub fn get_latest_block(&self) -> (r: Option<Block>)
        ensures
            match r {
                Some(b) => self.chain().len() > 0 && b@ == self.chain().last(),
                None => self.chain().len() == 0,
            },
    {
        let n = self.committed.entries.len();
        if n == 0 {
            None
        } else {
            let b = self.committed.entries[n - 1].block.clone();
            proof {
                assert(self.chain()[n - 1 as int] == self.committed.entries@[n - 1 as int].block@);
            }
            Some(b)
        }
    }

    /// The committed block with the given hash, where one exists: the one
    /// at the first position whose hash matches.
    pub fn get_block_by_hash(&self, hash: &str) -> (r: Option<Block>)
        ensures
            match r {
                Some(b) => exists|i: int|
                    {
                        &&& 0 <= i < self.chain().len()
                        &&& #[trigger] self.chain()[i] == b@
                        &&& spec_block_hash(b@.header) == hash@
                        &&& forall|j: int|
                            0 <= j < i ==> spec_block_hash(#[trigger] self.chain()[j].header)
                                != hash@
                    },
                None => forall|i: int|
                    0 <= i < self.chain().len() ==> spec_block_hash(
                        (#[trigger] self.chain()[i]).header,
                    ) != hash@,
            },
    {
        proof {
            use_type_invariant(&self.committed);
        }
        let n = self.committed.entries.len();
        let mut i: usize = 0;
        while i < n
            invariant
                i <= n,
                n == self.committed.entries@.len(),
                forall|j: int|
                    0 <= j < i ==> spec_block_hash((#[trigger] self.chain()[j]).header) != hash@,
                self.committed.wf(),
            decreases n - i,
        {
            proof {
                assert(self.chain()[i as int] == self.committed.entries@[i as int].block@);
            }
            if str_eq(self.committed.entries[i].hash.as_str(), hash) {
                let b = self.committed.entries[i].block.clone();
                return Some(b);
            }
            i = i + 1;
        }
        None
    }

    /// The committed block at the given height, where one exists. In a
    /// linked chain the height is the position.
    pub fn get_block_by_height(&self, height: u64) -> (r: Option<Block>)
        ensures
            match r {
                Some(b) => height < self.chain().len() && b@ == self.chain()[height as int],
                None => height >= self.chain().len(),
            },
    {
        proof {
            use_type_invariant(&self.committed);
        }
        let n = self.committed.entries.len();
        if height < n as u64 {
            let b = self.committed.entries[height as usize].block.clone();
            proof {
                assert(self.chain()[height as int] == self.committed.entries@[height as int].block@);
            }
            Some(b)
        } else {
            None
        }
    }

    /// The current chain height: the tip's height, or 0 for an empty
    /// ledger.
    pub fn get_height(&self) -> (r: u64)
        ensures
            self.chain().len() == 0 ==> r == 0,
            self.chain().len() > 0 ==> r == self.chain().len() - 1,
    {
        proof {
            use_type_invariant(&self.committed);
        }
        let n = self.committed.entries.len();
        if n == 0 {
            0
        } else {
            let r = self.committed.entries[n - 1].block.header.height;
            proof {
                assert(self.chain()[n - 1 as int] == self.committed.entries@[n - 1 as int].block@);
                assert(self.chain()[n - 1 as int].header.height == n - 1);
            }
            r
        }
    }

    /// A read-only snapshot of the ledger for consensus engines: the tip
    /// and the pending pool.
    pub fn snapshot(&self) -> (r: ChainSnapshot)
        ensures
            self.chain().len() == 0 ==> r@.tip is None,
            self.chain().len() > 0 ==> r@.tip == Some(self.chain().last()),
            r@.pending == self.pending_view(),
    {
        ChainSnapshot { tip: self.get_latest_block(), pending: self.get_pending_transactions() }
    }

    /// Switch the active consensus policy. The committed chain, the pool
    /// and storage are untouched.
    pub fn set_policy(&mut self, policy: ActiveConsensus)
        ensures
            final(self).policy_view() == policy,
            final(self).chain() == old(self).chain(),
            final(self).pending_view() == old(self).pending_view(),
            final(self).stored_blocks() == old(self).stored_blocks(),
    {
        proof {
            use_type_invariant(&self.committed);
        }
        self.policy = policy;
        proof {
            assert(final(self).chain() =~= old(self).chain());
        }
    }

    /// The structural check of the commit pipeline, against the current
    /// chain.
    fn structural_check(&self, block: &Block) -> (r: Option<StructuralError>)
        ensures
            r == spec_structural_verdict(self.chain(), block@),
    {
        proof {
            use_type_invariant(&self.committed);
        }
        let n = self.committed.entries.len();
        if n == 0 {
            if block.header.height != 0 {
                Some(StructuralError::NonZeroGenesisHeight)
            } else {
                None
            }
        } else {
            proof {
                assert(self.chain()[n - 1 as int] == self.committed.entries@[n - 1 as int].block@);
                assert(self.chain()[n - 1 as int].header.height == n - 1);
            }
            let tip_height = self.committed.entries[n - 1].block.header.height;
            if block.header.height != tip_height + 1 {
                Some(StructuralError::HeightMismatch)
            } else if !str_eq(
                block.header.prev_hash.as_str(),
                self.committed.entries[n - 1].hash.as_str(),
            ) {
                Some(StructuralError::PrevHashMismatch)
            } else {
                None
            }
        }
    }

    /// Whether every transaction of a block carries a signature.
    fn txs_signed_check(block: &Block) -> (r: bool)
        ensures
            r == spec_txs_signed(block@),
    {
        let m = block.transactions.len();
        let mut i: usize = 0;
        while i < m
            invariant
                i <= m,
                m == block.transactions@.len(),
                forall|j: int|
                    0 <= j < i ==> (#[trigger] block@.transactions[j]).signature is Some,
            decreases m - i,
        {
            proof {
                assert(block@.transactions[i as int] == block.transactions@[i as int]@);
            }
            if !block.transactions[i].verify_signature() {
                proof {
                    assert(!spec_txs_signed(block@));
                }
                return false;
            }
            i = i + 1;
        }
        true
    }

    /// Validate a block against the current ledger state: the structural
    /// check, transaction validity, then the active policy's check.
    fn validate_block(&self, block: &Block) -> (r: Result<(), ChainError>)
        ensures
            r == spec_validation_verdict(self.chain(), self.policy_view(), block@),
    {
        match self.structural_check(block) {
            Some(e) => {
                return Err(ChainError::Structure(e));
            },
            None => {},
        }
        if !Self::txs_signed_check(block) {
            return Err(ChainError::Signature(SignatureError::MissingTransactionSignature));
        }
        let snap = self.snapshot();
        let verdict = match &self.policy {
            ActiveConsensus::OracleAttested(engine) => engine.validate_block(block, &snap),
            ActiveConsensus::StakeWeighted(engine) => engine.validate_block(block, &snap),
        };
        match verdict {
            Ok(()) => Ok(()),
            Err(pe) => Err(ChainError::Policy(pe)),
        }
    }

    /// Commit a block: the structural check, transaction validity, the
    /// active policy's check, durable persistence, then publication into
    /// the sequence and index as one unit. Each step short-circuits with
    /// the ledger's observable state unchanged.
    #[verifier::rlimit(60)]
    pub fn add_block(&mut self, block: Block) -> (r: Result<(), ChainError>)
        ensures
            spec_chain_linked(final(self).chain()),
            final(self).policy_view() == old(self).policy_view(),
            ({
                let c0 = old(self).chain();
                let c1 = final(self).chain();
                let s0 = old(self).stored_blocks();
                let s1 = final(self).stored_blocks();
                let p0 = old(self).pending_view();
                let p1 = final(self).pending_view();
                match spec_validation_verdict(c0, old(self).policy_view(), block@) {
                    Err(e) => r == Err::<(), ChainError>(e) && c1 == c0 && s1 == s0 && p1 == p0,
                    Ok(_) => (r is Ok ==> c1 == c0.push(block@) && s1 == s0.push(block@) && p1
                        == spec_pool_after_commit(p0, block@)) && (r is Err ==> r->Err_0 is Storage
                        && c1 == c0 && p1 == p0),
                }
            }),
    {
        proof {
            use_type_invariant(&self.committed);
        }
        let ghost c = self.chain();

        // Structural, transaction and policy checks.
        match self.validate_block(&block) {
            Ok(()) => {},
            Err(e) => {
                return Err(e);
            },
        }

        // Durable persistence before publication.
        let hash = block.hash();
        match self.storage.store_block(&block) {
            Ok(()) => {},
            Err(e) => {
                return Err(ChainError::Storage(e));
            },
        }

        // The committed transactions leave the pending pool, keyed by
        // canonical hash.
        let tx_hashes = Self::tx_hashes_of(&block);
        Self::drain_committed(&mut self.pending, &tx_hashes, Ghost(block@));

        // Publication: sequence and index as one unit.
        self.committed.publish(block, hash);
        Ok(())
    }

    /// The canonical hashes of a block's transactions, in order.
    fn tx_hashes_of(block: &Block) -> (r: Vec<String>)
        ensures
            r.deep_view().len() == block@.transactions.len(),
            forall|k: int|
                0 <= k < r.deep_view().len() ==> r.deep_view()[k] == spec_tx_hash(
                    block@.transactions[k],
                ),
    {
        let n = block.transactions.len();
        let mut out: Vec<String> = Vec::new();
        let mut i: usize = 0;
        while i < n
            invariant
                i <= n,
                n == block.transactions@.len(),
                out@.len() == i,
                forall|k: int|
                    0 <= k < i ==> (#[trigger] out@[k])@ == spec_tx_hash(block@.transactions[k]),
            decreases n - i,
        {
            let h = block.transactions[i].hash();
            let ghost o0 = out@;
            out.push(h);
            proof {
                assert(block@.transactions[i as int] == block.transactions@[i as int]@);
                assert forall|k: int| 0 <= k < i + 1 implies (#[trigger] out@[k])@ == spec_tx_hash(
                    block@.transactions[k],
                ) by {
                    if k < i as int {
                        assert(out@[k] == o0[k]);
                    }
                }
            }
            i = i + 1;
        }
        proof {
            assert forall|k: int| 0 <= k < n implies out.deep_view()[k] == spec_tx_hash(
                block@.transactions[k],
            ) by {
                assert(out.deep_view()[k] == out@[k]@);
            }
        }
        out
    }

    fn hash_included(tx_hashes: &Vec<String>, h: &String) -> (r: bool)
        ensures
            r == exists|k: int|
                0 <= k < tx_hashes.deep_view().len() && #[trigger] tx_hashes.deep_view()[k] == h@,
    {
        let n = tx_hashes.len();
        let mut i: usize = 0;
        while i < n
            invariant
                i <= n,
                n == tx_hashes@.len(),
                forall|k: int| 0 <= k < i ==> #[trigger] tx_hashes.deep_view()[k] != h@,
            decreases n - i,
        {
            proof {
                assert(tx_hashes.deep_view()[i as int] == tx_hashes@[i as int]@);
            }
            if str_eq(tx_hashes[i].as_str(), h.as_str()) {
                return true;
            }
            i = i + 1;
        }
        proof {
            if exists|k: int|
                0 <= k < tx_hashes.deep_view().len() && #[trigger] tx_hashes.deep_view()[k] == h@ {
                let w = choose|k: int|
                    0 <= k < tx_hashes.deep_view().len() && #[trigger] tx_hashes.deep_view()[k]
                        == h@;
                assert(tx_hashes.deep_view()[w] != h@);
            }
        }
        false
    }

    /// Remove from the pool every transaction the committed block includes,
    /// keyed by canonical hash.
    fn drain_committed(
        pending: &mut Vec<Transaction>,
        tx_hashes: &Vec<String>,
        Ghost(b): Ghost<BlockData>,
    )
        requires
            tx_hashes.deep_view().len() == b.transactions.len(),
            forall|k: int|
                0 <= k < tx_hashes.deep_view().len() ==> tx_hashes.deep_view()[k] == spec_tx_hash(
                    b.transactions[k],
                ),
        ensures
            final(pending).deep_view() == spec_pool_after_commit(old(pending).deep_view(), b),
    {
        let ghost p0 = pending.deep_view();
        let n = pending.len();
        let mut kept: Vec<Transaction> = Vec::new();
        proof {
            assert(kept.deep_view() =~= spec_pool_after_commit(p0.take(0), b));
        }
        let mut i: usize = 0;
        while i < n
            invariant
                i <= n,
                n == p0.len(),
                n == pending@.len(),
                pending.deep_view() == p0,
                tx_hashes.deep_view().len() == b.transactions.len(),
                forall|k: int|
                    0 <= k < tx_hashes.deep_view().len() ==> tx_hashes.deep_view()[k]
                        == spec_tx_hash(b.transactions[k]),
                kept.deep_view() == spec_pool_after_commit(p0.take(i as int), b),
            decreases n - i,
        {
            let ghost kv0 = kept.deep_view();
            proof {
                assert(p0[i as int] == pending@[i as int]@);
            }
            let h = pending[i].hash();
            let included = Self::hash_included(tx_hashes, &h);
            proof {
                if included {
                    let w = choose|k: int|
                        0 <= k < tx_hashes.deep_view().len() && #[trigger] tx_hashes.deep_view()[k]
                            == h@;
                    assert(spec_tx_hash(b.transactions[w]) == spec_tx_hash(p0[i as int]));
                    assert(spec_included(b, p0[i as int]));
                } else {
                    if spec_included(b, p0[i as int]) {
                        let w = choose|k: int|
                            0 <= k < b.transactions.len() && spec_tx_hash(
                                #[trigger] b.transactions[k],
                            ) == spec_tx_hash(p0[i as int]);
                        assert(tx_hashes.deep_view()[w] == h@);
                    }
                }
            }
            if !included {
                let t = pending[i].clone();
                kept.push(t);
            }
            proof {
                let t = p0.take(i + 1 as int);
                assert(t.drop_last() =~= p0.take(i as int));
                assert(t.last() == p0[i as int]);
                if spec_included(b, p0[i as int]) {
                    assert(kept.deep_view() =~= kv0 + Seq::<TransactionData>::empty());
                } else {
                    assert(kept.deep_view() =~= kv0.push(p0[i as int]));
                }
                assert(kept.deep_view() =~= spec_pool_after_commit(t, b));
            }
            i = i + 1;
        }
        proof {
            assert(p0.take(n as int) =~= p0);
        }
        *pending = kept;
    }
}

} // verus!
