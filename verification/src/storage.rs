//! The durable-storage capability consumed by the ledger.
//!
//! The ledger requires four things of a store: a stored block is retrievable
//! once the call returns success, `load_blocks` returns exactly what the
//! store holds, and opaque records are strongly consistent by key. Those
//! assumptions are the contracts of the [`Storage`] trait; a file-backed
//! store implements the trait outside this crate, and [`MemoryStorage`] is a
//! verified in-memory store.

use vstd::prelude::*;

verus! {

use crate::block::{copy_blocks, spec_block_hash, Block, BlockData};
use crate::errors::StorageError;
use crate::utils::{copy_bytes, str_eq};

/// Durable block and opaque-record persistence.
///
/// The ledger assumes each call is durable once it returns success and that
/// keys are strongly consistent: a `store_block` followed by `get_block`
/// for the same hash observes the write.
pub trait Storage: Sized {
    /// The blocks the store holds, in the order `load_blocks` returns them.
    /// An implementation outside this crate leaves the default, of which
    /// nothing is known.
    open spec fn blocks_view(&self) -> Seq<BlockData> {
        Seq::empty()
    }

    /// The opaque records the store holds, by key.
    open spec fn data_view(&self) -> Map<Seq<char>, Seq<u8>> {
        Map::empty()
    }

    /// Store a block durably.
    fn store_block(&mut self, block: &Block) -> (r: Result<(), StorageError>)
        ensures
            r is Ok ==> final(self).blocks_view() == old(self).blocks_view().push(block@),
            r is Ok ==> final(self).data_view() == old(self).data_view(),
    ;

    /// Load every stored block.
    fn load_blocks(&self) -> (r: Result<Vec<Block>, StorageError>)
        ensures
            r is Ok ==> r->Ok_0.deep_view() == self.blocks_view(),
    ;

    /// Get a stored block by its hash.
    fn get_block(&self, hash: &str) -> (r: Result<Option<Block>, StorageError>)
        ensures
            r is Ok ==> match r->Ok_0 {
                Some(b) => exists|i: int|
                    0 <= i < self.blocks_view().len() && self.blocks_view()[i] == b@
                        && spec_block_hash(b@.header) == hash@,
                None => forall|i: int|
                    0 <= i < self.blocks_view().len() ==> spec_block_hash(
                        self.blocks_view()[i].header,
                    ) != hash@,
            },
    ;

    /// Store an opaque record under a key, replacing any earlier record.
    fn store_data(&mut self, key: &str, data: &[u8]) -> (r: Result<(), StorageError>)
        ensures
            r is Ok ==> final(self).data_view() == old(self).data_view().insert(key@, data@),
            r is Ok ==> final(self).blocks_view() == old(self).blocks_view(),
    ;

    /// Load the opaque record stored under a key, where one exists.
    fn load_data(&self, key: &str) -> (r: Result<Option<Vec<u8>>, StorageError>)
        ensures
            r is Ok ==> match r->Ok_0 {
                Some(v) => self.data_view().dom().contains(key@) && v@ == self.data_view()[key@],
                None => !self.data_view().dom().contains(key@),
            },
    ;
}

/// The opaque records held by a list of key-value entries; a later entry
/// for a key replaces an earlier one.
pub open spec fn spec_records_map(entries: Seq<(String, Vec<u8>)>) -> Map<Seq<char>, Seq<u8>>
    decreases entries.len(),
{
    if entries.len() == 0 {
        Map::empty()
    } else {
        spec_records_map(entries.drop_last()).insert(entries.last().0@, entries.last().1@)
    }
}

proof fn lemma_records_map_absent(entries: Seq<(String, Vec<u8>)>, key: Seq<char>)
    requires
        forall|j: int| 0 <= j < entries.len() ==> entries[j].0@ != key,
    ensures
        !spec_records_map(entries).dom().contains(key),
    decreases entries.len(),
{
    if entries.len() > 0 {
        lemma_records_map_absent(entries.drop_last(), key);
    }
}

proof fn lemma_records_map_last_binding(entries: Seq<(String, Vec<u8>)>, key: Seq<char>, i: int)
    requires
        0 <= i < entries.len(),
        entries[i].0@ == key,
        forall|j: int| i < j < entries.len() ==> entries[j].0@ != key,
    ensures
        spec_records_map(entries).dom().contains(key),
        spec_records_map(entries)[key] == entries[i].1@,
    decreases entries.len(),
{
    if i == entries.len() - 1 {
    } else {
        lemma_records_map_last_binding(entries.drop_last(), key, i);
    }
}

/// Law: a stored block comes back from a later load with its hash intact.
/// `store_block` appends the block to the store's contents and
/// `load_blocks` returns exactly those contents, so the last loaded block
/// is the stored one and its hash is the stored block's hash.
pub proof fn lemma_store_load_round_trip(stored: Seq<BlockData>, b: BlockData)
    ensures
        stored.push(b).last() == b,
        spec_block_hash(stored.push(b).last().header) == spec_block_hash(b.header),
{
}

/// A verified in-memory store: blocks in insertion order, opaque records as
/// a list of bindings where the last one for a key wins.
pub struct MemoryStorage {
    blocks: Vec<Block>,
    records: Vec<(String, Vec<u8>)>,
}

impl MemoryStorage {
    /// Create an empty store.
    pub fn new() -> (r: MemoryStorage)
        ensures
            r.blocks_view() == Seq::<BlockData>::empty(),
            r.data_view() == Map::<Seq<char>, Seq<u8>>::empty(),
    {
        let r = MemoryStorage { blocks: Vec::new(), records: Vec::new() };
        proof {
            assert(r.blocks_view() =~= Seq::<BlockData>::empty());
        }
        r
    }
}

impl Storage for MemoryStorage {
    closed spec fn blocks_view(&self) -> Seq<BlockData> {
        self.blocks.deep_view()
    }

    closed spec fn data_view(&self) -> Map<Seq<char>, Seq<u8>> {
        spec_records_map(self.records@)
    }

    fn store_block(&mut self, block: &Block) -> (r: Result<(), StorageError>) {
        self.blocks.push(block.clone());
        proof {
            assert(self.blocks.deep_view() =~= old(self).blocks.deep_view().push(block@));
        }
        Ok(())
    }

    fn load_blocks(&self) -> (r: Result<Vec<Block>, StorageError>) {
        Ok(copy_blocks(&self.blocks))
    }

    fn get_block(&self, hash: &str) -> (r: Result<Option<Block>, StorageError>) {
        let n = self.blocks.len();
        let mut i: usize = 0;
        while i < n
            invariant
                n == self.blocks@.len(),
                i <= n,
                forall|j: int|
                    0 <= j < i ==> spec_block_hash(self.blocks.deep_view()[j].header) != hash@,
            decreases n - i,
        {
            let h = self.blocks[i].hash();
            if str_eq(h.as_str(), hash) {
                let b = self.blocks[i].clone();
                proof {
                    assert(self.blocks.deep_view()[i as int] == b@);
                }
                return Ok(Some(b));
            }
            proof {
                assert(self.blocks.deep_view()[i as int] == self.blocks@[i as int]@);
            }
            i = i + 1;
        }
        Ok(None)
    }

    fn store_data(&mut self, key: &str, data: &[u8]) -> (r: Result<(), StorageError>) {
        let owned_key = key.to_owned();
        let owned_data = vstd::slice::slice_to_vec(data);
        self.records.push((owned_key, owned_data));
        proof {
            assert(self.records@.drop_last() =~= old(self).records@);
            assert(self.blocks.deep_view() =~= old(self).blocks.deep_view());
        }
        Ok(())
    }

    fn load_data(&self, key: &str) -> (r: Result<Option<Vec<u8>>, StorageError>) {
        let n = self.records.len();
        let mut i: usize = n;
        while i > 0
            invariant
                n == self.records@.len(),
                i <= n,
                forall|j: int| i <= j < n ==> self.records@[j].0@ != key@,
            decreases i,
        {
            i = i - 1;
            if str_eq(self.records[i].0.as_str(), key) {
                let v = copy_bytes(&self.records[i].1);
                proof {
                    lemma_records_map_last_binding(self.records@, key@, i as int);
                }
                return Ok(Some(v));
            }
        }
        proof {
            lemma_records_map_absent(self.records@, key@);
        }
        Ok(None)
    }
}

} // verus!
