//! The key-value storage capability a smart contract runs against.
//!
//! A contract sees its storage as a byte-keyed map ([`Storage`]); a
//! node-side implementation backs it durably outside this crate, and
//! [`MemoryKvStore`] is a verified in-memory store for driving contracts in
//! tests.

use vstd::prelude::*;

verus! {

use crate::utils::{bytes_eq, copy_bytes};

/// Byte-keyed storage for one contract's state.
pub trait Storage: Sized {
    /// The records the store holds, by key. An implementation outside this
    /// crate leaves the default, of which nothing is known.
    open spec fn data_view(&self) -> Map<Seq<u8>, Seq<u8>> {
        Map::empty()
    }

    /// Get the value stored under a key, where one exists.
    fn get(&self, key: &[u8]) -> (r: Result<Option<Vec<u8>>, String>)
        ensures
            r is Ok ==> match r->Ok_0 {
                Some(v) => self.data_view().dom().contains(key@) && v@ == self.data_view()[key@],
                None => !self.data_view().dom().contains(key@),
            },
    ;

    /// Store a value under a key, replacing any earlier value.
    fn set(&mut self, key: &[u8], value: &[u8]) -> (r: Result<(), String>)
        ensures
            r is Ok ==> final(self).data_view() == old(self).data_view().insert(key@, value@),
    ;

    /// Remove the value stored under a key.
    fn remove(&mut self, key: &[u8]) -> (r: Result<(), String>)
        ensures
            r is Ok ==> final(self).data_view() == old(self).data_view().remove(key@),
    ;

    /// Whether a key holds a value.
    fn contains(&self, key: &[u8]) -> (r: Result<bool, String>)
        ensures
            r is Ok ==> r->Ok_0 == self.data_view().dom().contains(key@),
    ;
}

/// The records held by a list of key-value bindings; a later binding for a
/// key replaces an earlier one.
pub open spec fn spec_kv_map(bindings: Seq<(Seq<u8>, Seq<u8>)>) -> Map<Seq<u8>, Seq<u8>>
    decreases bindings.len(),
{
    if bindings.len() == 0 {
        Map::empty()
    } else {
        spec_kv_map(bindings.drop_last()).insert(bindings.last().0, bindings.last().1)
    }
}

proof fn lemma_kv_absent(bindings: Seq<(Seq<u8>, Seq<u8>)>, key: Seq<u8>)
    requires
        forall|j: int| 0 <= j < bindings.len() ==> (#[trigger] bindings[j]).0 != key,
    ensures
        !spec_kv_map(bindings).dom().contains(key),
    decreases bindings.len(),
{
    if bindings.len() > 0 {
        lemma_kv_absent(bindings.drop_last(), key);
    }
}

proof fn lemma_kv_last_binding(bindings: Seq<(Seq<u8>, Seq<u8>)>, key: Seq<u8>, i: int)
    requires
        0 <= i < bindings.len(),
        bindings[i].0 == key,
        forall|j: int| i < j < bindings.len() ==> (#[trigger] bindings[j]).0 != key,
    ensures
        spec_kv_map(bindings).dom().contains(key),
        spec_kv_map(bindings)[key] == bindings[i].1,
    decreases bindings.len(),
{
    if i == bindings.len() - 1 {
    } else {
        lemma_kv_last_binding(bindings.drop_last(), key, i);
    }
}

/// The bindings of a list whose key differs from the given one, in order.
pub open spec fn spec_kv_without(bindings: Seq<(Seq<u8>, Seq<u8>)>, key: Seq<u8>) -> Seq<
    (Seq<u8>, Seq<u8>),
>
    decreases bindings.len(),
{
    if bindings.len() == 0 {
        Seq::empty()
    } else {
        spec_kv_without(bindings.drop_last(), key) + if bindings.last().0 == key {
            Seq::empty()
        } else {
            seq![bindings.last()]
        }
    }
}

proof fn lemma_kv_without_removes(bindings: Seq<(Seq<u8>, Seq<u8>)>, key: Seq<u8>)
    ensures
        spec_kv_map(spec_kv_without(bindings, key)) == spec_kv_map(bindings).remove(key),
    decreases bindings.len(),
{
    if bindings.len() == 0 {
        assert(spec_kv_map(spec_kv_without(bindings, key)) =~= spec_kv_map(bindings).remove(key));
    } else {
        let rest = bindings.drop_last();
        let x = bindings.last();
        lemma_kv_without_removes(rest, key);
        if x.0 == key {
            assert(spec_kv_without(bindings, key) =~= spec_kv_without(rest, key));
            assert(spec_kv_map(rest).insert(key, x.1).remove(key) =~= spec_kv_map(rest).remove(
                key,
            ));
        } else {
            assert(spec_kv_without(bindings, key) =~= spec_kv_without(rest, key).push(x));
            assert(spec_kv_without(bindings, key).drop_last() =~= spec_kv_without(rest, key));
            assert(spec_kv_without(bindings, key).last() == x);
            assert(spec_kv_map(rest).remove(key).insert(x.0, x.1) =~= spec_kv_map(rest).insert(
                x.0,
                x.1,
            ).remove(key));
        }
    }
}

/// A verified in-memory contract store: a list of bindings where the last
/// one for a key wins.
pub struct MemoryKvStore {
    entries: Vec<(Vec<u8>, Vec<u8>)>,
}

impl MemoryKvStore {
    /// The bindings the store holds, in insertion order.
    closed spec fn bindings(&self) -> Seq<(Seq<u8>, Seq<u8>)> {
        Seq::new(self.entries@.len(), |i: int| (self.entries@[i].0@, self.entries@[i].1@))
    }

    /// Create an empty store.
    pub fn new() -> (r: MemoryKvStore)
        ensures
            r.data_view() == Map::<Seq<u8>, Seq<u8>>::empty(),
    {
        let r = MemoryKvStore { entries: Vec::new() };
        proof {
            assert(r.bindings() =~= Seq::<(Seq<u8>, Seq<u8>)>::empty());
        }
        r
    }

    fn last_binding(&self, key: &[u8]) -> (r: Option<usize>)
        ensures
            match r {
                Some(i) => i < self.bindings().len() && self.bindings()[i as int].0 == key@
                    && forall|j: int|
                    i < j < self.bindings().len() ==> (#[trigger] self.bindings()[j]).0 != key@,
                None => forall|j: int|
                    0 <= j < self.bindings().len() ==> (#[trigger] self.bindings()[j]).0 != key@,
            },
    {
        let n = self.entries.len();
        let mut i: usize = n;
        while i > 0
            invariant
                i <= n,
                n == self.entries@.len(),
                forall|j: int| i <= j < n ==> (#[trigger] self.bindings()[j]).0 != key@,
            decreases i,
        {
            i = i - 1;
            proof {
                assert(self.bindings()[i as int].0 == self.entries@[i as int].0@);
            }
            if bytes_eq(self.entries[i].0.as_slice(), key) {
                return Some(i);
            }
        }
        None
    }
}

impl Storage for MemoryKvStore {
    closed spec fn data_view(&self) -> Map<Seq<u8>, Seq<u8>> {
        spec_kv_map(self.bindings())
    }

    fn get(&self, key: &[u8]) -> (r: Result<Option<Vec<u8>>, String>) {
        match self.last_binding(key) {
            Some(i) => {
                let v = copy_bytes(&self.entries[i].1);
                proof {
                    lemma_kv_last_binding(self.bindings(), key@, i as int);
                }
                Ok(Some(v))
            },
            None => {
                proof {
                    lemma_kv_absent(self.bindings(), key@);
                }
                Ok(None)
            },
        }
    }

    fn set(&mut self, key: &[u8], value: &[u8]) -> (r: Result<(), String>) {
        let owned_key = vstd::slice::slice_to_vec(key);
        let owned_value = vstd::slice::slice_to_vec(value);
        self.entries.push((owned_key, owned_value));
        proof {
            assert(self.bindings().drop_last() =~= old(self).bindings());
            assert(self.bindings().last() == (key@, value@));
        }
        Ok(())
    }

    fn remove(&mut self, key: &[u8]) -> (r: Result<(), String>) {
        let ghost bindings0 = self.bindings();
        let n = self.entries.len();
        let mut kept: Vec<(Vec<u8>, Vec<u8>)> = Vec::new();
        proof {
            assert(Seq::new(kept@.len(), |k: int| (kept@[k].0@, kept@[k].1@)) =~= spec_kv_without(
                bindings0.take(0),
                key@,
            ));
        }
        let mut i: usize = 0;
        while i < n
            invariant
                i <= n,
                n == bindings0.len(),
                self.bindings() == bindings0,
                n == self.entries@.len(),
                Seq::new(kept@.len(), |k: int| (kept@[k].0@, kept@[k].1@)) == spec_kv_without(
                    bindings0.take(i as int),
                    key@,
                ),
            decreases n - i,
        {
            let ghost kv0 = Seq::new(kept@.len(), |k: int| (kept@[k].0@, kept@[k].1@));
            proof {
                assert(bindings0[i as int] == (self.entries@[i as int].0@,
                self.entries@[i as int].1@));
            }
            if !bytes_eq(self.entries[i].0.as_slice(), key) {
                let k = copy_bytes(&self.entries[i].0);
                let v = copy_bytes(&self.entries[i].1);
                kept.push((k, v));
            }
            proof {
                let t = bindings0.take(i + 1 as int);
                assert(t.drop_last() =~= bindings0.take(i as int));
                assert(t.last() == bindings0[i as int]);
                assert(Seq::new(kept@.len(), |k: int| (kept@[k].0@, kept@[k].1@)) =~= (
                if bindings0[i as int].0 == key@ {
                    kv0
                } else {
                    kv0.push(bindings0[i as int])
                }));
                assert(Seq::new(kept@.len(), |k: int| (kept@[k].0@, kept@[k].1@))
                    =~= spec_kv_without(t, key@));
            }
            i = i + 1;
        }
        proof {
            assert(bindings0.take(n as int) =~= bindings0);
        }
        self.entries = kept;
        proof {
            lemma_kv_without_removes(bindings0, key@);
            assert(self.bindings() =~= Seq::new(
                kept@.len(),
                |k: int| (kept@[k].0@, kept@[k].1@),
            ));
        }
        Ok(())
    }

    fn contains(&self, key: &[u8]) -> (r: Result<bool, String>) {
        match self.last_binding(key) {
            Some(i) => {
                proof {
                    lemma_kv_last_binding(self.bindings(), key@, i as int);
                }
                Ok(true)
            },
            None => {
                proof {
                    lemma_kv_absent(self.bindings(), key@);
                }
                Ok(false)
            },
        }
    }
}

} // verus!
