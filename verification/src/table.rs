//! Address-keyed tables used by the contracts: each address holds at most
//! one entry, the first entry for an address is its binding, and storing
//! updates that entry in place or appends a new one.

use vstd::prelude::*;

verus! {

use vstd::pervasive::VecAdditionalExecFns;
use crate::utils::str_eq;

/// The entries of a table, by address and amount.
pub open spec fn spec_table_view(entries: Seq<(String, u64)>) -> Seq<(Seq<char>, u64)> {
    Seq::new(entries.len(), |i: int| (entries[i].0@, entries[i].1))
}

/// The amount bound to an address: its first entry, or 0.
pub open spec fn spec_table_get(table: Seq<(Seq<char>, u64)>, address: Seq<char>) -> u64
    decreases table.len(),
{
    if table.len() == 0 {
        0
    } else if table[0].0 == address {
        table[0].1
    } else {
        spec_table_get(table.drop_first(), address)
    }
}

proof fn lemma_table_get_update(table: Seq<(Seq<char>, u64)>, i: int, value: u64, a: Seq<char>)
    requires
        0 <= i < table.len(),
        forall|j: int| 0 <= j < i ==> (#[trigger] table[j]).0 != table[i].0,
    ensures
        spec_table_get(table.update(i, (table[i].0, value)), a) == if a == table[i].0 {
            value
        } else {
            spec_table_get(table, a)
        },
    decreases i,
{
    let updated = table.update(i, (table[i].0, value));
    if i == 0 {
        assert(updated.drop_first() =~= table.drop_first());
    } else {
        assert(updated.drop_first() =~= table.drop_first().update(i - 1, (table[i].0, value)));
        assert(table.drop_first()[i - 1] == table[i]);
        assert forall|j: int| 0 <= j < i - 1 implies (#[trigger] table.drop_first()[j]).0
            != table.drop_first()[i - 1].0 by {
            assert(table.drop_first()[j] == table[j + 1]);
        }
        lemma_table_get_update(table.drop_first(), i - 1, value, a);
    }
}

proof fn lemma_table_get_push(table: Seq<(Seq<char>, u64)>, address: Seq<char>, value: u64, a: Seq<char>)
    requires
        forall|j: int| 0 <= j < table.len() ==> (#[trigger] table[j]).0 != address,
    ensures
        spec_table_get(table.push((address, value)), a) == if a == address {
            value
        } else {
            spec_table_get(table, a)
        },
    decreases table.len(),
{
    let pushed = table.push((address, value));
    if table.len() == 0 {
        assert(pushed[0] == (address, value));
        assert(pushed.drop_first() =~= Seq::<(Seq<char>, u64)>::empty());
        if a == address {
            assert(spec_table_get(pushed, a) == value);
        } else {
            assert(spec_table_get(pushed, a) == spec_table_get(pushed.drop_first(), a));
        }
    } else {
        assert(pushed[0] == table[0]);
        assert(pushed.drop_first() =~= table.drop_first().push((address, value)));
        assert forall|j: int| 0 <= j < table.drop_first().len() implies (#[trigger] table.drop_first()[j]).0 != address by {
            assert(table.drop_first()[j] == table[j + 1]);
        }
        lemma_table_get_push(table.drop_first(), address, value, a);
        assert(table[0].0 != address);
        if pushed[0].0 == a {
            assert(spec_table_get(pushed, a) == table[0].1);
            assert(spec_table_get(table, a) == table[0].1);
        } else {
            assert(spec_table_get(pushed, a) == spec_table_get(pushed.drop_first(), a));
            assert(spec_table_get(table, a) == spec_table_get(table.drop_first(), a));
        }
    }
}

/// Look up the amount bound to an address, 0 where none is.
#[verifier::loop_isolation(false)]
pub(crate) fn table_get(entries: &Vec<(String, u64)>, address: &str) -> (r: u64)
    ensures
        r == spec_table_get(spec_table_view(entries@), address@),
{
    let ghost table = spec_table_view(entries@);
    let n = entries.len();
    proof {
        assert(table.skip(0) =~= table);
    }
    let mut i: usize = 0;
    while i < n
        invariant
            i <= n,
            spec_table_get(table, address@) == spec_table_get(table.skip(i as int), address@),
        decreases n - i,
    {
        proof {
            assert(table.skip(i as int)[0] == table[i as int]);
        }
        if str_eq(entries[i].0.as_str(), address) {
            return entries[i].1;
        }
        proof {
            assert(table.skip(i as int).drop_first() =~= table.skip(i + 1));
        }
        i = i + 1;
    }
    proof {
        assert(table.skip(n as int) =~= Seq::<(Seq<char>, u64)>::empty());
    }
    0
}

/// Bind an amount to an address: update its first entry in place, or append
/// a new entry. Every other address keeps its amount.
#[verifier::loop_isolation(false)]
pub(crate) fn table_set(entries: &mut Vec<(String, u64)>, address: &str, value: u64)
    ensures
        ({
            let t0 = spec_table_view(old(entries)@);
            let t1 = spec_table_view(final(entries)@);
            &&& spec_table_get(t1, address@) == value
            &&& forall|a: Seq<char>|
                a != address@ ==> spec_table_get(t1, a) == spec_table_get(t0, a)
        }),
{
    let ghost t0 = spec_table_view(old(entries)@);
    let n = entries.len();
    let mut i: usize = 0;
    while i < n
        invariant
            i <= n,
            n == entries@.len(),
            entries@ == old(entries)@,
            forall|j: int| 0 <= j < i ==> (#[trigger] t0[j]).0 != address@,
        decreases n - i,
    {
        proof {
            assert(t0[i as int] == (entries@[i as int].0@, entries@[i as int].1));
        }
        if str_eq(entries[i].0.as_str(), address) {
            let owned = entries[i].0.clone();
            entries.set(i, (owned, value));
            proof {
                assert(spec_table_view(entries@) =~= t0.update(i as int, (t0[i as int].0, value)));
                lemma_table_get_update(t0, i as int, value, address@);
                assert forall|a: Seq<char>| a != address@ implies spec_table_get(
                    spec_table_view(entries@),
                    a,
                ) == spec_table_get(t0, a) by {
                    lemma_table_get_update(t0, i as int, value, a);
                }
            }
            return ;
        }
        i = i + 1;
    }
    entries.push((address.to_owned(), value));
    proof {
        assert(spec_table_view(entries@) =~= t0.push((address@, value)));
        lemma_table_get_push(t0, address@, value, address@);
        assert forall|a: Seq<char>| a != address@ implies spec_table_get(
            spec_table_view(entries@),
            a,
        ) == spec_table_get(t0, a) by {
            lemma_table_get_push(t0, address@, value, a);
        }
    }
}

} // verus!
