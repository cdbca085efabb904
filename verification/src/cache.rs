//! The cache of records, keyed by the address text.
//!
//! The store is a flat vector of records whose addresses are pairwise
//! distinct; its view is the map from address to record model. `get` is a
//! point lookup and does not judge freshness — that is the engine's rule —
//! and `put` inserts or fully replaces the record for its address.

use crate::record::{IpRecord, RecordModel};
use crate::str_eq;
use vstd::prelude::*;

verus! {

/// The map held by a sequence of records: a later entry for the same
/// address wins (the store never has two).
pub open spec fn entries_map(s: Seq<IpRecord>) -> Map<Seq<char>, RecordModel>
    decreases s.len(),
{
    if s.len() == 0 {
        Map::empty()
    } else {
        entries_map(s.drop_last()).insert(s.last()@.address, s.last()@)
    }
}

/// No two entries share an address.
pub open spec fn unique_addresses(s: Seq<IpRecord>) -> bool {
    forall|p: int, q: int| 0 <= p < q < s.len() ==> s[p]@.address != s[q]@.address
}

proof fn lemma_entries_map_index(s: Seq<IpRecord>, i: int)
    requires
        unique_addresses(s),
        0 <= i < s.len(),
    ensures
        entries_map(s).contains_key(s[i]@.address),
        entries_map(s)[s[i]@.address] == s[i]@,
    decreases s.len(),
{
    if i < s.len() - 1 {
        assert(unique_addresses(s.drop_last())) by {
            assert(forall|p: int, q: int|
                0 <= p < q < s.len() - 1 ==> s.drop_last()[p]@.address
                    != s.drop_last()[q]@.address);
        }
        lemma_entries_map_index(s.drop_last(), i);
        assert(s.drop_last()[i] == s[i]);
        assert(s[i]@.address != s.last()@.address);
    }
}

proof fn lemma_entries_map_absent(s: Seq<IpRecord>, key: Seq<char>)
    requires
        forall|i: int| 0 <= i < s.len() ==> s[i]@.address != key,
    ensures
        !entries_map(s).contains_key(key),
    decreases s.len(),
{
    if s.len() > 0 {
        lemma_entries_map_absent(s.drop_last(), key);
    }
}

proof fn lemma_entries_map_update(s: Seq<IpRecord>, i: int, r: IpRecord)
    requires
        unique_addresses(s),
        0 <= i < s.len(),
        s[i]@.address == r@.address,
    ensures
        entries_map(s.update(i, r)) == entries_map(s).insert(r@.address, r@),
        unique_addresses(s.update(i, r)),
    decreases s.len(),
{
    let su = s.update(i, r);
    assert(unique_addresses(su)) by {
        assert(forall|p: int, q: int|
            0 <= p < q < su.len() ==> su[p]@.address != su[q]@.address) by {
            assert(forall|k: int| 0 <= k < s.len() && k != i ==> su[k] == s[k]);
        }
    }
    if i == s.len() - 1 {
        assert(su.drop_last() =~= s.drop_last());
        assert(su.last() == r);
        assert(entries_map(s.drop_last()).insert(s.last()@.address, s.last()@).insert(
            r@.address,
            r@,
        ) =~= entries_map(s.drop_last()).insert(r@.address, r@));
    } else {
        assert(unique_addresses(s.drop_last())) by {
            assert(forall|p: int, q: int|
                0 <= p < q < s.len() - 1 ==> s.drop_last()[p]@.address
                    != s.drop_last()[q]@.address);
        }
        assert(s.drop_last()[i] == s[i]);
        lemma_entries_map_update(s.drop_last(), i, r);
        assert(su.drop_last() =~= s.drop_last().update(i, r));
        assert(su.last() == s.last());
        assert(s[i]@.address != s.last()@.address);
        assert(entries_map(s.drop_last()).insert(r@.address, r@).insert(
            s.last()@.address,
            s.last()@,
        ) =~= entries_map(s.drop_last()).insert(s.last()@.address, s.last()@).insert(
            r@.address,
            r@,
        ));
    }
}

proof fn lemma_entries_map_len(s: Seq<IpRecord>)
    requires
        unique_addresses(s),
    ensures
        entries_map(s).dom().finite(),
        entries_map(s).dom().len() == s.len(),
    decreases s.len(),
{
    if s.len() == 0 {
        assert(entries_map(s).dom() =~= Set::<Seq<char>>::empty());
    } else {
        assert(unique_addresses(s.drop_last())) by {
            assert(forall|p: int, q: int|
                0 <= p < q < s.len() - 1 ==> s.drop_last()[p]@.address
                    != s.drop_last()[q]@.address);
        }
        lemma_entries_map_len(s.drop_last());
        lemma_entries_map_absent(s.drop_last(), s.last()@.address);
        assert(entries_map(s).dom() =~= entries_map(s.drop_last()).dom().insert(
            s.last()@.address,
        ));
    }
}

/// The durable key-value store of records, modelled in memory. One record
/// per address; the view is the map from address text to record model.
pub struct CacheStore {
    entries: Vec<IpRecord>,
}

impl View for CacheStore {
    type V = Map<Seq<char>, RecordModel>;

    closed spec fn view(&self) -> Map<Seq<char>, RecordModel> {
        entries_map(self.entries@)
    }
}

impl CacheStore {
    /// Addresses are pairwise distinct.
    pub closed spec fn wf(&self) -> bool {
        unique_addresses(self.entries@)
    }

    /// An empty store.
    pub fn new() -> (r: CacheStore)
        ensures
            r.wf(),
            r@ == Map::<Seq<char>, RecordModel>::empty(),
    {
        CacheStore { entries: Vec::new() }
    }

    /// Point lookup by exact address text; `None` when never stored.
    /// Freshness is not judged here.
    pub fn get(&self, address: &str) -> (r: Option<&IpRecord>)
        requires
            self.wf(),
        ensures
            match r {
                Some(rec) => self@.contains_key(address@) && rec@ == self@[address@],
                None => !self@.contains_key(address@),
            },
    {
        let n = self.entries.len();
        let mut idx: usize = 0;
        while idx < n
            invariant
                self.wf(),
                n == self.entries@.len(),
                idx <= n,
                forall|k: int| 0 <= k < idx ==> self.entries@[k]@.address != address@,
            decreases n - idx,
        {
            if str_eq(self.entries[idx].address.as_str(), address) {
                proof {
                    lemma_entries_map_index(self.entries@, idx as int);
                }
                return Some(&self.entries[idx]);
            }
            idx = idx + 1;
        }
        proof {
            lemma_entries_map_absent(self.entries@, address@);
        }
        None
    }

    /// Inserts the record, or fully replaces the one stored under the same
    /// address.
    pub fn put(&mut self, record: IpRecord)
        requires
            old(self).wf(),
        ensures
            final(self).wf(),
            final(self)@ == old(self)@.insert(record@.address, record@),
    {
        let n = self.entries.len();
        let mut idx: usize = 0;
        while idx < n
            invariant
                self.wf(),
                self.entries@ == old(self).entries@,
                n == self.entries@.len(),
                idx <= n,
                forall|k: int| 0 <= k < idx ==> self.entries@[k]@.address != record@.address,
            decreases n - idx,
        {
            if str_eq(self.entries[idx].address.as_str(), record.address.as_str()) {
                proof {
                    lemma_entries_map_update(self.entries@, idx as int, record);
                }
                self.entries.remove(idx);
                self.entries.insert(idx, record);
                proof {
                    assert(old(self).entries@.remove(idx as int).insert(idx as int, record)
                        =~= old(self).entries@.update(idx as int, record));
                }
                return;
            }
            idx = idx + 1;
        }
        proof {
            lemma_entries_map_absent(self.entries@, record@.address);
            let pushed = self.entries@.push(record);
            assert(pushed.drop_last() =~= self.entries@);
            assert(unique_addresses(pushed)) by {
                assert(forall|k: int| 0 <= k < self.entries@.len() ==> pushed[k]
                    == self.entries@[k]);
            }
        }
        self.entries.push(record);
    }

    /// Number of records held.
    pub fn len(&self) -> (n: usize)
        requires
            self.wf(),
        ensures
            self@.dom().finite(),
            n == self@.dom().len(),
    {
        proof {
            lemma_entries_map_len(self.entries@);
        }
        self.entries.len()
    }
}

} // verus!
