//! The scan cache: a content-addressed store from content hash to the
//! response computed for it, kept for the life of the process, never evicted.
//!
//! Entries are appended; when the same hash is stored twice (two concurrent
//! misses on the same payload may both scan and both store), the entry stored
//! last wins, so the store behaves as a map whose latest write is visible.

use vstd::prelude::*;
use crate::response::{ScanResponse, ScanResponseView};

verus! {

/// One stored response under its content hash.
struct CacheEntry {
    key: String,
    response: ScanResponse,
}

/// Content-addressed response store.
pub struct ScanCache {
    entries: Vec<CacheEntry>,
}

/// The map an entry sequence denotes: later entries overwrite earlier ones.
spec fn entries_map(es: Seq<CacheEntry>) -> Map<Seq<char>, ScanResponseView>
    decreases es.len(),
{
    if es.len() == 0 {
        Map::empty()
    } else {
        entries_map(es.drop_last()).insert(es.last().key@, es.last().response@)
    }
}

impl View for ScanCache {
    type V = Map<Seq<char>, ScanResponseView>;

    closed spec fn view(&self) -> Map<Seq<char>, ScanResponseView> {
        entries_map(self.entries@)
    }
}

/// The latest entry for a key decides the lookup.
proof fn lemma_entries_map_found(es: Seq<CacheEntry>, i: int)
    requires
        0 <= i < es.len(),
        forall|j: int| i < j < es.len() ==> es[j].key@ != es[i].key@,
    ensures
        entries_map(es).contains_key(es[i].key@),
        entries_map(es)[es[i].key@] == es[i].response@,
    decreases es.len(),
{
    if i < es.len() - 1 {
        lemma_entries_map_found(es.drop_last(), i);
    }
}

/// A key no entry holds is absent from the map.
proof fn lemma_entries_map_absent(es: Seq<CacheEntry>, k: Seq<char>)
    requires
        forall|j: int| 0 <= j < es.len() ==> es[j].key@ != k,
    ensures
        !entries_map(es).contains_key(k),
    decreases es.len(),
{
    if es.len() > 0 {
        lemma_entries_map_absent(es.drop_last(), k);
    }
}

impl ScanCache {
    /// A fresh, empty cache.
    pub fn new() -> (r: Self)
        ensures
            r@ == Map::<Seq<char>, ScanResponseView>::empty(),
    {
        ScanCache { entries: Vec::new() }
    }

    /// Looks up the response stored for `key`, if any.
    pub fn get(&self, key: &String) -> (r: Option<&ScanResponse>)
        ensures
            match r {
                Option::Some(resp) => self@.contains_key(key@) && resp@ == self@[key@],
                Option::None => !self@.contains_key(key@),
            },
    {
        let n = self.entries.len();
        let mut i: usize = n;
        while i > 0
            invariant
                n == self.entries@.len(),
                i <= n,
                forall|j: int| i <= j < n ==> self.entries@[j].key@ != key@,
            decreases i,
        {
            i -= 1;
            if self.entries[i].key == *key {
                proof {
                    lemma_entries_map_found(self.entries@, i as int);
                }
                return Some(&self.entries[i].response);
            }
        }
        proof {
            lemma_entries_map_absent(self.entries@, key@);
        }
        None
    }

    /// Stores `response` under `key`; a later store for the same key wins.
    pub fn put(&mut self, key: String, response: ScanResponse)
        ensures
            final(self)@ == old(self)@.insert(key@, response@),
    {
        let ghost before = self.entries@;
        let ghost key_view = key@;
        let ghost response_view = response@;
        self.entries.push(CacheEntry { key, response });
        proof {
            assert(self.entries@.drop_last() =~= before);
            assert(self.entries@.last().key@ == key_view);
            assert(self.entries@.last().response@ == response_view);
        }
    }
}

} // verus!
