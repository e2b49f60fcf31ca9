//! The record store: an ordered, key-unique mapping from identifier strings
//! to records. Iteration order equals insertion order; an overwrite replaces
//! a key's record but never moves the key's order slot; there is no deletion.
//!
//! The mathematical model of a store is a sequence of `(key, record)` pairs
//! with pairwise-distinct keys, in insertion order. The spec functions below
//! (`seq_lookup`, `upsert`, `page`, ...) define every operation over that
//! model, and the methods of [`RecordStore`] are proved against them.

use vstd::prelude::*;
use vstd::pervasive::VecAdditionalExecFns;

use crate::record::{opt_record_view, Prophecy, RecordView};

verus! {

/// Whether some entry of `s` carries `key`.
pub open spec fn has_key(s: Seq<(Seq<char>, RecordView)>, key: Seq<char>) -> bool {
    exists|i: int| 0 <= i < s.len() && s[i].0 == key
}

/// An index of `s` whose entry carries `key` (the unique one when the keys
/// of `s` are distinct); meaningful only when `has_key(s, key)`.
pub open spec fn key_slot(s: Seq<(Seq<char>, RecordView)>, key: Seq<char>) -> int {
    choose|i: int| 0 <= i < s.len() && s[i].0 == key
}

/// The record stored under `key`, or `None` when the key was never stored.
/// Absence is a normal outcome, not a failure.
pub open spec fn seq_lookup(s: Seq<(Seq<char>, RecordView)>, key: Seq<char>) -> Option<
    RecordView,
> {
    if has_key(s, key) {
        Option::Some(s[key_slot(s, key)].1)
    } else {
        Option::None
    }
}

/// Insertion or overwrite of `rec` under `key`: an existing key keeps its
/// order slot and only its record changes; a fresh key is appended at the
/// end of the order.
pub open spec fn upsert(
    s: Seq<(Seq<char>, RecordView)>,
    key: Seq<char>,
    rec: RecordView,
) -> Seq<(Seq<char>, RecordView)> {
    if has_key(s, key) {
        s.update(key_slot(s, key), (key, rec))
    } else {
        s.push((key, rec))
    }
}

/// The keys of `s`, in order.
pub open spec fn keys_of(s: Seq<(Seq<char>, RecordView)>) -> Seq<Seq<char>> {
    Seq::new(s.len(), |i: int| s[i].0)
}

/// Whether the keys of `s` are pairwise distinct.
pub open spec fn unique_keys(s: Seq<(Seq<char>, RecordView)>) -> bool {
    forall|i: int, j: int| 0 <= i < j < s.len() ==> s[i].0 != s[j].0
}

/// The first `limit` entries of `s`, in order: all of `s` when `limit`
/// exceeds its length, empty when `limit` is zero.
pub open spec fn page(s: Seq<(Seq<char>, RecordView)>, limit: int) -> Seq<
    (Seq<char>, RecordView),
> {
    if limit < 0 {
        Seq::empty()
    } else if limit <= s.len() {
        s.take(limit)
    } else {
        s
    }
}

/// The view of a sequence of owned `(identifier, record)` pairs.
pub open spec fn pairs_view(s: Seq<(String, Prophecy)>) -> Seq<(Seq<char>, RecordView)> {
    Seq::new(s.len(), |i: int| (s[i].0@, s[i].1@))
}

/// An ordered, key-unique persistent mapping from identifiers to records,
/// held as a vector of pairs in insertion order.
pub struct RecordStore {
    pub records: Vec<(String, Prophecy)>,
}

impl RecordStore {
    /// The model of the store: its entries in insertion order.
    pub open spec fn entries(self) -> Seq<(Seq<char>, RecordView)> {
        pairs_view(self.records@)
    }

    /// Well-formedness: keys are unique. Constructors establish it and
    /// every method preserves it.
    pub open spec fn wf(self) -> bool {
        unique_keys(self.entries())
    }

    /// An empty store.
    pub fn new() -> (r: RecordStore)
        ensures
            r.wf(),
            r.entries().len() == 0,
    {
        RecordStore { records: Vec::new() }
    }

    /// Inserts or overwrites. No error condition: any key and any record
    /// are accepted. If the key existed, its record is replaced in place
    /// and its position in iteration order is unchanged; otherwise the key
    /// is appended at the end of the order.
    pub fn put(&mut self, key: String, value: Prophecy)
        requires
            old(self).wf(),
        ensures
            final(self).wf(),
            final(self).entries() == upsert(old(self).entries(), key@, value@),
    {
        let ghost s0 = self.entries();
        let mut i: usize = 0;
        while i < self.records.len()
            invariant
                i <= self.records.len(),
                self.entries() == s0,
                s0 == old(self).entries(),
                unique_keys(s0),
                forall|j: int| 0 <= j < i ==> s0[j].0 != key@,
            decreases self.records.len() - i,
        {
            if self.records[i].0 == key {
                proof {
                    assert(s0[i as int].0 == key@);
                    assert(has_key(s0, key@));
                    let j = key_slot(s0, key@);
                    assert(0 <= j < s0.len() && s0[j].0 == key@);
                    if j != i as int {
                        assert(s0[j].0 != s0[i as int].0);
                    }
                    assert(j == i as int);
                }
                self.records.set(i, (key, value));
                proof {
                    let s1 = self.entries();
                    assert(s1 =~= upsert(s0, key@, value@));
                    assert forall|a: int, b: int| 0 <= a < b < s1.len() implies s1[a].0
                        != s1[b].0 by {
                        assert(s0[a].0 != s0[b].0);
                    }
                }
                return;
            }
            i += 1;
        }
        self.records.push((key, value));
        proof {
            assert(!has_key(s0, key@));
            let s1 = self.entries();
            assert(s1 =~= s0.push((key@, value@)));
            assert forall|a: int, b: int| 0 <= a < b < s1.len() implies s1[a].0 != s1[b].0 by {
                if b < s0.len() {
                    assert(s0[a].0 != s0[b].0);
                } else {
                    assert(s0[a].0 != key@);
                }
            }
        }
    }

    /// Point lookup: the record stored under `key`, or `None` when the key
    /// is absent. Absence is a normal empty result, not an error.
    pub fn get(&self, key: &String) -> (r: Option<Prophecy>)
        requires
            self.wf(),
        ensures
            opt_record_view(r) == seq_lookup(self.entries(), key@),
            r is None <==> !has_key(self.entries(), key@),
    {
        let ghost s0 = self.entries();
        let mut i: usize = 0;
        while i < self.records.len()
            invariant
                i <= self.records.len(),
                self.entries() == s0,
                unique_keys(s0),
                forall|j: int| 0 <= j < i ==> s0[j].0 != key@,
            decreases self.records.len() - i,
        {
            if self.records[i].0 == *key {
                let found = self.records[i].1.duplicate();
                proof {
                    assert(s0[i as int].0 == key@);
                    assert(has_key(s0, key@));
                    let j = key_slot(s0, key@);
                    assert(0 <= j < s0.len() && s0[j].0 == key@);
                    if j != i as int {
                        assert(s0[j].0 != s0[i as int].0);
                    }
                    assert(j == i as int);
                }
                return Option::Some(found);
            }
            i += 1;
        }
        proof {
            assert(!has_key(s0, key@));
        }
        Option::None
    }

    /// The first `limit` entries in insertion order (oldest-inserted key
    /// first). A fresh call always starts from the beginning of the order;
    /// a `limit` beyond the number of entries returns all of them, and a
    /// `limit` of zero returns an empty sequence.
    pub fn iterate_ordered(&self, limit: u64) -> (r: Vec<(String, Prophecy)>)
        ensures
            pairs_view(r@) == page(self.entries(), limit as int),
    {
        let n: usize = if limit >= self.records.len() as u64 {
            self.records.len()
        } else {
            limit as usize
        };
        let mut out: Vec<(String, Prophecy)> = Vec::new();
        let mut i: usize = 0;
        while i < n
            invariant
                n <= self.records.len(),
                i <= n,
                out@.len() == i,
                forall|j: int| 0 <= j < i ==> (#[trigger] out@[j].0@, out@[j].1@)
                    == self.entries()[j],
            decreases n - i,
        {
            let pair = (self.records[i].0.clone(), self.records[i].1.duplicate());
            out.push(pair);
            i += 1;
        }
        proof {
            assert(pairs_view(out@) =~= page(self.entries(), limit as int));
        }
        out
    }
}

} // verus!
