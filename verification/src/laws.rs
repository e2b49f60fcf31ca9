//! Laws of the registry, stated over the mathematical model and proved once
//! and for all: what a successful write makes of later reads, how an
//! overwrite relates to the iteration order, and that reads depend on
//! nothing but the state they are given.

use vstd::prelude::*;

use crate::oracle::ProphecyOracle;
use crate::record::RecordView;
use crate::store::{has_key, key_slot, keys_of, page, seq_lookup, unique_keys, upsert};

verus! {

/// Write-then-read: for every store state with unique keys and every
/// `(key, rec)`, after the upsert the lookup of `key` returns exactly
/// `rec`, and the keys stay unique.
pub proof fn lemma_store_then_lookup(
    s: Seq<(Seq<char>, RecordView)>,
    key: Seq<char>,
    rec: RecordView,
)
    requires
        unique_keys(s),
    ensures
        unique_keys(upsert(s, key, rec)),
        seq_lookup(upsert(s, key, rec), key) == Option::Some(rec),
{
    let u = upsert(s, key, rec);
    if has_key(s, key) {
        let i = key_slot(s, key);
        assert(0 <= i < s.len() && s[i].0 == key);
        assert forall|a: int, b: int| 0 <= a < b < u.len() implies u[a].0 != u[b].0 by {
            assert(s[a].0 != s[b].0);
            assert(u[a].0 == s[a].0);
            assert(u[b].0 == s[b].0);
        }
        assert(u[i].0 == key);
        assert(has_key(u, key));
        let j = key_slot(u, key);
        assert(0 <= j < u.len() && u[j].0 == key);
        if j < i {
            assert(u[j].0 != u[i].0);
        }
        if i < j {
            assert(u[i].0 != u[j].0);
        }
        assert(j == i);
        assert(u[i].1 == rec);
    } else {
        let n = s.len() as int;
        assert(u[n].0 == key);
        assert(has_key(u, key));
        assert forall|a: int, b: int| 0 <= a < b < u.len() implies u[a].0 != u[b].0 by {
            if b < n {
                assert(s[a].0 != s[b].0);
            } else {
                if s[a].0 == key {
                    assert(has_key(s, key));
                }
            }
        }
        let j = key_slot(u, key);
        assert(0 <= j < u.len() && u[j].0 == key);
        if j < n {
            assert(u[j].0 != u[n].0);
        }
        assert(j == n);
        assert(u[n].1 == rec);
    }
}

/// Overwrite preserves the order slot: upserting a key that is already
/// stored leaves the sequence of keys — and with it every key's position
/// in iteration order — exactly as it was.
pub proof fn lemma_overwrite_keeps_order(
    s: Seq<(Seq<char>, RecordView)>,
    key: Seq<char>,
    rec: RecordView,
)
    requires
        unique_keys(s),
        has_key(s, key),
    ensures
        keys_of(upsert(s, key, rec)) == keys_of(s),
{
    let i = key_slot(s, key);
    assert(0 <= i < s.len() && s[i].0 == key);
    let u = upsert(s, key, rec);
    assert forall|k: int| 0 <= k < u.len() implies keys_of(u)[k] == keys_of(s)[k] by {
        assert(u[k].0 == s[k].0);
    }
    assert(keys_of(u) =~= keys_of(s));
}

/// A key stored for the first time is appended at the end of the
/// iteration order, after every key stored before it.
pub proof fn lemma_fresh_key_appends(
    s: Seq<(Seq<char>, RecordView)>,
    key: Seq<char>,
    rec: RecordView,
)
    requires
        !has_key(s, key),
    ensures
        keys_of(upsert(s, key, rec)) == keys_of(s).push(key),
{
    assert(keys_of(upsert(s, key, rec)) =~= keys_of(s).push(key));
}

/// An upsert changes no other key: for every `other != key`, the lookup of
/// `other` after the upsert equals the lookup before it.
pub proof fn lemma_upsert_preserves_other_keys(
    s: Seq<(Seq<char>, RecordView)>,
    key: Seq<char>,
    rec: RecordView,
    other: Seq<char>,
)
    requires
        unique_keys(s),
        other != key,
    ensures
        seq_lookup(upsert(s, key, rec), other) == seq_lookup(s, other),
{
    let u = upsert(s, key, rec);
    lemma_store_then_lookup(s, key, rec);
    if has_key(s, other) {
        let j = key_slot(s, other);
        assert(0 <= j < s.len() && s[j].0 == other);
        assert(u[j] == s[j]);
        assert(has_key(u, other));
        let j2 = key_slot(u, other);
        assert(0 <= j2 < u.len() && u[j2].0 == other);
        if j2 < j {
            assert(u[j2].0 != u[j].0);
        }
        if j < j2 {
            assert(u[j].0 != u[j2].0);
        }
        assert(j2 == j);
    } else {
        assert forall|k: int| 0 <= k < u.len() implies u[k].0 != other by {
            if k < s.len() {
                if s[k].0 == other {
                    assert(has_key(s, other));
                }
                assert(u[k].0 == s[k].0);
            } else {
                assert(u[k].0 == key);
            }
        }
        assert(!has_key(u, other));
    }
}

/// Idempotent point read: two results of looking up the same key in the
/// same service state — each constrained only by the contract of
/// `get_prophecy` — are identical.
pub proof fn lemma_get_idempotent(
    o: ProphecyOracle,
    key: Seq<char>,
    r1: Option<RecordView>,
    r2: Option<RecordView>,
)
    requires
        r1 == seq_lookup(o.entries(), key),
        r2 == seq_lookup(o.entries(), key),
    ensures
        r1 == r2,
{
}

/// Idempotent listing: two results of listing with the same limit in the
/// same service state — each constrained only by the contract of
/// `get_latest_prophecies` — are identical.
pub proof fn lemma_list_idempotent(
    o: ProphecyOracle,
    limit: int,
    l1: Seq<(Seq<char>, RecordView)>,
    l2: Seq<(Seq<char>, RecordView)>,
)
    requires
        l1 == page(o.entries(), limit),
        l2 == page(o.entries(), limit),
    ensures
        l1 == l2,
{
}

} // verus!
