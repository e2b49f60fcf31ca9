//! The oracle service: enforces that only the designated owner may write,
//! stamps each write with the call's logical time and the writer's identity,
//! and exposes bounded, insertion-ordered reads over the record store.
//!
//! Caller identity and logical time come from the execution environment, not
//! from user input; they are passed in explicitly as a [`CallContext`] so
//! that the core stays independent of any ambient host state.

use vstd::prelude::*;

use crate::record::{opt_record_view, record_view, Prophecy, RecordView};
use crate::store::{has_key, page, pairs_view, seq_lookup, upsert, RecordStore};

verus! {

/// The only business-logic failure: a write attempted by a caller other
/// than the configured owner. The failing call changes no state.
#[derive(Clone, Copy, Debug, PartialEq, Eq, Structural)]
pub enum OracleError {
    Unauthorized,
}

/// Trusted per-call context supplied by the execution environment: the
/// caller's identity (opaque and unforgeable) and the current logical time
/// (nanosecond-resolution, non-decreasing across calls).
pub struct CallContext {
    pub caller: String,
    pub timestamp: u64,
}

/// The oracle service: a record store together with the single identity
/// that is permitted to write, fixed at construction for the lifetime of
/// the service.
pub struct ProphecyOracle {
    pub store: RecordStore,
    pub owner_id: String,
}

impl ProphecyOracle {
    /// The identity permitted to write.
    pub open spec fn owner(self) -> Seq<char> {
        self.owner_id@
    }

    /// The model of the service's state: its entries in insertion order.
    pub open spec fn entries(self) -> Seq<(Seq<char>, RecordView)> {
        self.store.entries()
    }

    /// Well-formedness of the underlying store: keys are unique.
    pub open spec fn wf(self) -> bool {
        self.store.wf()
    }

    /// Constructs the service with its permanent owner and an empty store.
    /// The owner is immutable thereafter; re-construction of a live
    /// instance is ruled out by the host environment, not here.
    pub fn new(owner_id: String) -> (r: ProphecyOracle)
        ensures
            r.wf(),
            r.owner() == owner_id@,
            r.entries().len() == 0,
    {
        ProphecyOracle { store: RecordStore::new(), owner_id }
    }

    /// Stores `text` under `prophecy_id`, stamped with the context's time
    /// and caller. Fails with `Unauthorized` — leaving the state untouched —
    /// exactly when the caller is not the owner; the check is exact identity
    /// equality. On success the store is upserted: an existing key keeps its
    /// order slot, a fresh key is appended.
    pub fn store_prophecy(
        &mut self,
        ctx: CallContext,
        prophecy_id: String,
        text: String,
    ) -> (r: Result<(), OracleError>)
        requires
            old(self).wf(),
        ensures
            final(self).wf(),
            final(self).owner() == old(self).owner(),
            ctx.caller@ == old(self).owner() ==> r == Ok::<(), OracleError>(())
                && final(self).entries() == upsert(
                old(self).entries(),
                prophecy_id@,
                record_view(text@, ctx.timestamp, ctx.caller@),
            ),
            ctx.caller@ != old(self).owner() ==> r == Err::<(), OracleError>(
                OracleError::Unauthorized,
            ) && *final(self) == *old(self),
    {
        if ctx.caller != self.owner_id {
            return Err(OracleError::Unauthorized);
        }
        let record = Prophecy { text, timestamp: ctx.timestamp, creator: ctx.caller };
        self.store.put(prophecy_id, record);
        Ok(())
    }

    /// The record stored under `prophecy_id`, or `None` when the key was
    /// never stored. No authorization check; absence is not an error.
    pub fn get_prophecy(&self, prophecy_id: String) -> (r: Option<Prophecy>)
        requires
            self.wf(),
        ensures
            opt_record_view(r) == seq_lookup(self.entries(), prophecy_id@),
            r is None <==> !has_key(self.entries(), prophecy_id@),
    {
        self.store.get(&prophecy_id)
    }

    /// The first `limit` stored entries in insertion order (not sorted by
    /// timestamp). No authorization check. A `limit` beyond the number of
    /// entries returns all of them; a `limit` of zero returns none.
    pub fn get_latest_prophecies(&self, limit: u64) -> (r: Vec<(String, Prophecy)>)
        ensures
            pairs_view(r@) == page(self.entries(), limit as int),
            r@.len() == if limit as int <= self.entries().len() {
                limit as int
            } else {
                self.entries().len() as int
            },
    {
        let out = self.store.iterate_ordered(limit);
        proof {
            assert(pairs_view(out@).len() == out@.len());
        }
        out
    }
}

} // verus!
