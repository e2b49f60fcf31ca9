//! The stored record: a text payload together with the logical write time
//! and the identity of the writer, both captured by the service at write
//! time and never supplied by the caller.

use vstd::prelude::*;

verus! {

/// Mathematical view of a record: the payload, the logical write time and
/// the writer's identity, over sequences of characters.
pub struct RecordView {
    pub text: Seq<char>,
    pub timestamp: u64,
    pub creator: Seq<char>,
}

/// A stored record. `timestamp` and `creator` are set by the service at
/// write time from the call context; `text` is the caller's payload.
pub struct Prophecy {
    pub text: String,
    pub timestamp: u64,
    pub creator: String,
}

impl View for Prophecy {
    type V = RecordView;

    open spec fn view(&self) -> RecordView {
        RecordView { text: self.text@, timestamp: self.timestamp, creator: self.creator@ }
    }
}

/// The view of a record built from the given payload, write time and writer.
pub open spec fn record_view(text: Seq<char>, timestamp: u64, creator: Seq<char>) -> RecordView {
    RecordView { text, timestamp, creator }
}

/// The view of an optional record, absence mapped to absence.
pub open spec fn opt_record_view(r: Option<Prophecy>) -> Option<RecordView> {
    match r {
        Option::None => Option::None,
        Option::Some(p) => Option::Some(p@),
    }
}

impl Prophecy {
    /// An owned copy of the record, equal to the original.
    pub fn duplicate(&self) -> (r: Prophecy)
        ensures
            r == *self,
    {
        Prophecy { text: self.text.clone(), timestamp: self.timestamp, creator: self.creator.clone() }
    }
}

} // verus!
