//! A rolling last-seen snapshot, owned by one consumer.
use vstd::prelude::*;
use crate::diff::{extract_new_lines, new_content};

verus! {

/// The last snapshot a consumer has fully processed. Empty text stands for
/// "nothing seen yet", on which every snapshot is new in full.
pub struct SyncBuffer {
    last_seen: String,
}

impl View for SyncBuffer {
    type V = Seq<char>;

    closed spec fn view(&self) -> Seq<char> {
        self.last_seen@
    }
}

impl SyncBuffer {
    /// A buffer that has seen nothing yet.
    pub fn new() -> (r: SyncBuffer)
        ensures
            r@ == Seq::<char>::empty(),
    {
        SyncBuffer { last_seen: String::new() }
    }

    /// The snapshot last processed.
    pub fn last_seen(&self) -> (r: &str)
        ensures
            r@ == self@,
    {
        self.last_seen.as_str()
    }

    /// What of `snapshot` is new against this buffer; the buffer stays as it is.
    pub fn delta(&self, snapshot: &str) -> (r: String)
        ensures
            r@ == new_content(self@, snapshot@),
    {
        extract_new_lines(self.last_seen.as_str(), snapshot)
    }

    /// Records `snapshot` as processed.
    pub fn advance(&mut self, snapshot: &str)
        ensures
            final(self)@ == snapshot@,
    {
        self.last_seen = snapshot.to_owned();
    }

    /// Returns what of `snapshot` is new and records `snapshot` as processed.
    pub fn sync(&mut self, snapshot: &str) -> (r: String)
        ensures
            r@ == new_content(old(self)@, snapshot@),
            final(self)@ == snapshot@,
    {
        let r = self.delta(snapshot);
        self.advance(snapshot);
        r
    }
}

} // verus!
