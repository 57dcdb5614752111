//! Bounded log of operator-facing diagnostic messages.
//!
//! A FIFO buffer of at most [`DIAG_CAP`] human-readable strings: appending
//! to a full log evicts the oldest message, so the log never exceeds its
//! capacity and always shows the most recent messages.

use vstd::prelude::*;

use crate::ring::push_bounded;
use crate::ring::spec_push_evict;

verus! {

/// Fixed capacity of the diagnostics log, in messages.
pub const DIAG_CAP: usize = 16;

/// The bounded FIFO of diagnostic messages, oldest first.
pub struct DiagnosticsLog {
    entries: Vec<String>,
}

impl DiagnosticsLog {
    /// The retained messages, oldest first, as character sequences.
    pub closed spec fn spec_entries(self) -> Seq<Seq<char>> {
        self.entries.deep_view()
    }

    /// The log never holds more than [`DIAG_CAP`] messages.
    pub open spec fn wf(self) -> bool {
        self.spec_entries().len() <= DIAG_CAP
    }

    /// An empty log.
    pub fn new() -> (r: DiagnosticsLog)
        ensures
            r.wf(),
            r.spec_entries() == Seq::<Seq<char>>::empty(),
    {
        let r = DiagnosticsLog { entries: Vec::new() };
        proof {
            assert(r.spec_entries() =~= Seq::<Seq<char>>::empty());
        }
        r
    }

    /// Appends one message; when the log already holds [`DIAG_CAP`]
    /// messages, the oldest one is evicted.
    pub fn push(&mut self, msg: String)
        requires
            old(self).wf(),
        ensures
            final(self).wf(),
            final(self).spec_entries()
                == spec_push_evict(old(self).spec_entries(), msg@, DIAG_CAP as int),
    {
        let ghost pre = self.entries.deep_view();
        push_bounded(&mut self.entries, msg, DIAG_CAP);
        proof {
            if pre.len() < DIAG_CAP {
                assert(self.spec_entries() =~= pre.push(msg@));
            } else {
                assert(self.spec_entries() =~= pre.skip(pre.len() - DIAG_CAP + 1).push(msg@));
            }
        }
    }

    /// How many messages the log currently holds.
    pub fn len(&self) -> (n: usize)
        ensures
            n == self.spec_entries().len(),
    {
        self.entries.len()
    }

    /// Borrows the retained messages, oldest first.
    pub fn messages(&self) -> (r: &Vec<String>)
        ensures
            r.deep_view() == self.spec_entries(),
    {
        &self.entries
    }
}

} // verus!
