//! One message of a search result.

use crate::ledger::{releasable, released, teardown, Destroy, Ledger};
use crate::token::Kind;
use vstd::prelude::*;

verus! {

/// A handle on one message.
#[derive(Debug)]
pub struct Message {
    pub ptr: usize,
    pub slot: usize,
}

impl Message {
    /// Whether the ledger has this message, alive, where the handle says.
    pub open spec fn bound(&self, ledger: &Ledger) -> bool {
        ledger.has(self.slot, Kind::Message, self.ptr)
    }

    /// Whether the ledger has this message, alive, where the handle says.
    pub fn is_bound(&self, ledger: &Ledger) -> (b: bool)
        ensures
            b == self.bound(ledger),
    {
        ledger.contains(self.slot, Kind::Message, self.ptr)
    }

    /// Lets go of the message. Returns the calls that are due to the engine.
    pub fn release(self, ledger: &mut Ledger) -> (calls: Vec<Destroy>)
        requires
            old(ledger).wf(),
            self.bound(old(ledger)),
            releasable(old(ledger)@, self.slot as int),
        ensures
            final(ledger).wf(),
            calls@ == teardown(old(ledger)@, self.slot as int),
            released(old(ledger)@, self.slot as int, final(ledger)@),
    {
        ledger.release(self.slot)
    }
}

} // verus!
