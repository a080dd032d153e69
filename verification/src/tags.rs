//! A set of tags, read once from front to back.

use crate::cursor::Cursor;
use crate::ledger::{admits, attached, releasable, released, teardown, Destroy, Ledger};
use crate::token::{Kind, Token};
use vstd::prelude::*;

verus! {

/// A handle on a set of tags of the engine, with the state of its cursor.
#[derive(Debug)]
pub struct Tags {
    pub ptr: usize,
    pub slot: usize,
    pub cursor: Cursor,
}

impl Tags {
    /// Whether the ledger has this set of tags, alive, where the handle says.
    pub open spec fn bound(&self, ledger: &Ledger) -> bool {
        ledger.has(self.slot, Kind::Tags, self.ptr)
    }

    /// Whether the ledger has this set of tags, alive, where the handle says.
    pub fn is_bound(&self, ledger: &Ledger) -> (b: bool)
        ensures
            b == self.bound(ledger),
    {
        ledger.contains(self.slot, Kind::Tags, self.ptr)
    }

    /// Takes charge of the set of tags that the engine made at `ptr`, held to
    /// its owner by `owner`.
    pub fn from_ptr(ledger: &mut Ledger, ptr: usize, owner: Token) -> (tags: Tags)
        requires
            old(ledger).wf(),
            admits(old(ledger)@, owner, Kind::Tags),
        ensures
            final(ledger).wf(),
            tags == (Tags {
                ptr,
                slot: old(ledger)@.len() as usize,
                cursor: Cursor::starting(ptr),
            }),
            tags.bound(final(ledger)),
            final(ledger)@ == attached(old(ledger)@, ptr, Kind::Tags, owner),
    {
        let slot = ledger.attach(ptr, Kind::Tags, owner);
        Tags { ptr, slot, cursor: Cursor::start(ptr) }
    }

    /// Takes one step: `valid` is what the engine's validity check reported,
    /// and `tag` what it has at its cursor if that was not zero. Returns the
    /// tag if the step yields one.
    pub fn next(&mut self, ledger: &Ledger, valid: i32, tag: String) -> (r: Option<String>)
        requires
            old(self).bound(ledger),
        ensures
            r == if old(self).cursor.yields(valid) {
                Some(tag)
            } else {
                None
            },
            final(self).cursor == old(self).cursor.after(valid),
            final(self).ptr == old(self).ptr,
            final(self).slot == old(self).slot,
    {
        self.cursor.take(valid, tag)
    }

    /// Lets go of the set of tags. Returns the calls that are due to the
    /// engine.
    pub fn release(self, ledger: &mut Ledger) -> (calls: Vec<Destroy>)
        requires
            old(ledger).wf(),
            self.bound(old(ledger)),
            releasable(old(ledger)@, self.slot as int),
        ensures
            final(ledger).wf(),
            calls@ == teardown(old(ledger)@, self.slot as int),
            released(old(ledger)@, self.slot as int, final(ledger)@),
    {
        ledger.release(self.slot)
    }
}

} // verus!
