//! A list of paths, read once from front to back.

use crate::cursor::Cursor;
use crate::ledger::{admits, attached, releasable, released, teardown, Destroy, Ledger};
use crate::token::{Kind, Token};
use vstd::prelude::*;

verus! {

/// A handle on a list of paths of the engine, with the state of its cursor.
#[derive(Debug)]
pub struct Filenames {
    pub ptr: usize,
    pub slot: usize,
    pub cursor: Cursor,
}

impl Filenames {
    /// Whether the ledger has this list, alive, where the handle says.
    pub open spec fn bound(&self, ledger: &Ledger) -> bool {
        ledger.has(self.slot, Kind::Filenames, self.ptr)
    }

    /// Whether the ledger has this list, alive, where the handle says.
    pub fn is_bound(&self, ledger: &Ledger) -> (b: bool)
        ensures
            b == self.bound(ledger),
    {
        ledger.contains(self.slot, Kind::Filenames, self.ptr)
    }

    /// Takes charge of the list that the engine made at `ptr`, held to its
    /// owner by `owner`. The engine gives the null handle for a list without
    /// entries.
    pub fn from_ptr(ledger: &mut Ledger, ptr: usize, owner: Token) -> (names: Filenames)
        requires
            old(ledger).wf(),
            admits(old(ledger)@, owner, Kind::Filenames),
        ensures
            final(ledger).wf(),
            names == (Filenames {
                ptr,
                slot: old(ledger)@.len() as usize,
                cursor: Cursor::starting(ptr),
            }),
            names.bound(final(ledger)),
            final(ledger)@ == attached(old(ledger)@, ptr, Kind::Filenames, owner),
    {
        let slot = ledger.attach(ptr, Kind::Filenames, owner);
        Filenames { ptr, slot, cursor: Cursor::start(ptr) }
    }

    /// Takes one step: `valid` is what the engine's validity check reported,
    /// and `path` what it has at its cursor if that was not zero. Returns the
    /// path if the step yields one.
    pub fn next(&mut self, ledger: &Ledger, valid: i32, path: String) -> (r: Option<String>)
        requires
            old(self).bound(ledger),
        ensures
            r == if old(self).cursor.yields(valid) {
                Some(path)
            } else {
                None
            },
            final(self).cursor == old(self).cursor.after(valid),
            final(self).ptr == old(self).ptr,
            final(self).slot == old(self).slot,
    {
        self.cursor.take(valid, path)
    }

    /// Lets go of the list. Returns the calls that are due to the engine.
    pub fn release(self, ledger: &mut Ledger) -> (calls: Vec<Destroy>)
        requires
            old(ledger).wf(),
            self.bound(old(ledger)),
            releasable(old(ledger)@, self.slot as int),
        ensures
            final(ledger).wf(),
            calls@ == teardown(old(ledger)@, self.slot as int),
            released(old(ledger)@, self.slot as int, final(ledger)@),
    {
        ledger.release(self.slot)
    }
}

} // verus!
