//! The threads that a search found, read once from front to back.

use crate::cursor::Cursor;
use crate::ledger::{
    admits, attached, attached_through, releasable, released, teardown, Destroy, Ledger,
};
use crate::slot::slot_ok;
use crate::thread::Thread;
use crate::token::{Kind, Token};
use vstd::prelude::*;

verus! {

/// A handle on a list of threads of the engine, with the state of its cursor.
#[derive(Debug)]
pub struct Threads {
    pub ptr: usize,
    pub slot: usize,
    pub cursor: Cursor,
}

impl Threads {
    /// Whether the ledger has this list, alive, where the handle says.
    pub open spec fn bound(&self, ledger: &Ledger) -> bool {
        ledger.has(self.slot, Kind::Threads, self.ptr)
    }

    /// Whether the ledger has this list, alive, where the handle says.
    pub fn is_bound(&self, ledger: &Ledger) -> (b: bool)
        ensures
            b == self.bound(ledger),
    {
        ledger.contains(self.slot, Kind::Threads, self.ptr)
    }

    /// Takes charge of the list of threads that the engine made at `ptr`,
    /// held to its owner by `owner`.
    pub fn from_ptr(ledger: &mut Ledger, ptr: usize, owner: Token) -> (threads: Threads)
        requires
            old(ledger).wf(),
            admits(old(ledger)@, owner, Kind::Threads),
        ensures
            final(ledger).wf(),
            threads == (Threads {
                ptr,
                slot: old(ledger)@.len() as usize,
                cursor: Cursor::starting(ptr),
            }),
            threads.bound(final(ledger)),
            final(ledger)@ == attached(old(ledger)@, ptr, Kind::Threads, owner),
    {
        let slot = ledger.attach(ptr, Kind::Threads, owner);
        Threads { ptr, slot, cursor: Cursor::start(ptr) }
    }

    /// Takes one step: `valid` is what the engine's validity check reported,
    /// and `current` the thread that it had at its cursor, before it moved
    /// on, if that was not zero. Returns the thread if the step yields one.
    /// The thread holds on to the owner of the list, by the token that the
    /// list passes on.
    pub fn next(&mut self, ledger: &mut Ledger, valid: i32, current: usize) -> (r: Option<
        Thread,
    >)
        requires
            old(ledger).wf(),
            old(self).bound(old(ledger)),
        ensures
            final(ledger).wf(),
            final(self).cursor == old(self).cursor.after(valid),
            final(self).ptr == old(self).ptr,
            final(self).slot == old(self).slot,
            final(self).bound(final(ledger)),
            r == if old(self).cursor.yields(valid) {
                Some(Thread { ptr: current, slot: old(ledger)@.len() as usize })
            } else {
                None
            },
            r matches Some(t) ==> t.bound(final(ledger)),
            final(ledger)@ == if old(self).cursor.yields(valid) {
                attached_through(old(ledger)@, current, Kind::Thread, old(self).slot as int)
            } else {
                old(ledger)@
            },
    {
        if !self.cursor.advance(valid) {
            return None;
        }
        proof {
            assert(slot_ok(ledger@, self.slot as int));
        }
        let slot = ledger.attach_through(current, Kind::Thread, self.slot);
        Some(Thread { ptr: current, slot })
    }

    /// Lets go of the list. Returns the calls that are due to the engine.
    pub fn release(self, ledger: &mut Ledger) -> (calls: Vec<Destroy>)
        requires
            old(ledger).wf(),
            self.bound(old(ledger)),
            releasable(old(ledger)@, self.slot as int),
        ensures
            final(ledger).wf(),
            calls@ == teardown(old(ledger)@, self.slot as int),
            released(old(ledger)@, self.slot as int, final(ledger)@),
    {
        ledger.release(self.slot)
    }
}

} // verus!
