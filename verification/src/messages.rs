//! The messages that a search found, read once from front to back.

use crate::cursor::Cursor;
use crate::ledger::{
    admits, attached, attached_through, releasable, released, teardown, Destroy, Ledger,
};
use crate::slot::slot_ok;
use crate::message::Message;
use crate::tags::Tags;
use crate::token::{Kind, Mode, Token};
use vstd::prelude::*;

verus! {

/// The address of a list of messages of the engine.
#[derive(Debug)]
pub struct MessagesPtr {
    pub ptr: usize,
}

/// A handle on a list of messages of the engine, with the state of its cursor.
#[derive(Debug)]
pub struct Messages {
    pub handle: MessagesPtr,
    pub slot: usize,
    pub cursor: Cursor,
}

/// What is offered on every list of messages.
pub trait MessagesExt {

}

impl MessagesExt for Messages {

}

impl Messages {
    /// Whether the ledger has this list, alive, where the handle says.
    pub open spec fn bound(&self, ledger: &Ledger) -> bool {
        ledger.has(self.slot, Kind::Messages, self.handle.ptr)
    }

    /// Whether the ledger has this list, alive, where the handle says.
    pub fn is_bound(&self, ledger: &Ledger) -> (b: bool)
        ensures
            b == self.bound(ledger),
    {
        ledger.contains(self.slot, Kind::Messages, self.handle.ptr)
    }

    /// Takes charge of the list of messages that the engine made at `ptr`,
    /// held to its owner by `owner`.
    pub fn from_ptr(ledger: &mut Ledger, ptr: usize, owner: Token) -> (msgs: Messages)
        requires
            old(ledger).wf(),
            admits(old(ledger)@, owner, Kind::Messages),
        ensures
            final(ledger).wf(),
            msgs == (Messages {
                handle: MessagesPtr { ptr },
                slot: old(ledger)@.len() as usize,
                cursor: Cursor::starting(ptr),
            }),
            msgs.bound(final(ledger)),
            final(ledger)@ == attached(old(ledger)@, ptr, Kind::Messages, owner),
    {
        let slot = ledger.attach(ptr, Kind::Messages, owner);
        Messages { handle: MessagesPtr { ptr }, slot, cursor: Cursor::start(ptr) }
    }

    /// Takes charge of the set of tags at `ptr` that the engine collected from
    /// the messages that were left. The set has the list on loan, and the
    /// list is used up: it yields nothing from now on.
    pub fn collect_tags(&mut self, ledger: &mut Ledger, ptr: usize) -> (tags: Tags)
        requires
            old(ledger).wf(),
            old(self).bound(old(ledger)),
        ensures
            final(ledger).wf(),
            final(self).cursor is Exhausted,
            final(self).handle == old(self).handle,
            final(self).slot == old(self).slot,
            final(self).bound(final(ledger)),
            tags == (Tags {
                ptr,
                slot: old(ledger)@.len() as usize,
                cursor: Cursor::starting(ptr),
            }),
            tags.bound(final(ledger)),
            final(ledger)@ == attached(
                old(ledger)@,
                ptr,
                Kind::Tags,
                Token { mode: Mode::Borrowed, owner: old(self).slot },
            ),
    {
        self.cursor.exhaust();
        Tags::from_ptr(ledger, ptr, Token::borrowed(self.slot))
    }

    /// Takes one step: `valid` is what the engine's validity check reported,
    /// and `current` the message that it had at its cursor, before it moved
    /// on, if that was not zero. Returns the message if the step yields one.
    /// The message holds on to the owner of the list, by the token that the
    /// list passes on.
    pub fn next(&mut self, ledger: &mut Ledger, valid: i32, current: usize) -> (r: Option<
        Message,
    >)
        requires
            old(ledger).wf(),
            old(self).bound(old(ledger)),
        ensures
            final(ledger).wf(),
            final(self).cursor == old(self).cursor.after(valid),
            final(self).handle == old(self).handle,
            final(self).slot == old(self).slot,
            final(self).bound(final(ledger)),
            r == if old(self).cursor.yields(valid) {
                Some(Message { ptr: current, slot: old(ledger)@.len() as usize })
            } else {
                None
            },
            r matches Some(m) ==> m.bound(final(ledger)),
            final(ledger)@ == if old(self).cursor.yields(valid) {
                attached_through(old(ledger)@, current, Kind::Message, old(self).slot as int)
            } else {
                old(ledger)@
            },
    {
        if !self.cursor.advance(valid) {
            return None;
        }
        proof {
            assert(slot_ok(ledger@, self.slot as int));
        }
        let slot = ledger.attach_through(current, Kind::Message, self.slot);
        Some(Message { ptr: current, slot })
    }

    /// Lets go of the list. Returns the calls that are due to the engine.
    pub fn release(self, ledger: &mut Ledger) -> (calls: Vec<Destroy>)
        requires
            old(ledger).wf(),
            self.bound(old(ledger)),
            releasable(old(ledger)@, self.slot as int),
        ensures
            final(ledger).wf(),
            calls@ == teardown(old(ledger)@, self.slot as int),
            released(old(ledger)@, self.slot as int, final(ledger)@),
    {
        ledger.release(self.slot)
    }
}

} // verus!
