//! One indexed directory of a database.

use crate::cursor::Cursor;
use crate::filenames::Filenames;
use crate::ledger::{admits, attached, releasable, released, teardown, Destroy, Ledger};
use crate::token::{Kind, Mode, Token};
use vstd::prelude::*;

verus! {

/// A handle on a directory of the engine.
#[derive(Debug)]
pub struct Directory {
    pub ptr: usize,
    pub slot: usize,
}

impl Directory {
    /// Whether the ledger has this directory, alive, where the handle says.
    pub open spec fn bound(&self, ledger: &Ledger) -> bool {
        ledger.has(self.slot, Kind::Directory, self.ptr)
    }

    /// Whether the ledger has this directory, alive, where the handle says.
    pub fn is_bound(&self, ledger: &Ledger) -> (b: bool)
        ensures
            b == self.bound(ledger),
    {
        ledger.contains(self.slot, Kind::Directory, self.ptr)
    }

    /// Takes charge of the directory that the engine made at `ptr`, held to
    /// its database by `owner`.
    pub fn new(ledger: &mut Ledger, ptr: usize, owner: Token) -> (dir: Directory)
        requires
            old(ledger).wf(),
            admits(old(ledger)@, owner, Kind::Directory),
        ensures
            final(ledger).wf(),
            dir == (Directory { ptr, slot: old(ledger)@.len() as usize }),
            dir.bound(final(ledger)),
            final(ledger)@ == attached(old(ledger)@, ptr, Kind::Directory, owner),
    {
        let slot = ledger.attach(ptr, Kind::Directory, owner);
        Directory { ptr, slot }
    }

    /// Takes charge of the list at `ptr` that the engine made of the
    /// directories directly below this one. The list has this directory on
    /// loan. A list at the null handle yields nothing.
    pub fn child_directories(&self, ledger: &mut Ledger, ptr: usize) -> (names: Filenames)
        requires
            old(ledger).wf(),
            self.bound(old(ledger)),
        ensures
            final(ledger).wf(),
            self.bound(final(ledger)),
            names == (Filenames {
                ptr,
                slot: old(ledger)@.len() as usize,
                cursor: Cursor::starting(ptr),
            }),
            names.bound(final(ledger)),
            final(ledger)@ == attached(
                old(ledger)@,
                ptr,
                Kind::Filenames,
                Token { mode: Mode::Borrowed, owner: self.slot },
            ),
    {
        Filenames::from_ptr(ledger, ptr, Token::borrowed(self.slot))
    }

    /// Lets go of the directory. Returns the calls that are due to the
    /// engine.
    pub fn release(self, ledger: &mut Ledger) -> (calls: Vec<Destroy>)
        requires
            old(ledger).wf(),
            self.bound(old(ledger)),
            releasable(old(ledger)@, self.slot as int),
        ensures
            final(ledger).wf(),
            calls@ == teardown(old(ledger)@, self.slot as int),
            released(old(ledger)@, self.slot as int, final(ledger)@),
    {
        ledger.release(self.slot)
    }
}

} // verus!
