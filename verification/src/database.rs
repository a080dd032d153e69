//! The database: the resource from which all others are made.

use crate::error::Error;
use crate::ledger::{fresh, releasable, released, teardown, Destroy, Ledger};
use crate::token::Kind;
use vstd::prelude::*;

verus! {

/// A handle on an open database of the engine.
#[derive(Debug)]
pub struct Database {
    pub ptr: usize,
    pub slot: usize,
}

impl Database {
    /// Whether the ledger has this database, alive, where the handle says.
    pub open spec fn bound(&self, ledger: &Ledger) -> bool {
        ledger.has(self.slot, Kind::Database, self.ptr)
    }

    /// Whether the ledger has this database, alive, where the handle says.
    pub fn is_bound(&self, ledger: &Ledger) -> (b: bool)
        ensures
            b == self.bound(ledger),
    {
        ledger.contains(self.slot, Kind::Database, self.ptr)
    }

    /// Takes charge of the database that the engine opened at `ptr`. The null
    /// handle means that the engine could not open it.
    pub fn open(ledger: &mut Ledger, ptr: usize) -> (r: Result<Database, Error>)
        requires
            old(ledger).wf(),
        ensures
            final(ledger).wf(),
            r == if ptr == 0 {
                Err::<Database, Error>(Error::CreationFailed)
            } else {
                Ok(Database { ptr, slot: old(ledger)@.len() as usize })
            },
            final(ledger)@ == if ptr == 0 {
                old(ledger)@
            } else {
                old(ledger)@.push(fresh(ptr, Kind::Database, None))
            },
    {
        if ptr == 0 {
            return Err(Error::CreationFailed);
        }
        let slot = ledger.open(ptr);
        Ok(Database { ptr, slot })
    }

    /// Lets go of the database. Returns the calls that are due to the engine.
    pub fn release(self, ledger: &mut Ledger) -> (calls: Vec<Destroy>)
        requires
            old(ledger).wf(),
            self.bound(old(ledger)),
            releasable(old(ledger)@, self.slot as int),
        ensures
            final(ledger).wf(),
            calls@ == teardown(old(ledger)@, self.slot as int),
            released(old(ledger)@, self.slot as int, final(ledger)@),
    {
        ledger.release(self.slot)
    }
}

} // verus!
