//! A search: a query string and a sort order, bound to a database.

use crate::cursor::Cursor;
use crate::database::Database;
use crate::error::{as_result, Error};
use crate::ledger::{admits, attached, releasable, released, teardown, Destroy, Ledger};
use crate::messages::{Messages, MessagesPtr};
use crate::sort::Sort;
use crate::threads::Threads;
use crate::token::{Kind, Mode, Token};
use vstd::prelude::*;

verus! {

/// A handle on a query of the engine.
#[derive(Debug)]
pub struct Query {
    pub ptr: usize,
    pub slot: usize,
}

/// What a count of the engine comes to: the count where the status is zero,
/// the failure that carries the status otherwise.
pub open spec fn count_outcome(status: u32, count: u32) -> Result<u32, Error> {
    if status == 0 {
        Ok(count)
    } else {
        Err(Error::OperationFailed(status))
    }
}

impl Query {
    /// Whether the ledger has this query, alive, where the handle says.
    pub open spec fn bound(&self, ledger: &Ledger) -> bool {
        ledger.has(self.slot, Kind::Query, self.ptr)
    }

    /// Whether the ledger has this query, alive, where the handle says.
    pub fn is_bound(&self, ledger: &Ledger) -> (b: bool)
        ensures
            b == self.bound(ledger),
    {
        ledger.contains(self.slot, Kind::Query, self.ptr)
    }

    /// Takes charge of the query that the engine made at `ptr`, held to its
    /// database by `owner`.
    pub fn new(ledger: &mut Ledger, ptr: usize, owner: Token) -> (query: Query)
        requires
            old(ledger).wf(),
            admits(old(ledger)@, owner, Kind::Query),
        ensures
            final(ledger).wf(),
            query == (Query { ptr, slot: old(ledger)@.len() as usize }),
            query.bound(final(ledger)),
            final(ledger)@ == attached(old(ledger)@, ptr, Kind::Query, owner),
    {
        let slot = ledger.attach(ptr, Kind::Query, owner);
        Query { ptr, slot }
    }

    /// Takes charge of the query that the engine made for `db` at `ptr`, held
    /// to `db` in the mode that the caller chooses. The null handle means that
    /// the engine could not make the query; the ledger then stays as it was.
    pub fn create(ledger: &mut Ledger, db: &Database, mode: Mode, ptr: usize) -> (r: Result<
        Query,
        Error,
    >)
        requires
            old(ledger).wf(),
            db.bound(old(ledger)),
            admits(old(ledger)@, Token { mode, owner: db.slot }, Kind::Query),
        ensures
            final(ledger).wf(),
            r == if ptr == 0 {
                Err::<Query, Error>(Error::CreationFailed)
            } else {
                Ok(Query { ptr, slot: old(ledger)@.len() as usize })
            },
            r matches Ok(q) ==> q.bound(final(ledger)),
            final(ledger)@ == if ptr == 0 {
                old(ledger)@
            } else {
                attached(old(ledger)@, ptr, Kind::Query, Token { mode, owner: db.slot })
            },
    {
        if ptr == 0 {
            return Err(Error::CreationFailed);
        }
        Ok(Query::new(ledger, ptr, Token { mode, owner: db.slot }))
    }

    /// The number to hand to the engine so that it sorts the results of this
    /// query by `sort`.
    pub fn set_sort(&self, ledger: &Ledger, sort: Sort) -> (code: u32)
        requires
            self.bound(ledger),
        ensures
            code == sort.code_of(),
            Sort::of(code) == sort,
    {
        sort.code()
    }

    /// The order by which the engine sorts the results of this query, given
    /// the number that the engine has for it.
    pub fn sort(&self, ledger: &Ledger, code: u32) -> (sort: Sort)
        requires
            self.bound(ledger),
            Sort::known(code),
        ensures
            sort == Sort::of(code),
            sort.code_of() == code,
    {
        match Sort::from_code(code) {
            Some(s) => s,
            None => Sort::Unsorted,
        }
    }

    /// Takes charge of what a search for messages came to: `status` is what
    /// the engine returned, and `ptr` the list that it made if that was zero.
    /// The list has this query on loan. On a failure the ledger stays as it
    /// was.
    pub fn search_messages(&self, ledger: &mut Ledger, status: u32, ptr: usize) -> (r: Result<
        Messages,
        Error,
    >)
        requires
            old(ledger).wf(),
            self.bound(old(ledger)),
        ensures
            final(ledger).wf(),
            self.bound(final(ledger)),
            r == if status == 0 {
                Ok(
                    Messages {
                        handle: MessagesPtr { ptr },
                        slot: old(ledger)@.len() as usize,
                        cursor: Cursor::starting(ptr),
                    },
                )
            } else {
                Err::<Messages, Error>(Error::OperationFailed(status))
            },
            r matches Ok(m) ==> m.bound(final(ledger)),
            final(ledger)@ == if status == 0 {
                attached(
                    old(ledger)@,
                    ptr,
                    Kind::Messages,
                    Token { mode: Mode::Borrowed, owner: self.slot },
                )
            } else {
                old(ledger)@
            },
    {
        match as_result(status) {
            Err(e) => Err(e),
            Ok(()) => Ok(Messages::from_ptr(ledger, ptr, Token::borrowed(self.slot))),
        }
    }

    /// What a count of the messages came to: `status` is what the engine
    /// returned, and `count` the number that it found if that was zero.
    pub fn count_messages(&self, ledger: &Ledger, status: u32, count: u32) -> (r: Result<
        u32,
        Error,
    >)
        requires
            self.bound(ledger),
        ensures
            r == count_outcome(status, count),
    {
        match as_result(status) {
            Err(e) => Err(e),
            Ok(()) => Ok(count),
        }
    }

    /// Takes charge of what a search for threads came to: `status` is what
    /// the engine returned, and `ptr` the list that it made if that was zero.
    /// The list has this query on loan. On a failure the ledger stays as it
    /// was.
    pub fn search_threads(&self, ledger: &mut Ledger, status: u32, ptr: usize) -> (r: Result<
        Threads,
        Error,
    >)
        requires
            old(ledger).wf(),
            self.bound(old(ledger)),
        ensures
            final(ledger).wf(),
            self.bound(final(ledger)),
            r == if status == 0 {
                Ok(
                    Threads {
                        ptr,
                        slot: old(ledger)@.len() as usize,
                        cursor: Cursor::starting(ptr),
                    },
                )
            } else {
                Err::<Threads, Error>(Error::OperationFailed(status))
            },
            r matches Ok(t) ==> t.bound(final(ledger)),
            final(ledger)@ == if status == 0 {
                attached(
                    old(ledger)@,
                    ptr,
                    Kind::Threads,
                    Token { mode: Mode::Borrowed, owner: self.slot },
                )
            } else {
                old(ledger)@
            },
    {
        match as_result(status) {
            Err(e) => Err(e),
            Ok(()) => Ok(Threads::from_ptr(ledger, ptr, Token::borrowed(self.slot))),
        }
    }

    /// What a count of the threads came to: `status` is what the engine
    /// returned, and `count` the number that it found if that was zero.
    pub fn count_threads(&self, ledger: &Ledger, status: u32, count: u32) -> (r: Result<
        u32,
        Error,
    >)
        requires
            self.bound(ledger),
        ensures
            r == count_outcome(status, count),
    {
        match as_result(status) {
            Err(e) => Err(e),
            Ok(()) => Ok(count),
        }
    }

    /// Lets go of the query. Returns the calls that are due to the engine.
    pub fn release(self, ledger: &mut Ledger) -> (calls: Vec<Destroy>)
        requires
            old(ledger).wf(),
            self.bound(old(ledger)),
            releasable(old(ledger)@, self.slot as int),
        ensures
            final(ledger).wf(),
            calls@ == teardown(old(ledger)@, self.slot as int),
            released(old(ledger)@, self.slot as int, final(ledger)@),
    {
        ledger.release(self.slot)
    }
}

} // verus!
