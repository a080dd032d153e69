//! The orders in which the engine can return the results of a search.

use vstd::prelude::*;

verus! {

/// The order of the results of a search.
#[derive(Clone, Copy, Debug, PartialEq, Eq, Structural)]
pub enum Sort {
    OldestFirst,
    NewestFirst,
    MessageID,
    Unsorted,
}

impl Sort {
    /// The number that the engine has for this order.
    pub open spec fn code_of(self) -> u32 {
        match self {
            Sort::OldestFirst => 0,
            Sort::NewestFirst => 1,
            Sort::MessageID => 2,
            Sort::Unsorted => 3,
        }
    }

    /// Whether `code` is the engine's number for an order.
    pub open spec fn known(code: u32) -> bool {
        code <= 3
    }

    /// The order that the engine numbers `code`.
    pub open spec fn of(code: u32) -> Sort
        recommends
            Sort::known(code),
    {
        if code == 0 {
            Sort::OldestFirst
        } else if code == 1 {
            Sort::NewestFirst
        } else if code == 2 {
            Sort::MessageID
        } else {
            Sort::Unsorted
        }
    }

    /// The number that the engine has for this order.
    pub fn code(self) -> (c: u32)
        ensures
            c == self.code_of(),
    {
        match self {
            Sort::OldestFirst => 0,
            Sort::NewestFirst => 1,
            Sort::MessageID => 2,
            Sort::Unsorted => 3,
        }
    }

    /// The order that the engine numbers `code`, if it numbers one so.
    pub fn from_code(code: u32) -> (s: Option<Sort>)
        ensures
            s == if Sort::known(code) {
                Some(Sort::of(code))
            } else {
                None
            },
    {
        match code {
            0 => Some(Sort::OldestFirst),
            1 => Some(Sort::NewestFirst),
            2 => Some(Sort::MessageID),
            3 => Some(Sort::Unsorted),
            _ => None,
        }
    }

    /// An order is the one that the engine numbers as the order's own number,
    /// and a known number is the number of the order that it stands for.
    pub proof fn lemma_code_round_trip(self, code: u32)
        ensures
            Sort::known(self.code_of()),
            Sort::of(self.code_of()) == self,
            Sort::known(code) ==> Sort::of(code).code_of() == code,
    {
    }
}

} // verus!
