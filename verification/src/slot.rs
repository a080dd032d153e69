//! The record that the ledger keeps of one resource, and what it means for
//! the records of a ledger to be in order.

use crate::token::{permits, Kind, Token};
use vstd::prelude::*;

verus! {

/// The record of one resource.
#[derive(Clone, Copy, Debug)]
pub struct Slot {
    /// The address that the engine gave.
    pub ptr: usize,
    pub kind: Kind,
    /// The hold of this resource on the one it was made from.
    pub parent: Option<Token>,
    /// The engine has not been told to destroy it.
    pub live: bool,
    /// The caller's handle on it is outstanding.
    pub held: bool,
    /// How many live resources own it.
    pub heirs: usize,
    /// How many live resources have it on loan.
    pub borrows: usize,
}

/// Whether `s` is alive and holds a token on `owner`, owning or on loan.
pub open spec fn holds(s: Slot, owner: int, owning: bool) -> bool {
    s.live && match s.parent {
        Some(t) => t.owner == owner && t.mode.owning() == owning,
        None => false,
    }
}

/// How many of `slots` hold a token on `owner`, owning or on loan.
pub open spec fn tally(slots: Seq<Slot>, owner: int, owning: bool) -> nat
    decreases slots.len(),
{
    if slots.len() == 0 {
        0
    } else {
        tally(slots.drop_last(), owner, owning) + if holds(slots.last(), owner, owning) {
            1nat
        } else {
            0nat
        }
    }
}

/// How many owners the resource has: the caller's handle and its heirs.
pub open spec fn owners(s: Slot) -> int {
    s.heirs + if s.held {
        1int
    } else {
        0int
    }
}

/// What holds of slot `i` in a ledger whose counts are right: what the
/// resource holds on to came before it, is alive and is of a kind that it can
/// be made from, and its own counts are those of the live resources that hold
/// on to it.
pub open spec fn slot_bound(slots: Seq<Slot>, i: int) -> bool {
    let s = slots[i];
    &&& s.parent matches Some(t) ==> t.owner < i
    &&& !s.live ==> !s.held && s.heirs == 0 && s.borrows == 0
    &&& s.live ==> {
        &&& s.heirs == tally(slots, i, true)
        &&& s.borrows == tally(slots, i, false)
        &&& match s.parent {
            None => s.kind is Database,
            Some(t) => {
                &&& slots[t.owner as int].live
                &&& permits(slots[t.owner as int].kind, s.kind)
                &&& t.mode is Exclusive ==> owners(slots[t.owner as int]) == 1
            },
        }
    }
}

/// What holds of slot `i` in a ledger that is in order: its counts are right,
/// and if it is alive it has an owner.
pub open spec fn slot_ok(slots: Seq<Slot>, i: int) -> bool {
    &&& slot_bound(slots, i)
    &&& slots[i].live ==> owners(slots[i]) >= 1
}

/// The ledger is in order: every live resource has an owner, its counts are
/// those of the live resources that hold on to it, and what it holds on to
/// came before it, is alive and is of a kind that it can be made from.
pub open spec fn well_formed(slots: Seq<Slot>) -> bool {
    forall|i: int| 0 <= i < slots.len() ==> #[trigger] slot_ok(slots, i)
}

/// Entering a record adds one to a count exactly if the record holds the
/// owner in the way that is counted.
pub proof fn lemma_tally_push(slots: Seq<Slot>, s: Slot, owner: int, owning: bool)
    ensures
        tally(slots.push(s), owner, owning) == tally(slots, owner, owning) + if holds(
            s,
            owner,
            owning,
        ) {
            1nat
        } else {
            0nat
        },
{
    assert(slots.push(s).drop_last() =~= slots);
}

/// Changing a record changes a count by what the new record adds to it less
/// what the old one added.
pub proof fn lemma_tally_update(slots: Seq<Slot>, i: int, s: Slot, owner: int, owning: bool)
    requires
        0 <= i < slots.len(),
    ensures
        tally(slots.update(i, s), owner, owning) == tally(slots, owner, owning) - (if holds(
            slots[i],
            owner,
            owning,
        ) {
            1int
        } else {
            0int
        }) + (if holds(s, owner, owning) {
            1int
        } else {
            0int
        }),
    decreases slots.len(),
{
    if i == slots.len() - 1 {
        assert(slots.update(i, s).drop_last() =~= slots.drop_last());
    } else {
        assert(slots.update(i, s).drop_last() =~= slots.drop_last().update(i, s));
        lemma_tally_update(slots.drop_last(), i, s, owner, owning);
    }
}

/// No more records hold an owner than there are records.
pub proof fn lemma_tally_bound(slots: Seq<Slot>, owner: int, owning: bool)
    ensures
        tally(slots, owner, owning) <= slots.len(),
    decreases slots.len(),
{
    if slots.len() > 0 {
        lemma_tally_bound(slots.drop_last(), owner, owning);
    }
}

/// Where no record holds the owner, the count is zero.
pub proof fn lemma_tally_none(slots: Seq<Slot>, owner: int, owning: bool)
    requires
        forall|j: int| 0 <= j < slots.len() ==> !holds(#[trigger] slots[j], owner, owning),
    ensures
        tally(slots, owner, owning) == 0,
    decreases slots.len(),
{
    if slots.len() > 0 {
        assert forall|j: int| 0 <= j < slots.drop_last().len() implies !holds(
            #[trigger] slots.drop_last()[j],
            owner,
            owning,
        ) by {
            assert(slots.drop_last()[j] == slots[j]);
        }
        lemma_tally_none(slots.drop_last(), owner, owning);
    }
}

/// A slot that stands for `s` once it is dead.
pub open spec fn buried(s: Slot) -> Slot {
    Slot { live: false, held: false, heirs: 0, borrows: 0, ..s }
}

/// A record that holds the owner is counted.
pub proof fn lemma_tally_one(slots: Seq<Slot>, a: int, owner: int, owning: bool)
    requires
        0 <= a < slots.len(),
        holds(slots[a], owner, owning),
    ensures
        tally(slots, owner, owning) >= 1,
{
    lemma_tally_update(slots, a, buried(slots[a]), owner, owning);
}

/// Two records that hold the owner are both counted.
pub proof fn lemma_tally_two(slots: Seq<Slot>, a: int, b: int, owner: int, owning: bool)
    requires
        0 <= a < slots.len(),
        0 <= b < slots.len(),
        a != b,
        holds(slots[a], owner, owning),
        holds(slots[b], owner, owning),
    ensures
        tally(slots, owner, owning) >= 2,
{
    lemma_tally_update(slots, a, buried(slots[a]), owner, owning);
    lemma_tally_one(slots.update(a, buried(slots[a])), b, owner, owning);
}

} // verus!
