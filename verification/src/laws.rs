//! What holds of every ledger that is in order, whatever was entered and let
//! go of before.

use crate::ledger::{
    attached, attached_through, doomed, releasable, released, teardown, trimmed, Destroy,
};
use crate::slot::{
    holds, lemma_tally_one, lemma_tally_two, owners, slot_ok, well_formed, Slot,
};
use crate::token::{Kind, Token};
use vstd::prelude::*;

verus! {

/// Whether the holds that lead from the resource in slot `id` to a database
/// are unbroken: the resource is alive, and it is a database or holds on to
/// an earlier resource of which the same is true.
pub open spec fn rooted(slots: Seq<Slot>, id: int) -> bool
    decreases id,
{
    &&& 0 <= id < slots.len()
    &&& slots[id].live
    &&& match slots[id].parent {
        None => slots[id].kind is Database,
        Some(t) => t.owner < id && rooted(slots, t.owner as int),
    }
}

/// In a ledger that is in order a resource is alive exactly if the holds that
/// lead from it to a database are unbroken.
pub proof fn lemma_live_means_rooted(slots: Seq<Slot>, id: int)
    requires
        well_formed(slots),
        0 <= id < slots.len(),
    ensures
        slots[id].live <==> rooted(slots, id),
    decreases id,
{
    assert(slot_ok(slots, id));
    if slots[id].live {
        if let Some(t) = slots[id].parent {
            lemma_live_means_rooted(slots, t.owner as int);
        }
    }
}

/// What is destroyed when an owner of a live resource lets go: live
/// resources, each of which had this one owner left, each made before the one
/// that is destroyed before it. So none is destroyed twice, and none that has
/// another owner is destroyed at all.
pub proof fn lemma_doomed_had_one_owner(slots: Seq<Slot>, id: int)
    requires
        well_formed(slots),
        0 <= id < slots.len(),
        slots[id].live,
    ensures
        forall|k: int|
            0 <= k < doomed(slots, id).len() ==> {
                let j = #[trigger] doomed(slots, id)[k];
                &&& 0 <= j <= id
                &&& slots[j].live
                &&& owners(slots[j]) == 1
            },
        forall|k: int, l: int|
            0 <= k < l < doomed(slots, id).len() ==> doomed(slots, id)[l] < doomed(slots, id)[k],
        forall|j: int|
            0 <= j < slots.len() && owners(slots[j]) != 1 ==> !doomed(slots, id).contains(j),
    decreases id,
{
    let all = doomed(slots, id);
    assert(slot_ok(slots, id));
    if owners(slots[id]) == 1 {
        if let Some(t) = slots[id].parent {
            if t.mode.owning() {
                let rest = doomed(slots, t.owner as int);
                lemma_doomed_had_one_owner(slots, t.owner as int);
                assert(all =~= seq![id] + rest);
                assert forall|k: int| 0 <= k < all.len() implies ({
                    let j = #[trigger] all[k];
                    &&& 0 <= j <= id
                    &&& slots[j].live
                    &&& owners(slots[j]) == 1
                }) by {
                    if k > 0 {
                        assert(all[k] == rest[k - 1]);
                    }
                }
                assert forall|k: int, l: int| 0 <= k < l < all.len() implies all[l] < all[k] by {
                    assert(all[l] == rest[l - 1]);
                    if k > 0 {
                        assert(all[k] == rest[k - 1]);
                    }
                }
            }
        }
    }
}

/// What is destroyed goes after everything that held on to it: a live
/// resource that holds on to one that is destroyed is the one destroyed just
/// before it.
pub proof fn lemma_holders_go_first(slots: Seq<Slot>, id: int, k: int, holder: int)
    requires
        well_formed(slots),
        releasable(slots, id),
        0 <= k < doomed(slots, id).len(),
        0 <= holder < slots.len(),
        slots[holder].live,
        slots[holder].parent is Some,
        slots[holder].parent.unwrap().owner == doomed(slots, id)[k],
    ensures
        k > 0,
        doomed(slots, id)[k - 1] == holder,
{
    let all = doomed(slots, id);
    let j = all[k];
    let t = slots[holder].parent.unwrap();
    lemma_doomed_had_one_owner(slots, id);
    assert(slot_ok(slots, j));
    assert(slots[j].borrows == 0);
    lemma_tally_one(slots, holder, j, t.mode.owning());
    if k == 0 {
        assert(all[0] == id);
    } else {
        let prev = all[k - 1];
        assert(slot_ok(slots, prev));
        lemma_doomed_suffix(slots, id, k - 1);
        let tail = doomed(slots, prev);
        assert(tail[1] == all.subrange(k - 1, all.len() as int)[1]);
        let up = slots[prev].parent.unwrap();
        assert(tail =~= seq![prev] + doomed(slots, up.owner as int));
        assert(doomed(slots, up.owner as int)[0] == up.owner);
        if holder != prev {
            lemma_tally_two(slots, holder, prev, j, true);
        }
    }
}

/// No operation of the ledger gives an entered resource another address,
/// kind or slot: a resource stays what it was entered as.
pub proof fn lemma_identity_is_kept(
    slots: Seq<Slot>,
    ptr: usize,
    kind: Kind,
    t: Token,
    via: int,
    id: int,
    after: Seq<Slot>,
    j: int,
)
    requires
        well_formed(slots),
        0 <= j < slots.len(),
        t.owner < slots.len(),
        0 <= via < slots.len(),
        slots[via].parent is Some,
    ensures
        attached(slots, ptr, kind, t)[j].ptr == slots[j].ptr,
        attached(slots, ptr, kind, t)[j].kind == slots[j].kind,
        attached_through(slots, ptr, kind, via)[j].ptr == slots[j].ptr,
        attached_through(slots, ptr, kind, via)[j].kind == slots[j].kind,
        released(slots, id, after) ==> after[j].ptr == slots[j].ptr && after[j].kind
            == slots[j].kind,
        slots[j].live ==> j < trimmed(slots).len() && trimmed(slots)[j] == slots[j],
{
    assert(slot_ok(slots, via));
    if slots[j].live {
        lemma_trimmed_keeps_the_living(slots, j);
    }
}

proof fn lemma_trimmed_keeps_the_living(slots: Seq<Slot>, j: int)
    requires
        0 <= j < slots.len(),
        slots[j].live,
    ensures
        j < trimmed(slots).len(),
        trimmed(slots)[j] == slots[j],
    decreases slots.len(),
{
    if !slots.last().live {
        lemma_trimmed_keeps_the_living(slots.drop_last(), j);
    }
}

/// While a live resource has another on loan, no release that the ledger
/// permits destroys the one on loan: it is alive afterwards. In particular
/// its own last handle cannot be let go of.
pub proof fn lemma_lender_outlives_borrower(
    slots: Seq<Slot>,
    borrower: int,
    id: int,
    after: Seq<Slot>,
)
    requires
        well_formed(slots),
        0 <= borrower < slots.len(),
        slots[borrower].live,
        slots[borrower].parent is Some,
        slots[borrower].parent.unwrap().mode is Borrowed,
    ensures
        ({
            let lender = slots[borrower].parent.unwrap().owner as int;
            &&& slots[lender].live
            &&& slots[lender].borrows >= 1
            &&& releasable(slots, id) ==> !doomed(slots, id).contains(lender)
            &&& releasable(slots, id) && released(slots, id, after) ==> after[lender].live
            &&& owners(slots[lender]) == 1 ==> !releasable(slots, lender)
        }),
{
    let lender = slots[borrower].parent.unwrap().owner as int;
    assert(slot_ok(slots, borrower));
    assert(slot_ok(slots, lender));
    lemma_tally_one(slots, borrower, lender, false);
    if releasable(slots, id) && doomed(slots, id).contains(lender) {
        let k = choose|k: int| 0 <= k < doomed(slots, id).len() && doomed(slots, id)[k] == lender;
        assert(slots[doomed(slots, id)[k]].borrows == 0);
    }
    if owners(slots[lender]) == 1 && releasable(slots, lender) {
        assert(doomed(slots, lender)[0] == lender);
    }
}

/// A resource is destroyed by the owner that lets go of it last, and by no
/// other: when the caller lets go of a resource that has other owners, nothing
/// is destroyed; when a resource is destroyed that owns another, the other is
/// destroyed with it exactly if it has no other owner.
pub proof fn lemma_last_owner_destroys(slots: Seq<Slot>, id: int)
    requires
        well_formed(slots),
        releasable(slots, id),
    ensures
        owners(slots[id]) > 1 ==> teardown(slots, id) == Seq::<Destroy>::empty(),
        owners(slots[id]) == 1 ==> teardown(slots, id).len() >= 1 && teardown(slots, id)[0] == (
        Destroy { kind: slots[id].kind, ptr: slots[id].ptr }),
        forall|k: int|
            0 <= k < doomed(slots, id).len() ==> match slots[#[trigger] doomed(
                slots,
                id,
            )[k]].parent {
                Some(t) => t.mode.owning() ==> (doomed(slots, id).contains(t.owner as int)
                    <==> owners(slots[t.owner as int]) == 1),
                None => true,
            },
{
    let all = doomed(slots, id);
    assert(slot_ok(slots, id));
    lemma_doomed_had_one_owner(slots, id);
    assert(teardown(slots, id).len() == all.len());
    assert forall|k: int| 0 <= k < all.len() implies match slots[#[trigger] all[k]].parent {
        Some(t) => t.mode.owning() ==> (all.contains(t.owner as int) <==> owners(
            slots[t.owner as int],
        ) == 1),
        None => true,
    } by {
        let j = all[k];
        if let Some(t) = slots[j].parent {
            if t.mode.owning() {
                lemma_doomed_suffix(slots, id, k);
                assert(slot_ok(slots, j));
                let tail = doomed(slots, j);
                let up = doomed(slots, t.owner as int);
                if owners(slots[t.owner as int]) == 1 {
                    assert(tail =~= seq![j] + up);
                    assert(up[0] == t.owner);
                    assert(all[k + 1] == tail[1]);
                }
            }
        }
    }
}

/// From any of its members on, what is destroyed is what would be destroyed
/// if an owner of that member let go.
proof fn lemma_doomed_suffix(slots: Seq<Slot>, id: int, k: int)
    requires
        well_formed(slots),
        0 <= id < slots.len(),
        slots[id].live,
        0 <= k < doomed(slots, id).len(),
    ensures
        doomed(slots, id).subrange(k, doomed(slots, id).len() as int) == doomed(
            slots,
            doomed(slots, id)[k],
        ),
    decreases id,
{
    let all = doomed(slots, id);
    assert(slot_ok(slots, id));
    if k == 0 {
        assert(all.subrange(0, all.len() as int) =~= all);
    } else {
        let t = slots[id].parent.unwrap();
        let rest = doomed(slots, t.owner as int);
        assert(all =~= seq![id] + rest);
        lemma_doomed_suffix(slots, t.owner as int, k - 1);
        assert(all.subrange(k, all.len() as int) =~= rest.subrange(k - 1, rest.len() as int));
        assert(all[k] == rest[k - 1]);
    }
}

/// An owner that lets go of a resource which has other owners leaves it alive
/// with one owner fewer: so the caller, whose handle goes and nothing else,
/// and so a resource that is destroyed, for the one that it owned.
pub proof fn lemma_one_owner_fewer(slots: Seq<Slot>, id: int, after: Seq<Slot>)
    requires
        well_formed(slots),
        releasable(slots, id),
        released(slots, id, after),
    ensures
        owners(slots[id]) > 1 ==> teardown(slots, id) == Seq::<Destroy>::empty() && after[id].live
            && owners(after[id]) == owners(slots[id]) - 1,
        forall|k: int|
            0 <= k < doomed(slots, id).len() ==> match slots[#[trigger] doomed(
                slots,
                id,
            )[k]].parent {
                Some(t) => t.mode.owning() && owners(slots[t.owner as int]) > 1
                    ==> after[t.owner as int].live && owners(after[t.owner as int]) == owners(
                    slots[t.owner as int],
                ) - 1,
                None => true,
            },
{
    let all = doomed(slots, id);
    assert(slot_ok(slots, id));
    lemma_doomed_had_one_owner(slots, id);
    assert(teardown(slots, id).len() == all.len());
    assert forall|k: int| 0 <= k < all.len() implies match slots[#[trigger] all[k]].parent {
        Some(t) => t.mode.owning() && owners(slots[t.owner as int]) > 1
            ==> after[t.owner as int].live && owners(after[t.owner as int]) == owners(
            slots[t.owner as int],
        ) - 1,
        None => true,
    } by {
        let j = all[k];
        assert(slot_ok(slots, j));
        if let Some(t) = slots[j].parent {
            let o = t.owner as int;
            if t.mode.owning() && owners(slots[o]) > 1 {
                // The one that owns `o` is the last to be destroyed.
                lemma_doomed_suffix(slots, id, k);
                assert(doomed(slots, o) =~= Seq::<int>::empty());
                assert(doomed(slots, j) =~= seq![j]);
                assert(all.subrange(k, all.len() as int).len() == 1);
                assert(all[0] == id);
            }
        }
    }
}

/// Whether the caller, in letting go of the resource in slot `id`, drops a
/// hold of an owner on the resource in slot `o`: the caller's own, or that of
/// a resource which owns `o` and goes because the caller was its last owner.
pub open spec fn drops_hold_on(slots: Seq<Slot>, id: int, o: int) -> bool {
    id == o || (0 <= id < slots.len() && owners(slots[id]) == 1 && holds(slots[id], o, true))
}

/// Whether `states` are the ledgers before, between and after the releases of
/// `ids`, one after the other, each of them permitted.
pub open spec fn run_of_releases(states: Seq<Seq<Slot>>, ids: Seq<int>) -> bool {
    &&& states.len() == ids.len() + 1
    &&& forall|k: int|
        0 <= k < ids.len() ==> {
            &&& well_formed(#[trigger] states[k])
            &&& releasable(states[k], ids[k])
            &&& released(states[k], ids[k], states[k + 1])
        }
}

/// When an owner of a live resource lets go, the resource stays alive with
/// one owner fewer if it had other owners, and is destroyed if it had none.
pub proof fn lemma_an_owner_lets_go(before: Seq<Slot>, id: int, after: Seq<Slot>, o: int)
    requires
        well_formed(before),
        releasable(before, id),
        released(before, id, after),
        drops_hold_on(before, id, o),
        0 <= o < before.len(),
        before[o].live,
    ensures
        owners(before[o]) > 1 ==> !doomed(before, id).contains(o) && after[o].live && owners(
            after[o],
        ) == owners(before[o]) - 1,
        owners(before[o]) <= 1 ==> doomed(before, id).contains(o) && !after[o].live,
{
    assert(slot_ok(before, o));
    lemma_doomed_had_one_owner(before, id);
    lemma_one_owner_fewer(before, id, after);
    lemma_last_owner_destroys(before, id);
    if id != o {
        assert(doomed(before, id)[0] == id);
    } else if owners(before[o]) == 1 {
        assert(doomed(before, id)[0] == o);
    }
}

/// A resource with `n` owners that let go one after the other is destroyed
/// when the last of them lets go, and not before: after each of the first
/// `n - 1` releases it is alive and was not in what the engine was told to
/// destroy, and the last release destroys it.
pub proof fn lemma_destroyed_by_the_last_of_its_owners(
    states: Seq<Seq<Slot>>,
    ids: Seq<int>,
    o: int,
    k: int,
)
    requires
        run_of_releases(states, ids),
        0 <= o < states[0].len(),
        states[0][o].live,
        owners(states[0][o]) == ids.len(),
        forall|i: int| 0 <= i < ids.len() ==> drops_hold_on(#[trigger] states[i], ids[i], o),
        0 <= k < ids.len(),
    ensures
        0 <= o < states[k].len(),
        states[k][o].live,
        owners(states[k][o]) == ids.len() - k,
        k < ids.len() - 1 ==> !doomed(states[k], ids[k]).contains(o) && states[k + 1][o].live,
        k == ids.len() - 1 ==> doomed(states[k], ids[k]).contains(o) && !states[k + 1][o].live,
    decreases k,
{
    if k > 0 {
        lemma_destroyed_by_the_last_of_its_owners(states, ids, o, k - 1);
        assert(well_formed(states[k - 1]) && releasable(states[k - 1], ids[k - 1]) && released(
            states[k - 1],
            ids[k - 1],
            states[k],
        ));
        assert(drops_hold_on(states[k - 1], ids[k - 1], o));
        lemma_an_owner_lets_go(states[k - 1], ids[k - 1], states[k], o);
        assert(states[k].len() == states[k - 1].len());
    }
    assert(well_formed(states[k]) && releasable(states[k], ids[k]) && released(
        states[k],
        ids[k],
        states[k + 1],
    ));
    assert(drops_hold_on(states[k], ids[k], o));
    lemma_an_owner_lets_go(states[k], ids[k], states[k + 1], o);
}

/// A resource that holds another as its sole owner takes it along when it is
/// destroyed.
pub proof fn lemma_sole_owner_takes_along(slots: Seq<Slot>, id: int)
    requires
        well_formed(slots),
        releasable(slots, id),
        owners(slots[id]) == 1,
        slots[id].parent is Some,
        slots[id].parent.unwrap().mode is Exclusive,
    ensures
        teardown(slots, id).len() >= 2,
        teardown(slots, id)[0] == (Destroy { kind: slots[id].kind, ptr: slots[id].ptr }),
        teardown(slots, id)[1] == (Destroy {
            kind: slots[slots[id].parent.unwrap().owner as int].kind,
            ptr: slots[slots[id].parent.unwrap().owner as int].ptr,
        }),
{
    let o = slots[id].parent.unwrap().owner as int;
    assert(slot_ok(slots, id));
    assert(slot_ok(slots, o));
    assert(doomed(slots, id) =~= seq![id] + doomed(slots, o));
    assert(doomed(slots, o)[0] == o);
    assert(doomed(slots, id)[1] == o);
}

/// What is destroyed was alive and is dead afterwards, what was dead stays
/// dead, and nothing dead is destroyed by a release that the ledger permits:
/// the engine is told to destroy a resource at most once.
pub proof fn lemma_destroyed_once(before: Seq<Slot>, id: int, after: Seq<Slot>, j: int)
    requires
        well_formed(before),
        releasable(before, id),
        released(before, id, after),
        well_formed(after),
        0 <= j < before.len(),
    ensures
        doomed(before, id).contains(j) ==> before[j].live && !after[j].live,
        !before[j].live ==> !after[j].live,
        !after[j].live ==> forall|next: int|
            releasable(after, next) ==> !(#[trigger] doomed(after, next)).contains(j),
{
    lemma_doomed_had_one_owner(before, id);
    assert forall|next: int| releasable(after, next) && !after[j].live implies !(
    #[trigger] doomed(after, next)).contains(j) by {
        lemma_doomed_had_one_owner(after, next);
    }
}

} // verus!
