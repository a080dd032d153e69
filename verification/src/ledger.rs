//! The ledger: one slot for each resource that the engine has handed out.
//!
//! A slot records the address of the resource, the token by which the resource
//! holds on to the one it was made from, and who holds on to it in turn: the
//! caller's handle, the resources that own it, the resources that have it
//! on loan. A resource is destroyed when its last owner lets go, and it may
//! only be destroyed when nothing has it on loan.

use crate::slot::{
    buried, holds, lemma_tally_bound, lemma_tally_none, lemma_tally_one, lemma_tally_push,
    lemma_tally_two, lemma_tally_update, owners, slot_bound, slot_ok, well_formed, Slot,
};
use crate::token::{permits, Kind, Mode, Token};
use vstd::prelude::*;

verus! {

/// A call that is due to the engine: destroy the resource at `ptr`.
#[derive(Clone, Copy, Debug, PartialEq, Eq, Structural)]
pub struct Destroy {
    pub kind: Kind,
    pub ptr: usize,
}

/// The record of a resource that has just been entered: alive, in the caller's
/// hand, with nothing made from it yet.
pub open spec fn fresh(ptr: usize, kind: Kind, parent: Option<Token>) -> Slot {
    Slot { ptr, kind, parent, live: true, held: true, heirs: 0, borrows: 0 }
}

/// The record of an owner once a token of mode `mode` has been taken on it: a
/// loan is counted, a share is counted, and sole ownership takes the caller's
/// handle with it.
pub open spec fn credited(s: Slot, mode: Mode) -> Slot {
    match mode {
        Mode::Borrowed => Slot { borrows: (s.borrows + 1) as usize, ..s },
        Mode::Shared => Slot { heirs: (s.heirs + 1) as usize, ..s },
        Mode::Exclusive => Slot { held: false, heirs: (s.heirs + 1) as usize, ..s },
    }
}

/// Whether a resource of kind `kind` can be made from the owner of `t`, held by
/// `t`: the owner is alive and of a fitting kind, a share is taken by one who
/// has the owner in hand, and sole ownership only of an owner that is in hand
/// and owned by nothing else.
pub open spec fn admits(slots: Seq<Slot>, t: Token, kind: Kind) -> bool {
    &&& t.owner < slots.len()
    &&& slots[t.owner as int].live
    &&& permits(slots[t.owner as int].kind, kind)
    &&& t.mode is Shared ==> slots[t.owner as int].held
    &&& t.mode is Exclusive ==> slots[t.owner as int].held && slots[t.owner as int].heirs == 0
}

/// The ledger after a resource of kind `kind` at `ptr` has been entered, held
/// to its owner by `t`.
pub open spec fn attached(slots: Seq<Slot>, ptr: usize, kind: Kind, t: Token) -> Seq<Slot> {
    slots.update(t.owner as int, credited(slots[t.owner as int], t.mode)).push(
        fresh(ptr, kind, Some(t)),
    )
}

/// Whether the resource in slot `via` can yield one of kind `kind`, which then
/// holds on to the owner of `via`.
pub open spec fn yields_to(slots: Seq<Slot>, via: int, kind: Kind) -> bool {
    &&& 0 <= via < slots.len()
    &&& slots[via].live
    &&& slots[via].parent matches Some(t)
    &&& permits(slots[t.owner as int].kind, kind)
}

/// The ledger after the resource in slot `via` has yielded one of kind `kind`
/// at `ptr`: the token of `via` is the one it passes on, and the new resource
/// holds the same.
pub open spec fn attached_through(slots: Seq<Slot>, ptr: usize, kind: Kind, via: int) -> Seq<
    Slot,
> {
    let d = slots[via].parent.unwrap().passed_on();
    attached(slots.update(via, Slot { parent: Some(d), ..slots[via] }), ptr, kind, d)
}

/// No live resource is the sole owner of `owner`.
spec fn unclaimed(slots: Seq<Slot>, owner: int) -> bool {
    forall|c: int|
        0 <= c < slots.len() && holds(#[trigger] slots[c], owner, true)
            ==> !(slots[c].parent.unwrap().mode is Exclusive)
}

proof fn lemma_attach_wf(slots: Seq<Slot>, ptr: usize, kind: Kind, t: Token)
    requires
        well_formed(slots),
        slots.len() < usize::MAX,
        t.owner < slots.len(),
        slots[t.owner as int].live,
        permits(slots[t.owner as int].kind, kind),
        t.mode is Shared ==> unclaimed(slots, t.owner as int),
        t.mode is Exclusive ==> slots[t.owner as int].held && slots[t.owner as int].heirs == 0,
    ensures
        well_formed(attached(slots, ptr, kind, t)),
{
    let o = t.owner as int;
    let n = slots.len() as int;
    let mid = slots.update(o, credited(slots[o], t.mode));
    let after = attached(slots, ptr, kind, t);
    assert(slot_ok(slots, o));
    lemma_tally_bound(slots, o, true);
    lemma_tally_bound(slots, o, false);
    assert forall|i: int| 0 <= i < after.len() implies #[trigger] slot_ok(after, i) by {
        lemma_tally_update(slots, o, credited(slots[o], t.mode), i, true);
        lemma_tally_update(slots, o, credited(slots[o], t.mode), i, false);
        lemma_tally_push(mid, fresh(ptr, kind, Some(t)), i, true);
        lemma_tally_push(mid, fresh(ptr, kind, Some(t)), i, false);
        if i == n {
            assert forall|j: int| 0 <= j < slots.len() implies !holds(
                #[trigger] slots[j],
                n,
                true,
            ) && !holds(slots[j], n, false) by {
                assert(slot_ok(slots, j));
            }
            lemma_tally_none(slots, n, true);
            lemma_tally_none(slots, n, false);
        } else {
            assert(slot_ok(slots, i));
            if after[i].live && after[i].parent is Some && after[i].parent.unwrap().owner == o
                && after[i].parent.unwrap().mode is Exclusive {
                if t.mode is Exclusive {
                    lemma_tally_one(slots, i, o, true);
                }
            }
        }
    }
}

proof fn lemma_pass_on_wf(slots: Seq<Slot>, via: int)
    requires
        well_formed(slots),
        0 <= via < slots.len(),
        slots[via].live,
        slots[via].parent is Some,
    ensures
        well_formed(
            slots.update(
                via,
                Slot { parent: Some(slots[via].parent.unwrap().passed_on()), ..slots[via] },
            ),
        ),
        slots[via].parent.unwrap().passed_on().mode is Shared ==> unclaimed(
            slots.update(
                via,
                Slot { parent: Some(slots[via].parent.unwrap().passed_on()), ..slots[via] },
            ),
            slots[via].parent.unwrap().owner as int,
        ),
{
    let t = slots[via].parent.unwrap();
    let d = t.passed_on();
    let o = t.owner as int;
    let s = Slot { parent: Some(d), ..slots[via] };
    let after = slots.update(via, s);
    assert(slot_ok(slots, via));
    assert forall|i: int| 0 <= i < after.len() implies #[trigger] slot_ok(after, i) by {
        assert(slot_ok(slots, i));
        lemma_tally_update(slots, via, s, i, true);
        lemma_tally_update(slots, via, s, i, false);
    }
    if d.mode is Shared {
        assert forall|c: int|
            0 <= c < after.len() && holds(#[trigger] after[c], o, true) implies !(
        after[c].parent.unwrap().mode is Exclusive) by {
            if c != via && after[c].parent.unwrap().mode is Exclusive {
                assert(slot_ok(slots, c));
                assert(slot_ok(slots, o));
                lemma_tally_two(slots, c, via, o, true);
            }
        }
    }
}

proof fn lemma_in_hand_unclaimed(slots: Seq<Slot>, owner: int)
    requires
        well_formed(slots),
        0 <= owner < slots.len(),
        slots[owner].live,
        slots[owner].held,
    ensures
        unclaimed(slots, owner),
{
    assert forall|c: int|
        0 <= c < slots.len() && holds(#[trigger] slots[c], owner, true) implies !(
    slots[c].parent.unwrap().mode is Exclusive) by {
        assert(slot_ok(slots, c));
        assert(slot_ok(slots, owner));
        lemma_tally_one(slots, c, owner, true);
    }
}

/// The slots of the resources that are destroyed when one owner of the
/// resource in slot `id` lets go, in the order in which they are destroyed: the
/// resource itself if that was its last owner, then the one it owned, if that
/// has no other owner, and so on.
pub open spec fn doomed(slots: Seq<Slot>, id: int) -> Seq<int>
    decreases id,
{
    if 0 <= id < slots.len() && owners(slots[id]) == 1 {
        match slots[id].parent {
            Some(t) => if t.mode.owning() && t.owner < id {
                seq![id] + doomed(slots, t.owner as int)
            } else {
                seq![id]
            },
            None => seq![id],
        }
    } else {
        Seq::empty()
    }
}

/// Whether the caller may let go of the resource in slot `id`: it is alive and
/// in the caller's hand, and nothing that would be destroyed is on loan.
pub open spec fn releasable(slots: Seq<Slot>, id: int) -> bool {
    &&& 0 <= id < slots.len()
    &&& slots[id].live
    &&& slots[id].held
    &&& forall|k: int|
        0 <= k < doomed(slots, id).len() ==> slots[#[trigger] doomed(slots, id)[k]].borrows == 0
}

/// The calls that are due to the engine when the caller lets go of the
/// resource in slot `id`, in order.
pub open spec fn teardown(slots: Seq<Slot>, id: int) -> Seq<Destroy> {
    doomed(slots, id).map_values(|j: int| Destroy { kind: slots[j].kind, ptr: slots[j].ptr })
}

/// How many holds on the resource in slot `j`, owning or on loan, lapse when
/// the caller lets go of the resource in slot `id` and `j` is not destroyed:
/// the hold of the resource that is destroyed last, if it had one on `j`.
pub open spec fn lapse(slots: Seq<Slot>, id: int, j: int, owning: bool) -> int {
    let d = doomed(slots, id);
    if d.len() > 0 && holds(slots[d.last()], j, owning) {
        1
    } else {
        0
    }
}

/// How the ledger `after` stands to the ledger `before` when the caller has
/// let go of the resource in slot `id`: the same resources at the same
/// addresses with the same tokens, alive but for those that were destroyed,
/// in the caller's hand but for the one let go of, and held by as many as
/// before but for the hold that lapsed.
pub open spec fn released(before: Seq<Slot>, id: int, after: Seq<Slot>) -> bool {
    &&& after.len() == before.len()
    &&& forall|j: int|
        0 <= j < before.len() ==> {
            &&& (#[trigger] after[j]).ptr == before[j].ptr
            &&& after[j].kind == before[j].kind
            &&& after[j].parent == before[j].parent
            &&& after[j].live == (before[j].live && !doomed(before, id).contains(j))
            &&& after[j].held == (before[j].held && j != id)
            &&& after[j].live ==> {
                &&& after[j].heirs == before[j].heirs - lapse(before, id, j, true)
                &&& after[j].borrows == before[j].borrows - lapse(before, id, j, false)
            }
        }
}

/// The ledger without the dead resources at its end.
pub open spec fn trimmed(slots: Seq<Slot>) -> Seq<Slot>
    decreases slots.len(),
{
    if slots.len() > 0 && !slots.last().live {
        trimmed(slots.drop_last())
    } else {
        slots
    }
}

/// The ledger is in order but for the resource in slot `cur`, which is alive
/// and may have lost its last owner.
spec fn poised(slots: Seq<Slot>, cur: int) -> bool {
    &&& 0 <= cur < slots.len()
    &&& slots[cur].live
    &&& slot_bound(slots, cur)
    &&& forall|i: int| 0 <= i < slots.len() && i != cur ==> #[trigger] slot_ok(slots, i)
}

proof fn lemma_let_go(slots: Seq<Slot>, id: int)
    requires
        well_formed(slots),
        0 <= id < slots.len(),
        slots[id].live,
        slots[id].held,
    ensures
        poised(slots.update(id, Slot { held: false, ..slots[id] }), id),
{
    let s = Slot { held: false, ..slots[id] };
    let after = slots.update(id, s);
    assert(slot_ok(slots, id));
    assert forall|i: int| 0 <= i < after.len() && i != id implies #[trigger] slot_ok(
        after,
        i,
    ) by {
        assert(slot_ok(slots, i));
        lemma_tally_update(slots, id, s, i, true);
        lemma_tally_update(slots, id, s, i, false);
        if holds(slots[i], id, true) {
            lemma_tally_one(slots, i, id, true);
        }
    }
    assert(slot_bound(after, id)) by {
        lemma_tally_update(slots, id, s, id, true);
        lemma_tally_update(slots, id, s, id, false);
        if slots[id].parent is Some {
            assert(slot_ok(slots, slots[id].parent.unwrap().owner as int));
        }
    }
}

proof fn lemma_bury(slots: Seq<Slot>, cur: int)
    requires
        poised(slots, cur),
        owners(slots[cur]) == 0,
        slots[cur].borrows == 0,
    ensures
        match slots[cur].parent {
            None => well_formed(slots.update(cur, buried(slots[cur]))),
            Some(t) => {
                let o = t.owner as int;
                &&& 0 <= o < cur
                &&& t.mode.owning() ==> slots[o].heirs >= 1 && poised(
                    slots.update(cur, buried(slots[cur])).update(
                        o,
                        Slot { heirs: (slots[o].heirs - 1) as usize, ..slots[o] },
                    ),
                    o,
                )
                &&& !t.mode.owning() ==> slots[o].borrows >= 1 && well_formed(
                    slots.update(cur, buried(slots[cur])).update(
                        o,
                        Slot { borrows: (slots[o].borrows - 1) as usize, ..slots[o] },
                    ),
                )
            },
        },
{
    let dead = buried(slots[cur]);
    let s1 = slots.update(cur, dead);
    // Nothing alive holds on to the resource that goes.
    assert forall|i: int| 0 <= i < slots.len() implies !holds(#[trigger] slots[i], cur, true)
        && !holds(slots[i], cur, false) by {
        if holds(slots[i], cur, true) {
            lemma_tally_one(slots, i, cur, true);
        }
        if holds(slots[i], cur, false) {
            lemma_tally_one(slots, i, cur, false);
        }
    }
    match slots[cur].parent {
        None => {
            assert forall|i: int| 0 <= i < s1.len() implies #[trigger] slot_ok(s1, i) by {
                lemma_tally_update(slots, cur, dead, i, true);
                lemma_tally_update(slots, cur, dead, i, false);
                if i != cur {
                    assert(slot_ok(slots, i));
                }
            }
        },
        Some(t) => {
            let o = t.owner as int;
            assert(slot_ok(slots, o));
            lemma_tally_one(slots, cur, o, t.mode.owning());
            let lower = if t.mode.owning() {
                Slot { heirs: (slots[o].heirs - 1) as usize, ..slots[o] }
            } else {
                Slot { borrows: (slots[o].borrows - 1) as usize, ..slots[o] }
            };
            let s2 = s1.update(o, lower);
            assert forall|i: int| 0 <= i < s2.len() && i != o implies #[trigger] slot_ok(
                s2,
                i,
            ) by {
                lemma_tally_update(slots, cur, dead, i, true);
                lemma_tally_update(slots, cur, dead, i, false);
                lemma_tally_update(s1, o, lower, i, true);
                lemma_tally_update(s1, o, lower, i, false);
                if i != cur {
                    assert(slot_ok(slots, i));
                    if t.mode.owning() && holds(slots[i], o, true) {
                        lemma_tally_two(slots, i, cur, o, true);
                    }
                }
            }
            assert(slot_bound(s2, o)) by {
                lemma_tally_update(slots, cur, dead, o, true);
                lemma_tally_update(slots, cur, dead, o, false);
                lemma_tally_update(s1, o, lower, o, true);
                lemma_tally_update(s1, o, lower, o, false);
                if slots[o].parent is Some {
                    assert(slot_ok(slots, slots[o].parent.unwrap().owner as int));
                }
            }
            if !t.mode.owning() {
                assert(slot_ok(s2, o));
            }
        },
    }
}

/// The resources that the engine has handed out, and who holds on to them.
#[derive(Debug)]
pub struct Ledger {
    slots: Vec<Slot>,
}

impl View for Ledger {
    type V = Seq<Slot>;

    closed spec fn view(&self) -> Seq<Slot> {
        self.slots@
    }
}

impl Ledger {
    /// Whether the ledger is in order.
    pub open spec fn wf(&self) -> bool {
        well_formed(self@)
    }

    /// A ledger without resources.
    pub fn new() -> (l: Ledger)
        ensures
            l@ == Seq::<Slot>::empty(),
            l.wf(),
    {
        Ledger { slots: Vec::new() }
    }

    /// How many slots the ledger has.
    pub fn len(&self) -> (n: usize)
        ensures
            n == self@.len(),
    {
        self.slots.len()
    }

    /// The record in slot `id`, if there is one.
    pub fn slot(&self, id: usize) -> (s: Option<Slot>)
        ensures
            s == if id < self@.len() {
                Some(self@[id as int])
            } else {
                None
            },
    {
        if id < self.slots.len() {
            Some(self.slots[id])
        } else {
            None
        }
    }

    /// Whether slot `slot` holds a live resource of kind `kind` at `ptr`.
    pub open spec fn has(&self, slot: usize, kind: Kind, ptr: usize) -> bool {
        &&& slot < self@.len()
        &&& self@[slot as int].live
        &&& self@[slot as int].kind == kind
        &&& self@[slot as int].ptr == ptr
    }

    /// Whether slot `slot` holds a live resource of kind `kind` at `ptr`.
    pub fn contains(&self, slot: usize, kind: Kind, ptr: usize) -> (b: bool)
        ensures
            b == self.has(slot, kind, ptr),
    {
        if slot >= self.slots.len() {
            return false;
        }
        let s = self.slots[slot];
        s.live && s.kind == kind && s.ptr == ptr
    }

    /// The address to hand to the engine for the resource in slot `id`.
    pub fn raw(&self, id: usize) -> (ptr: usize)
        requires
            id < self@.len(),
            self@[id as int].live,
        ensures
            ptr == self@[id as int].ptr,
    {
        self.slots[id].ptr
    }

    /// Drops the slots of dead resources from the end of the ledger. What is
    /// alive keeps its slot.
    pub fn trim(&mut self)
        requires
            old(self).wf(),
        ensures
            final(self).wf(),
            final(self)@ == trimmed(old(self)@),
    {
        while self.slots.len() > 0 && !self.slots[self.slots.len() - 1].live
            invariant
                self.wf(),
                trimmed(self@) == trimmed(old(self)@),
            decreases self@.len(),
        {
            let ghost before = self@;
            self.slots.pop();
            proof {
                assert(self@ =~= before.drop_last());
                assert forall|i: int| 0 <= i < self@.len() implies #[trigger] slot_ok(
                    self@,
                    i,
                ) by {
                    assert(slot_ok(before, i));
                }
            }
        }
    }

    /// Enters a database at `ptr`: a resource that holds on to no other.
    pub fn open(&mut self, ptr: usize) -> (id: usize)
        requires
            old(self).wf(),
        ensures
            final(self).wf(),
            id == old(self)@.len(),
            final(self)@ == old(self)@.push(fresh(ptr, Kind::Database, None)),
    {
        let id = self.slots.len();
        let slot = Slot {
            ptr,
            kind: Kind::Database,
            parent: None,
            live: true,
            held: true,
            heirs: 0,
            borrows: 0,
        };
        self.slots.push(slot);
        proof {
            let before = old(self)@;
            let after = self@;
            assert forall|i: int| 0 <= i < after.len() implies #[trigger] slot_ok(after, i) by {
                lemma_tally_push(before, slot, i, true);
                lemma_tally_push(before, slot, i, false);
                if i == before.len() {
                    assert forall|j: int| 0 <= j < before.len() implies !holds(
                        #[trigger] before[j],
                        i,
                        true,
                    ) && !holds(before[j], i, false) by {
                        assert(slot_ok(before, j));
                    }
                    lemma_tally_none(before, i, true);
                    lemma_tally_none(before, i, false);
                } else {
                    assert(slot_ok(before, i));
                }
            }
        }
        id
    }

    /// Whether a resource of kind `kind` can be made from the owner of `token`
    /// and held by it.
    pub fn can_attach(&self, token: Token, kind: Kind) -> (b: bool)
        ensures
            b == admits(self@, token, kind),
    {
        if token.owner >= self.slots.len() {
            return false;
        }
        let o = self.slots[token.owner];
        o.live && o.kind.may_own(kind) && match token.mode {
            Mode::Borrowed => true,
            Mode::Shared => o.held,
            Mode::Exclusive => o.held && o.heirs == 0,
        }
    }

    /// Enters a resource of kind `kind` at `ptr`, made from the owner of
    /// `token` and held to it by `token`. Returns its slot.
    ///
    /// Whether the ledger admits this is what `can_attach` tells.
    pub fn attach(&mut self, ptr: usize, kind: Kind, token: Token) -> (id: usize)
        requires
            old(self).wf(),
            admits(old(self)@, token, kind),
        ensures
            final(self).wf(),
            id == old(self)@.len(),
            final(self)@ == attached(old(self)@, ptr, kind, token),
    {
        proof {
            if token.mode is Shared {
                lemma_in_hand_unclaimed(self@, token.owner as int);
            }
        }
        self.enter(ptr, kind, token)
    }

    /// Whether the resource in slot `via` can yield one of kind `kind`.
    pub fn can_attach_through(&self, via: usize, kind: Kind) -> (b: bool)
        requires
            self.wf(),
        ensures
            b == yields_to(self@, via as int, kind),
    {
        if via >= self.slots.len() {
            return false;
        }
        let v = self.slots[via];
        proof {
            assert(slot_ok(self@, via as int));
        }
        match v.parent {
            None => false,
            Some(t) => v.live && self.slots[t.owner].kind.may_own(kind),
        }
    }

    /// Enters a resource of kind `kind` at `ptr`, yielded by the resource in
    /// slot `via`. It holds on to the owner of `via` by the token that `via`
    /// passes on. Returns its slot.
    ///
    /// Whether `via` can yield such a resource is what `can_attach_through`
    /// tells.
    pub fn attach_through(&mut self, ptr: usize, kind: Kind, via: usize) -> (id: usize)
        requires
            old(self).wf(),
            yields_to(old(self)@, via as int, kind),
        ensures
            final(self).wf(),
            id == old(self)@.len(),
            final(self)@ == attached_through(old(self)@, ptr, kind, via as int),
    {
        let v = self.slots[via];
        let t = v.parent.unwrap();
        let d = t.pass_on();
        proof {
            lemma_pass_on_wf(self@, via as int);
            assert(slot_ok(self@, via as int));
        }
        self.slots.set(via, Slot { parent: Some(d), ..v });
        self.enter(ptr, kind, d)
    }

    fn enter(&mut self, ptr: usize, kind: Kind, token: Token) -> (id: usize)
        requires
            old(self).wf(),
            token.owner < old(self)@.len(),
            old(self)@[token.owner as int].live,
            permits(old(self)@[token.owner as int].kind, kind),
            token.mode is Shared ==> unclaimed(old(self)@, token.owner as int),
            token.mode is Exclusive ==> old(self)@[token.owner as int].held && old(
                self,
            )@[token.owner as int].heirs == 0,
        ensures
            final(self).wf(),
            id == old(self)@.len(),
            final(self)@ == attached(old(self)@, ptr, kind, token),
    {
        let id = self.slots.len();
        self.slots.push(
            Slot { ptr, kind, parent: Some(token), live: true, held: true, heirs: 0, borrows: 0 },
        );
        let o = self.slots[token.owner];
        proof {
            // The ledger grew, so its old length is below the largest.
            assert(self.slots.len() == id + 1);
            assert(slot_ok(old(self)@, token.owner as int));
            lemma_tally_bound(old(self)@, token.owner as int, true);
            lemma_tally_bound(old(self)@, token.owner as int, false);
            lemma_attach_wf(old(self)@, ptr, kind, token);
        }
        let credited = match token.mode {
            Mode::Borrowed => Slot { borrows: o.borrows + 1, ..o },
            Mode::Shared => Slot { heirs: o.heirs + 1, ..o },
            Mode::Exclusive => Slot { held: false, heirs: o.heirs + 1, ..o },
        };
        self.slots.set(token.owner, credited);
        assert(self@ =~= attached(old(self)@, ptr, kind, token));
        id
    }

    /// Whether the caller may let go of the resource in slot `id`.
    pub fn can_release(&self, id: usize) -> (b: bool)
        requires
            self.wf(),
        ensures
            b == releasable(self@, id as int),
    {
        if id >= self.slots.len() {
            return false;
        }
        let first = self.slots[id];
        if !first.live || !first.held {
            return false;
        }
        let ghost plan = doomed(self@, id as int);
        let ghost mut seen: int = 0;
        let mut cur: usize = id;
        let mut clear: bool = true;
        let mut going: bool = true;
        while going
            invariant
                self.wf(),
                plan == doomed(self@, id as int),
                cur <= id < self@.len(),
                0 <= seen <= plan.len(),
                going ==> clear,
                going ==> plan.subrange(seen, plan.len() as int) == doomed(self@, cur as int),
                clear ==> forall|k: int| 0 <= k < seen ==> self@[#[trigger] plan[k]].borrows == 0,
                !going && clear ==> seen == plan.len(),
                !clear ==> 0 <= seen < plan.len() && self@[plan[seen]].borrows != 0,
            decreases
                    (if going {
                        cur + 1
                    } else {
                        0
                    }),
        {
            let s = self.slots[cur];
            let lone = if s.held {
                s.heirs == 0
            } else {
                s.heirs == 1
            };
            proof {
                assert(slot_ok(self@, cur as int));
            }
            if !lone {
                going = false;
                proof {
                    assert(plan.subrange(seen, plan.len() as int).len() == 0);
                }
            } else {
                proof {
                    assert(plan.subrange(seen, plan.len() as int)[0] == cur);
                }
                if s.borrows != 0 {
                    clear = false;
                    going = false;
                } else {
                    let ghost rest = plan.subrange(seen, plan.len() as int);
                    proof {
                        assert(rest.subrange(1, rest.len() as int) =~= plan.subrange(
                            seen + 1,
                            plan.len() as int,
                        ));
                        seen = seen + 1;
                    }
                    match s.parent {
                        None => {
                            going = false;
                        },
                        Some(t) => {
                            if t.mode.is_owning() {
                                proof {
                                    assert(rest.subrange(1, rest.len() as int) =~= doomed(
                                        self@,
                                        t.owner as int,
                                    ));
                                }
                                cur = t.owner;
                            } else {
                                going = false;
                            }
                        },
                    }
                }
            }
        }
        clear
    }

    /// Lets go of the caller's handle on the resource in slot `id`. Where that
    /// was its last owner the resource is destroyed, and then, in turn, what it
    /// owned and nothing else owns. Returns the calls that are due to the
    /// engine, a resource before the one it was made from.
    ///
    /// Letting go is not permitted while something that would be destroyed is
    /// on loan: `can_release` tells.
    pub fn release(&mut self, id: usize) -> (calls: Vec<Destroy>)
        requires
            old(self).wf(),
            releasable(old(self)@, id as int),
        ensures
            final(self).wf(),
            calls@ == teardown(old(self)@, id as int),
            released(old(self)@, id as int, final(self)@),
    {
        let ghost before = self@;
        let ghost plan = doomed(before, id as int);
        let ghost mut done: Seq<int> = Seq::empty();
        let mut calls: Vec<Destroy> = Vec::new();
        let first = self.slots[id];
        self.slots.set(id, Slot { held: false, ..first });
        proof {
            lemma_let_go(before, id as int);
        }
        let mut cur: usize = id;
        let mut going: bool = true;
        while going
            invariant
                well_formed(before),
                releasable(before, id as int),
                plan == doomed(before, id as int),
                self@.len() == before.len(),
                cur <= id < before.len(),
                calls@.len() == done.len(),
                forall|k: int|
                    0 <= k < done.len() ==> #[trigger] calls@[k] == (Destroy {
                        kind: before[done[k]].kind,
                        ptr: before[done[k]].ptr,
                    }),
                forall|k: int| 0 <= k < done.len() ==> 0 <= #[trigger] done[k] < before.len(),
                going ==> forall|k: int| 0 <= k < done.len() ==> cur < #[trigger] done[k],
                going ==> done + doomed(before, cur as int) == plan,
                !going ==> done == plan,
                forall|j: int|
                    0 <= j < before.len() ==> {
                        &&& (#[trigger] self@[j]).ptr == before[j].ptr
                        &&& self@[j].kind == before[j].kind
                        &&& self@[j].parent == before[j].parent
                        &&& self@[j].live == (before[j].live && !done.contains(j))
                        &&& self@[j].held == (before[j].held && j != id)
                    },
                going ==> forall|j: int|
                    0 <= j < before.len() && j != cur && !done.contains(j) ==> (
                    #[trigger] self@[j]).heirs == before[j].heirs && self@[j].borrows
                        == before[j].borrows,
                going && done.len() > 0 ==> holds(before[done.last()], cur as int, true),
                going && done.len() == 0 ==> cur == id,
                !going ==> forall|j: int|
                    0 <= j < before.len() && (#[trigger] self@[j]).live ==> self@[j].heirs
                        == before[j].heirs - lapse(before, id as int, j, true) && self@[j].borrows
                        == before[j].borrows - lapse(before, id as int, j, false),
                going ==> poised(self@, cur as int),
                going ==> owners(self@[cur as int]) == owners(before[cur as int]) - 1,
                going ==> self@[cur as int].borrows == before[cur as int].borrows,
                !going ==> well_formed(self@),
            decreases
                    (if going {
                        cur + 1
                    } else {
                        0
                    }),
        {
            let s = self.slots[cur];
            if s.held || s.heirs != 0 {
                going = false;
                proof {
                    assert(done + doomed(before, cur as int) =~= done);
                }
            } else {
                proof {
                    assert(plan[done.len() as int] == (done + doomed(before, cur as int))[done.len() as int]);
                    assert(doomed(before, cur as int)[0] == cur);
                    lemma_bury(self@, cur as int);
                    assert(slot_ok(before, cur as int));
                }
                self.slots.set(cur, Slot { live: false, ..s });
                assert(self@[cur as int] == buried(s));
                calls.push(Destroy { kind: s.kind, ptr: s.ptr });
                let ghost rest = doomed(before, cur as int).subrange(
                    1,
                    doomed(before, cur as int).len() as int,
                );
                proof {
                    let grown = done.push(cur as int);
                    assert(grown + rest =~= done + doomed(before, cur as int));
                    assert forall|j: int| grown.contains(j) == (done.contains(j) || j == cur) by {
                        if done.contains(j) {
                            let k = choose|k: int| 0 <= k < done.len() && done[k] == j;
                            assert(grown[k] == j);
                        }
                        if j == cur {
                            assert(grown[done.len() as int] == j);
                        }
                    }
                    done = grown;
                }
                match s.parent {
                    None => {
                        going = false;
                        proof {
                            assert(rest =~= Seq::<int>::empty());
                            assert(done + rest =~= done);
                        }
                    },
                    Some(t) => {
                        let o = self.slots[t.owner];
                        if t.mode.is_owning() {
                            self.slots.set(t.owner, Slot { heirs: o.heirs - 1, ..o });
                            proof {
                                assert(rest =~= doomed(before, t.owner as int));
                            }
                            cur = t.owner;
                        } else {
                            self.slots.set(t.owner, Slot { borrows: o.borrows - 1, ..o });
                            going = false;
                            proof {
                                assert(rest =~= Seq::<int>::empty());
                                assert(done + rest =~= done);
                            }
                        }
                    },
                }
            }
        }
        assert(calls@ =~= teardown(before, id as int));
        calls
    }
}

} // verus!
