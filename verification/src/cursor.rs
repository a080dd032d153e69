//! The state that every single-pass iterator of the engine goes through.
//!
//! An iterator is active until the engine first reports that nothing is at
//! its cursor, or until an operation that uses up the rest is applied to it.
//! From then on it is exhausted, whatever the engine reports afterwards.

use vstd::prelude::*;

verus! {

/// Where a single-pass iterator stands.
#[derive(Clone, Copy, Debug, PartialEq, Eq, Structural)]
pub enum Cursor {
    /// The engine may have more.
    Active,
    /// Nothing more will be yielded.
    Exhausted,
}

/// How many of `readings` come before the first that is zero.
pub open spec fn leading(readings: Seq<i32>) -> nat
    decreases readings.len(),
{
    if readings.len() == 0 || readings[0] == 0 {
        0
    } else {
        1 + leading(readings.drop_first())
    }
}

impl Cursor {
    /// The state in which an iterator over the engine's object at `ptr`
    /// starts: the null handle has nothing to yield.
    pub open spec fn starting(ptr: usize) -> Cursor {
        if ptr == 0 {
            Cursor::Exhausted
        } else {
            Cursor::Active
        }
    }

    /// Whether a step yields an element, given what the engine's validity
    /// check reported.
    pub open spec fn yields(self, valid: i32) -> bool {
        self is Active && valid != 0
    }

    /// The state after a step.
    pub open spec fn after(self, valid: i32) -> Cursor {
        if self.yields(valid) {
            Cursor::Active
        } else {
            Cursor::Exhausted
        }
    }

    /// The state after one step for each of `readings`, in order.
    pub open spec fn after_all(self, readings: Seq<i32>) -> Cursor
        decreases readings.len(),
    {
        if readings.len() == 0 {
            self
        } else {
            self.after(readings[0]).after_all(readings.drop_first())
        }
    }

    /// How many elements are yielded in one step for each of `readings`.
    pub open spec fn yielded(self, readings: Seq<i32>) -> nat
        decreases readings.len(),
    {
        if readings.len() == 0 {
            0
        } else {
            (if self.yields(readings[0]) {
                1nat
            } else {
                0nat
            }) + self.after(readings[0]).yielded(readings.drop_first())
        }
    }

    /// The state in which an iterator over the engine's object at `ptr` starts.
    pub fn start(ptr: usize) -> (c: Cursor)
        ensures
            c == Cursor::starting(ptr),
    {
        if ptr == 0 {
            Cursor::Exhausted
        } else {
            Cursor::Active
        }
    }

    /// Whether nothing more will be yielded.
    pub fn is_exhausted(&self) -> (b: bool)
        ensures
            b == (*self is Exhausted),
    {
        matches!(self, Cursor::Exhausted)
    }

    /// Whether the element at the engine's cursor is to be read, given what
    /// the engine's validity check reported.
    pub fn reads(&self, valid: i32) -> (more: bool)
        ensures
            more == self.yields(valid),
    {
        matches!(self, Cursor::Active) && valid != 0
    }

    /// Takes one step, given what the engine's validity check reported.
    /// Returns whether the element at the engine's cursor is to be read.
    pub fn advance(&mut self, valid: i32) -> (more: bool)
        ensures
            more == old(self).yields(valid),
            *final(self) == old(self).after(valid),
    {
        let more = matches!(self, Cursor::Active) && valid != 0;
        if !more {
            *self = Cursor::Exhausted;
        }
        more
    }

    /// Takes one step and hands `item` on if the step yields an element.
    pub fn take<T>(&mut self, valid: i32, item: T) -> (r: Option<T>)
        ensures
            r == if old(self).yields(valid) {
                Some(item)
            } else {
                None
            },
            *final(self) == old(self).after(valid),
    {
        if self.advance(valid) {
            Some(item)
        } else {
            None
        }
    }

    /// Uses up the rest.
    pub fn exhaust(&mut self)
        ensures
            *final(self) is Exhausted,
    {
        *self = Cursor::Exhausted;
    }

    /// An iterator over nothing is exhausted by its first step, which yields
    /// nothing: so where the engine gave the null handle, whatever it reports,
    /// and so where it reports at once that nothing is at its cursor.
    pub proof fn lemma_empty_yields_nothing(ptr: usize, valid: i32)
        requires
            ptr == 0 || valid == 0,
        ensures
            !Cursor::starting(ptr).yields(valid),
            Cursor::starting(ptr).after(valid) is Exhausted,
    {
    }

    /// An exhausted iterator yields nothing and stays exhausted, whatever the
    /// engine reports.
    pub proof fn lemma_exhausted_is_terminal(self, valid: i32)
        requires
            self is Exhausted,
        ensures
            !self.yields(valid),
            self.after(valid) is Exhausted,
    {
    }

    /// Once a step has yielded nothing, no later step yields anything,
    /// whatever the engine reports in between and then.
    pub proof fn lemma_nothing_after_nothing(self, valid: i32, between: Seq<i32>, later: i32)
        requires
            !self.yields(valid),
        ensures
            !self.after(valid).after_all(between).yields(later),
            self.after(valid).yielded(between) == 0,
    {
        Cursor::Exhausted.lemma_stays_exhausted(between);
    }

    /// An exhausted iterator stays exhausted through any number of steps and
    /// yields nothing in them.
    pub proof fn lemma_stays_exhausted(self, readings: Seq<i32>)
        requires
            self is Exhausted,
        ensures
            self.after_all(readings) is Exhausted,
            self.yielded(readings) == 0,
        decreases readings.len(),
    {
        if readings.len() > 0 {
            self.after(readings[0]).lemma_stays_exhausted(readings.drop_first());
        }
    }

    /// An active iterator that is stepped through `readings` yields one
    /// element for each reading before the first zero, and no more.
    pub proof fn lemma_yields_the_leading(self, readings: Seq<i32>)
        requires
            self is Active,
        ensures
            self.yielded(readings) == leading(readings),
        decreases readings.len(),
    {
        if readings.len() > 0 {
            if readings[0] == 0 {
                self.after(readings[0]).lemma_stays_exhausted(readings.drop_first());
            } else {
                self.after(readings[0]).lemma_yields_the_leading(readings.drop_first());
            }
        }
    }
}

} // verus!
