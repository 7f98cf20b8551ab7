use vstd::prelude::*;

verus! {

/// The larger of two counters.
pub open spec fn spec_max(a: nat, b: nat) -> nat {
    if a >= b { a } else { b }
}

/// The value a "running maximum" register holds after `now` was observed
/// while it held `cur`.
pub fn update_max(cur: usize, now: usize) -> (r: usize)
    ensures
        r as nat == spec_max(cur as nat, now as nat),
        r >= cur,
        r >= now,
{
    if now > cur { now } else { cur }
}

/// A counter of how many actors are inside a region right now, the most
/// that have ever been inside it together, and how many have left it.
pub struct PeakCounter {
    now: usize,
    peak: usize,
    completed: usize,
}

/// The mathematical state of a `PeakCounter`.
pub struct PeakState {
    pub now: nat,
    pub peak: nat,
    pub completed: nat,
}

impl PeakState {
    /// The peak is never below the current occupancy.
    pub open spec fn inv(self) -> bool {
        self.now <= self.peak
    }

    pub open spec fn after_enter(self) -> PeakState {
        PeakState {
            now: self.now + 1,
            peak: spec_max(self.peak, self.now + 1),
            completed: self.completed,
        }
    }

    pub open spec fn after_exit(self) -> PeakState
        recommends
            self.now > 0,
    {
        PeakState { now: (self.now - 1) as nat, peak: self.peak, completed: self.completed + 1 }
    }
}

/// Law: entering raises the occupancy by one and lifts the peak to it if it
/// was lower; leaving lowers the occupancy by one and counts one completion.
pub proof fn lemma_peak_steps(s: PeakState)
    requires
        s.inv(),
    ensures
        s.after_enter().now == s.now + 1,
        s.after_enter().peak == (if s.peak >= s.now + 1 { s.peak } else { s.now + 1 }),
        s.after_enter().peak >= s.peak,
        s.after_enter().inv(),
        s.now > 0 ==> s.after_exit().now == s.now - 1 && s.after_exit().completed == s.completed
            + 1 && s.after_exit().peak == s.peak && s.after_exit().inv(),
{
}

impl View for PeakCounter {
    type V = PeakState;

    closed spec fn view(&self) -> PeakState {
        PeakState { now: self.now as nat, peak: self.peak as nat, completed: self.completed as nat }
    }
}

impl PeakCounter {
    pub fn new() -> (c: PeakCounter)
        ensures
            c@ == (PeakState { now: 0, peak: 0, completed: 0 }),
            c@.inv(),
    {
        PeakCounter { now: 0, peak: 0, completed: 0 }
    }

    /// One more actor enters; returns the occupancy after it entered.
    pub fn enter(&mut self) -> (now: usize)
        requires
            old(self)@.inv(),
            old(self)@.now < usize::MAX,
        ensures
            final(self)@ == old(self)@.after_enter(),
            final(self)@.inv(),
            now as nat == final(self)@.now,
    {
        self.now = self.now + 1;
        self.peak = update_max(self.peak, self.now);
        self.now
    }

    /// One actor leaves and is counted as done.
    pub fn exit(&mut self)
        requires
            old(self)@.inv(),
            old(self)@.now > 0,
            old(self)@.completed < usize::MAX,
        ensures
            final(self)@ == old(self)@.after_exit(),
            final(self)@.inv(),
    {
        self.now = self.now - 1;
        self.completed = self.completed + 1;
    }

    pub fn now(&self) -> (r: usize)
        ensures
            r as nat == self@.now,
    {
        self.now
    }

    pub fn peak(&self) -> (r: usize)
        ensures
            r as nat == self@.peak,
    {
        self.peak
    }

    pub fn completed(&self) -> (r: usize)
        ensures
            r as nat == self@.completed,
    {
        self.completed
    }
}

} // verus!
