use vstd::prelude::*;
use crate::random::random_index;

verus! {

/// Number of smokers, one per ingredient.
pub const N_SMOKERS: usize = 3;

/// The agent's side of the cigarette-smokers problem: how many rounds are
/// left to deal out.
pub struct Agent {
    rounds_left: usize,
}

impl Agent {
    pub closed spec fn spec_rounds_left(&self) -> nat {
        self.rounds_left as nat
    }

    /// An agent that will deal `rounds` rounds.
    pub fn new(rounds: usize) -> (a: Agent)
        ensures
            a.spec_rounds_left() == rounds,
    {
        Agent { rounds_left: rounds }
    }

    /// Deals the next round to smoker `pick`: returns it, or `None` once
    /// all rounds were dealt.
    pub fn deal(&mut self, pick: usize) -> (chosen: Option<usize>)
        requires
            pick < N_SMOKERS,
        ensures
            old(self).spec_rounds_left() == 0 ==> chosen is None && final(self).spec_rounds_left() == 0,
            old(self).spec_rounds_left() > 0 ==> chosen == Some(pick)
                && final(self).spec_rounds_left() == old(self).spec_rounds_left() - 1,
    {
        if self.rounds_left == 0 {
            None
        } else {
            self.rounds_left = self.rounds_left - 1;
            Some(pick)
        }
    }

    /// The agent's decision for the next round: which smoker lacks the two
    /// ingredients put on the table, chosen at random, or `None` once all
    /// rounds were dealt.
    pub fn next_round(&mut self) -> (chosen: Option<usize>)
        ensures
            old(self).spec_rounds_left() == 0 ==> chosen is None && final(self).spec_rounds_left() == 0,
            old(self).spec_rounds_left() > 0 ==> chosen is Some && chosen.unwrap() < N_SMOKERS
                && final(self).spec_rounds_left() == old(self).spec_rounds_left() - 1,
    {
        let pick = random_index(N_SMOKERS);
        self.deal(pick)
    }

    pub fn rounds_left(&self) -> (n: usize)
        ensures
            n as nat == self.spec_rounds_left(),
    {
        self.rounds_left
    }
}

/// The sum of the first `n` entries of `s`.
pub open spec fn sum_prefix(s: Seq<usize>, n: int) -> int
    decreases n,
{
    if n <= 0 { 0 } else { sum_prefix(s, n - 1) + s[n - 1] }
}

proof fn lemma_sum_update(s: Seq<usize>, n: int, i: int, v: usize)
    requires
        0 <= i < s.len(),
        0 <= n <= s.len(),
    ensures
        sum_prefix(s.update(i, v), n) == sum_prefix(s, n) + if i < n { v - s[i] } else { 0 },
    decreases n,
{
    if n > 0 {
        lemma_sum_update(s, n - 1, i, v);
    }
}

/// The table of the cigarette-smokers problem: the smoker the agent dealt
/// the current round to (until the agent hears it is done), whether that
/// smoker has finished, how many smoke right now, the most that ever smoked
/// together, how often each smoker smoked, and how many rounds were dealt.
pub struct SmokeLog {
    dealt: Option<usize>,
    finished: bool,
    smoking: usize,
    peak: usize,
    counts: [usize; N_SMOKERS],
    rounds: Ghost<nat>,
}

/// The mathematical state of a `SmokeLog`.
pub struct SmokeView {
    pub dealt: Option<usize>,
    pub finished: bool,
    pub smoking: nat,
    pub peak: nat,
    pub counts: Seq<usize>,
    pub rounds: nat,
}

impl SmokeView {
    /// Only the smoker of the open round smokes, at most once, and every
    /// round dealt was smoked once it is closed.
    pub open spec fn inv(self) -> bool {
        &&& self.counts.len() == N_SMOKERS
        &&& self.smoking <= 1
        &&& self.smoking <= self.peak <= 1
        &&& self.smoking == 1 ==> self.dealt is Some && !self.finished
        &&& self.dealt is Some ==> self.dealt->0 < N_SMOKERS
        &&& sum_prefix(self.counts, N_SMOKERS as int) + (if self.dealt is Some && !self.finished {
            1int
        } else {
            0int
        }) == self.rounds
    }
}

impl View for SmokeLog {
    type V = SmokeView;

    closed spec fn view(&self) -> SmokeView {
        SmokeView {
            dealt: self.dealt,
            finished: self.finished,
            smoking: self.smoking as nat,
            peak: self.peak as nat,
            counts: self.counts@,
            rounds: self.rounds@,
        }
    }
}

impl SmokeLog {
    pub fn new() -> (l: SmokeLog)
        ensures
            l@.inv(),
            l@.dealt is None,
            l@.smoking == 0,
            l@.peak == 0,
            l@.counts == Seq::new(N_SMOKERS as nat, |i: int| 0usize),
            l@.rounds == 0,
    {
        let l = SmokeLog {
            dealt: None,
            finished: false,
            smoking: 0,
            peak: 0,
            counts: [0usize; N_SMOKERS],
            rounds: Ghost(0),
        };
        assert(l@.counts =~= Seq::new(N_SMOKERS as nat, |i: int| 0usize));
        assert(sum_prefix(l@.counts, 3) == 0) by {
            assert(sum_prefix(l@.counts, 0) == 0);
            assert(l@.counts[0] == 0);
            assert(sum_prefix(l@.counts, 1) == 0);
            assert(sum_prefix(l@.counts, 2) == 0);
        }
        l
    }

    /// The agent opens a round for smoker `id`.
    pub fn deal(&mut self, id: usize)
        requires
            old(self)@.inv(),
            old(self)@.dealt is None,
            id < N_SMOKERS,
        ensures
            final(self)@.inv(),
            final(self)@ == (SmokeView {
                dealt: Some(id),
                finished: false,
                rounds: old(self)@.rounds + 1,
                ..old(self)@
            }),
    {
        self.dealt = Some(id);
        self.finished = false;
        proof {
            self.rounds@ = self.rounds@ + 1;
        }
    }

    /// Smoker `id`, who was dealt the open round, lights up; returns how
    /// many smoke now, which is always one.
    pub fn start(&mut self, id: usize) -> (now: usize)
        requires
            old(self)@.inv(),
            old(self)@.dealt == Some(id),
            !old(self)@.finished,
            old(self)@.smoking == 0,
        ensures
            final(self)@.inv(),
            now == 1,
            final(self)@ == (SmokeView { smoking: 1, peak: 1, ..old(self)@ }),
    {
        self.smoking = self.smoking + 1;
        if self.smoking > self.peak {
            self.peak = self.smoking;
        }
        self.smoking
    }

    /// Smoker `id` finishes the open round.
    pub fn finish(&mut self, id: usize)
        requires
            old(self)@.inv(),
            old(self)@.dealt == Some(id),
            old(self)@.smoking > 0,
            old(self)@.counts[id as int] < usize::MAX,
        ensures
            final(self)@.inv(),
            final(self)@ == (SmokeView {
                smoking: 0,
                finished: true,
                counts: old(self)@.counts.update(id as int, (old(self)@.counts[id as int] + 1) as usize),
                ..old(self)@
            }),
    {
        proof {
            lemma_sum_update(self@.counts, N_SMOKERS as int, id as int, (self@.counts[id as int] + 1) as usize);
        }
        self.smoking = self.smoking - 1;
        self.finished = true;
        self.counts[id] = self.counts[id] + 1;
        assert(self@.counts =~= old(self)@.counts.update(id as int, (old(self)@.counts[id as int] + 1) as usize));
    }

    /// The agent hears the open round is done and closes it.
    pub fn collect(&mut self)
        requires
            old(self)@.inv(),
            old(self)@.dealt is Some,
            old(self)@.finished,
        ensures
            final(self)@.inv(),
            final(self)@ == (SmokeView { dealt: None, ..old(self)@ }),
    {
        self.dealt = None;
    }

    /// The smoker the open round was dealt to, if a round is open.
    pub fn dealt(&self) -> (d: Option<usize>)
        ensures
            d == self@.dealt,
    {
        self.dealt
    }

    /// Whether the smoker of the open round has finished.
    pub fn finished(&self) -> (f: bool)
        ensures
            f == self@.finished,
    {
        self.finished
    }

    pub fn smoking(&self) -> (n: usize)
        ensures
            n as nat == self@.smoking,
    {
        self.smoking
    }

    pub fn count_of(&self, id: usize) -> (c: usize)
        requires
            id < N_SMOKERS,
        ensures
            c == self@.counts[id as int],
    {
        self.counts[id]
    }

    /// Total number of smokes, all smokers together.
    pub fn total(&self) -> (t: u128)
        ensures
            t as int == sum_prefix(self@.counts, N_SMOKERS as int),
    {
        let a = self.counts[0] as u128;
        let b = self.counts[1] as u128;
        let c = self.counts[2] as u128;
        proof {
            assert(sum_prefix(self@.counts, 3) == self@.counts[0] + self@.counts[1] + self@.counts[2]) by {
                assert(sum_prefix(self@.counts, 0) == 0);
                assert(sum_prefix(self@.counts, 1) == self@.counts[0]);
                assert(sum_prefix(self@.counts, 2) == self@.counts[0] + self@.counts[1]);
            }
        }
        a + b + c
    }

    pub fn peak(&self) -> (p: usize)
        ensures
            p as nat == self@.peak,
    {
        self.peak
    }
}

/// Law: never more than one smoker smokes at a time, and whenever no round
/// is open, the smokes of all smokers add up to the rounds dealt.
pub proof fn lemma_one_smoker_at_a_time(s: SmokeView)
    requires
        s.inv(),
    ensures
        s.smoking <= 1,
        s.peak <= 1,
        s.dealt is None ==> sum_prefix(s.counts, N_SMOKERS as int) == s.rounds,
{
}

} // verus!
