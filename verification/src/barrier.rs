use vstd::prelude::*;

verus! {

/// A reusable barrier kept as an arrival count and a generation number:
/// the last of `expected` arrivals resets the count and starts a new
/// generation, which releases everybody waiting on the old one.
pub struct MyBarrier {
    expected: usize,
    count: usize,
    generation: usize,
}

/// The mathematical state of a `MyBarrier`.
pub struct BarrierView {
    pub expected: nat,
    pub count: nat,
    pub generation: nat,
}

impl BarrierView {
    /// Fewer than `expected` callers are waiting in the current generation.
    pub open spec fn inv(self) -> bool {
        self.expected > 0 ==> self.count < self.expected
    }

    /// One more caller arrives.
    pub open spec fn after_arrive(self) -> BarrierView {
        if self.count + 1 == self.expected {
            BarrierView { count: 0, generation: self.generation + 1, ..self }
        } else {
            BarrierView { count: self.count + 1, ..self }
        }
    }

    /// `n` more callers arrive, one after the other.
    pub open spec fn after_arrivals(self, n: nat) -> BarrierView
        decreases n,
    {
        if n == 0 {
            self
        } else {
            self.after_arrive().after_arrivals((n - 1) as nat)
        }
    }
}

impl View for MyBarrier {
    type V = BarrierView;

    closed spec fn view(&self) -> BarrierView {
        BarrierView {
            expected: self.expected as nat,
            count: self.count as nat,
            generation: self.generation as nat,
        }
    }
}

impl MyBarrier {
    /// A barrier for groups of `expected` callers.
    pub fn new(expected: usize) -> (b: MyBarrier)
        ensures
            b@ == (BarrierView { expected: expected as nat, count: 0, generation: 0 }),
            b@.inv(),
    {
        MyBarrier { expected, count: 0, generation: 0 }
    }

    /// Registers one arrival.  Returns the generation the caller has to wait
    /// out (see `is_released`) and whether this arrival completed the group,
    /// in which case every waiter has to be woken.
    pub fn arrive_and_wait(&mut self) -> (r: (usize, bool))
        requires
            old(self)@.inv(),
            old(self)@.count < usize::MAX,
            old(self)@.generation < usize::MAX,
        ensures
            final(self)@ == old(self)@.after_arrive(),
            final(self)@.inv(),
            r.0 as nat == old(self)@.generation,
            r.1 == (old(self)@.count + 1 == old(self)@.expected),
    {
        let gen = self.generation;
        self.count = self.count + 1;
        if self.count == self.expected {
            self.count = 0;
            self.generation = self.generation + 1;
            (gen, true)
        } else {
            (gen, false)
        }
    }

    /// Whether callers that arrived in generation `gen` may leave.
    pub fn is_released(&self, gen: usize) -> (r: bool)
        ensures
            r == (self@.generation != gen as nat),
    {
        self.generation != gen
    }

    pub fn count(&self) -> (c: usize)
        ensures
            c as nat == self@.count,
    {
        self.count
    }

    pub fn generation(&self) -> (g: usize)
        ensures
            g as nat == self@.generation,
    {
        self.generation
    }
}

/// Law: an arrival raises the count by exactly one, unless it is the
/// `expected`-th, which empties the count and moves to the next generation;
/// the group size never changes.
pub proof fn lemma_arrival_step(s: BarrierView)
    ensures
        s.count + 1 != s.expected ==> s.after_arrive().count == s.count + 1
            && s.after_arrive().generation == s.generation,
        s.count + 1 == s.expected ==> s.after_arrive().count == 0
            && s.after_arrive().generation == s.generation + 1,
        s.after_arrive().expected == s.expected,
{
}

/// Law: fewer than `expected` arrivals release nobody, and the
/// `expected`-th arrival opens exactly one new generation and leaves the
/// barrier empty again, ready for the next round.
pub proof fn lemma_one_round(s: BarrierView, n: nat)
    requires
        s.inv(),
        s.expected > 0,
        s.count == 0,
        n <= s.expected,
    ensures
        n < s.expected ==> s.after_arrivals(n) == (BarrierView { count: n, ..s }),
        n == s.expected ==> s.after_arrivals(n) == (BarrierView {
            count: 0,
            generation: s.generation + 1,
            ..s
        }),
    decreases n,
{
    lemma_partial_round(s, n);
}

proof fn lemma_partial_round(s: BarrierView, n: nat)
    requires
        s.count < s.expected,
        s.count + n <= s.expected,
    ensures
        s.count + n < s.expected ==> s.after_arrivals(n) == (BarrierView {
            count: s.count + n,
            ..s
        }),
        s.count + n == s.expected ==> s.after_arrivals(n) == (BarrierView {
            count: 0,
            generation: s.generation + 1,
            ..s
        }),
    decreases n,
{
    if n > 0 {
        let t = s.after_arrive();
        if s.count + 1 == s.expected {
            assert(n == 1);
            assert(t.after_arrivals(0) == t);
        } else {
            lemma_partial_round(t, (n - 1) as nat);
        }
    }
}

/// A reusable barrier built from two turnstiles that the last arrival of
/// each phase preloads with one permit per caller.  Besides the arrival
/// count and the two turnstiles it counts the callers in each phase: waiting
/// at the first turnstile, between the turnstiles, waiting at the second
/// turnstile, and idle (between two calls).
pub struct MyBarrierTokio {
    expected: usize,
    count: usize,
    t1: usize,
    t2: usize,
    at_first: usize,
    between: usize,
    at_second: usize,
    idle: usize,
}

/// The mathematical state of a `MyBarrierTokio`.
pub struct TurnstileView {
    pub expected: nat,
    pub count: nat,
    pub t1: nat,
    pub t2: nat,
    pub at_first: nat,
    pub between: nat,
    pub at_second: nat,
    pub idle: nat,
}

impl TurnstileView {
    /// The `expected` callers are each in one phase, and the barrier is in
    /// one of two modes.  While callers gather for a round, the first
    /// turnstile is empty and the second holds one permit per caller still
    /// waiting at it from the last round.  Once all have gathered, the
    /// second turnstile is empty, nobody is idle, and the first holds one
    /// permit per caller waiting at it.
    pub open spec fn inv(self) -> bool {
        &&& self.expected > 0
        &&& self.at_first + self.between + self.at_second + self.idle == self.expected
        &&& self.count == self.at_first + self.between
        &&& {
            ||| (self.between == 0 && self.t1 == 0 && self.t2 == self.at_second && self.at_first
                < self.expected)
            ||| (self.idle == 0 && self.t2 == 0 && self.t1 == self.at_first && self.at_first
                + self.between > 0)
        }
    }

    /// Phase one: an idle caller arrives; the last one fills the first
    /// turnstile.
    pub open spec fn after_gather(self) -> TurnstileView {
        let s = TurnstileView {
            count: self.count + 1,
            at_first: self.at_first + 1,
            idle: (self.idle - 1) as nat,
            ..self
        };
        if self.count + 1 == self.expected {
            TurnstileView { t1: self.t1 + self.expected, ..s }
        } else {
            s
        }
    }

    /// A caller takes a permit of the first turnstile.
    pub open spec fn after_pass_first(self) -> TurnstileView {
        TurnstileView {
            t1: (self.t1 - 1) as nat,
            at_first: (self.at_first - 1) as nat,
            between: self.between + 1,
            ..self
        }
    }

    /// Phase two: a caller departs; the last one fills the second turnstile.
    pub open spec fn after_disperse(self) -> TurnstileView
        recommends
            self.count > 0,
    {
        let s = TurnstileView {
            count: (self.count - 1) as nat,
            between: (self.between - 1) as nat,
            at_second: self.at_second + 1,
            ..self
        };
        if self.count == 1 {
            TurnstileView { t2: self.t2 + self.expected, ..s }
        } else {
            s
        }
    }

    /// A caller takes a permit of the second turnstile and is done.
    pub open spec fn after_pass_second(self) -> TurnstileView {
        TurnstileView {
            t2: (self.t2 - 1) as nat,
            at_second: (self.at_second - 1) as nat,
            idle: self.idle + 1,
            ..self
        }
    }

    pub open spec fn gathers(self, n: nat) -> TurnstileView
        decreases n,
    {
        if n == 0 {
            self
        } else {
            self.after_gather().gathers((n - 1) as nat)
        }
    }

    pub open spec fn passes_first(self, n: nat) -> TurnstileView
        decreases n,
    {
        if n == 0 {
            self
        } else {
            self.after_pass_first().passes_first((n - 1) as nat)
        }
    }

    pub open spec fn disperses(self, n: nat) -> TurnstileView
        decreases n,
    {
        if n == 0 {
            self
        } else {
            self.after_disperse().disperses((n - 1) as nat)
        }
    }

    pub open spec fn passes_second(self, n: nat) -> TurnstileView
        decreases n,
    {
        if n == 0 {
            self
        } else {
            self.after_pass_second().passes_second((n - 1) as nat)
        }
    }
}

impl View for MyBarrierTokio {
    type V = TurnstileView;

    closed spec fn view(&self) -> TurnstileView {
        TurnstileView {
            expected: self.expected as nat,
            count: self.count as nat,
            t1: self.t1 as nat,
            t2: self.t2 as nat,
            at_first: self.at_first as nat,
            between: self.between as nat,
            at_second: self.at_second as nat,
            idle: self.idle as nat,
        }
    }
}

impl MyBarrierTokio {
    /// A barrier for groups of `expected` callers, all idle, both
    /// turnstiles closed.
    pub fn new(expected: usize) -> (b: MyBarrierTokio)
        ensures
            b@ == (TurnstileView {
                expected: expected as nat,
                count: 0,
                t1: 0,
                t2: 0,
                at_first: 0,
                between: 0,
                at_second: 0,
                idle: expected as nat,
            }),
            expected > 0 ==> b@.inv(),
    {
        MyBarrierTokio {
            expected,
            count: 0,
            t1: 0,
            t2: 0,
            at_first: 0,
            between: 0,
            at_second: 0,
            idle: expected,
        }
    }

    /// Phase one of `arrive_and_wait`: counts an idle caller in; the last
    /// one preloads the first turnstile.  Returns whether it did.
    pub fn arrive_and_wait(&mut self) -> (filled: bool)
        requires
            old(self)@.inv(),
            old(self)@.idle > 0,
            old(self)@.t1 + old(self)@.expected <= usize::MAX,
        ensures
            final(self)@ == old(self)@.after_gather(),
            final(self)@.inv(),
            filled == (old(self)@.count + 1 == old(self)@.expected),
    {
        self.count = self.count + 1;
        self.at_first = self.at_first + 1;
        self.idle = self.idle - 1;
        if self.count == self.expected {
            self.t1 = self.t1 + self.expected;
            true
        } else {
            false
        }
    }

    /// Whether one more arrival and one more departure can be counted with
    /// their turnstile refills.
    pub fn fits_round(&self) -> (r: bool)
        ensures
            r == (self@.count < usize::MAX && self@.t1 + self@.expected <= usize::MAX && self@.t2
                + self@.expected <= usize::MAX),
    {
        self.count < usize::MAX && self.t1 <= usize::MAX - self.expected && self.t2 <= usize::MAX
            - self.expected
    }

    pub fn count(&self) -> (c: usize)
        ensures
            c as nat == self@.count,
    {
        self.count
    }

    /// Callers waiting at the first turnstile.
    pub fn at_first(&self) -> (n: usize)
        ensures
            n as nat == self@.at_first,
    {
        self.at_first
    }

    /// Callers between the two turnstiles.
    pub fn between(&self) -> (n: usize)
        ensures
            n as nat == self@.between,
    {
        self.between
    }

    /// Callers waiting at the second turnstile.
    pub fn at_second(&self) -> (n: usize)
        ensures
            n as nat == self@.at_second,
    {
        self.at_second
    }

    /// Callers not inside a call.
    pub fn idle(&self) -> (n: usize)
        ensures
            n as nat == self@.idle,
    {
        self.idle
    }

    /// A caller waiting at the first turnstile takes one of its permits if
    /// there is one.
    pub fn try_pass_first(&mut self) -> (passed: bool)
        requires
            old(self)@.inv(),
            old(self)@.at_first > 0,
        ensures
            final(self)@.inv(),
            passed == (old(self)@.t1 > 0),
            passed ==> final(self)@ == old(self)@.after_pass_first(),
            !passed ==> final(self)@ == old(self)@,
    {
        if self.t1 > 0 {
            self.t1 = self.t1 - 1;
            self.at_first = self.at_first - 1;
            self.between = self.between + 1;
            true
        } else {
            false
        }
    }

    /// Phase two: a caller between the turnstiles counts itself out; the
    /// last one preloads the second turnstile.  Returns whether it did.
    pub fn depart(&mut self) -> (filled: bool)
        requires
            old(self)@.inv(),
            old(self)@.between > 0,
            old(self)@.t2 + old(self)@.expected <= usize::MAX,
        ensures
            final(self)@ == old(self)@.after_disperse(),
            final(self)@.inv(),
            filled == (old(self)@.count == 1),
    {
        self.count = self.count - 1;
        self.between = self.between - 1;
        self.at_second = self.at_second + 1;
        if self.count == 0 {
            self.t2 = self.t2 + self.expected;
            true
        } else {
            false
        }
    }

    /// A caller waiting at the second turnstile takes one of its permits if
    /// there is one, and is done.
    pub fn try_pass_second(&mut self) -> (passed: bool)
        requires
            old(self)@.inv(),
            old(self)@.at_second > 0,
        ensures
            final(self)@.inv(),
            passed == (old(self)@.t2 > 0),
            passed ==> final(self)@ == old(self)@.after_pass_second(),
            !passed ==> final(self)@ == old(self)@,
    {
        if self.t2 > 0 {
            self.t2 = self.t2 - 1;
            self.at_second = self.at_second - 1;
            self.idle = self.idle + 1;
            true
        } else {
            false
        }
    }
}

/// Law: each step of the turnstile barrier moves exactly one caller from
/// one phase to the next; the last arrival adds one permit per caller to the
/// first turnstile and the last departure one per caller to the second,
/// and passing a turnstile takes exactly one permit.
pub proof fn lemma_turnstile_steps(s: TurnstileView)
    ensures
        s.after_gather().count == s.count + 1,
        s.after_gather().at_first == s.at_first + 1,
        s.idle > 0 ==> s.after_gather().idle == s.idle - 1,
        s.after_gather().t1 == (if s.count + 1 == s.expected { s.t1 + s.expected } else { s.t1 }),
        s.after_gather().t2 == s.t2,
        s.t1 > 0 && s.at_first > 0 ==> s.after_pass_first().t1 == s.t1 - 1
            && s.after_pass_first().at_first == s.at_first - 1
            && s.after_pass_first().between == s.between + 1,
        s.count > 0 && s.between > 0 ==> s.after_disperse().count == s.count - 1
            && s.after_disperse().between == s.between - 1
            && s.after_disperse().at_second == s.at_second + 1
            && s.after_disperse().t2 == (if s.count == 1 { s.t2 + s.expected } else { s.t2 })
            && s.after_disperse().t1 == s.t1,
        s.t2 > 0 && s.at_second > 0 ==> s.after_pass_second().t2 == s.t2 - 1
            && s.after_pass_second().at_second == s.at_second - 1
            && s.after_pass_second().idle == s.idle + 1,
{
}

/// Law (rounds do not mix): every permit in a turnstile belongs to a caller
/// waiting at it, and while any caller is idle or gathering for the next
/// round the first turnstile is empty, so no caller gets through it on a
/// permit of another round.
pub proof fn lemma_rounds_separate(s: TurnstileView)
    requires
        s.inv(),
    ensures
        s.t1 <= s.at_first,
        s.t2 <= s.at_second,
        s.idle > 0 ==> s.t1 == 0,
        s.t1 > 0 ==> s.idle == 0 && s.at_first + s.between == s.expected - s.at_second,
{
}

proof fn lemma_gathers(s: TurnstileView, n: nat)
    requires
        s.count + n <= s.expected,
        n <= s.idle,
    ensures
        s.gathers(n) == (TurnstileView {
            count: s.count + n,
            at_first: s.at_first + n,
            idle: (s.idle - n) as nat,
            t1: if s.count + n == s.expected && n > 0 { s.t1 + s.expected } else { s.t1 },
            ..s
        }),
    decreases n,
{
    if n > 0 {
        lemma_gathers(s.after_gather(), (n - 1) as nat);
    }
}

proof fn lemma_passes_first(s: TurnstileView, n: nat)
    requires
        n <= s.t1,
        n <= s.at_first,
    ensures
        s.passes_first(n) == (TurnstileView {
            t1: (s.t1 - n) as nat,
            at_first: (s.at_first - n) as nat,
            between: s.between + n,
            ..s
        }),
    decreases n,
{
    if n > 0 {
        lemma_passes_first(s.after_pass_first(), (n - 1) as nat);
    }
}

proof fn lemma_disperses(s: TurnstileView, n: nat)
    requires
        n <= s.count,
        n <= s.between,
    ensures
        s.disperses(n) == (TurnstileView {
            count: (s.count - n) as nat,
            between: (s.between - n) as nat,
            at_second: s.at_second + n,
            t2: if n == s.count && n > 0 { s.t2 + s.expected } else { s.t2 },
            ..s
        }),
    decreases n,
{
    if n > 0 {
        lemma_disperses(s.after_disperse(), (n - 1) as nat);
    }
}

proof fn lemma_passes_second(s: TurnstileView, n: nat)
    requires
        n <= s.t2,
        n <= s.at_second,
    ensures
        s.passes_second(n) == (TurnstileView {
            t2: (s.t2 - n) as nat,
            at_second: (s.at_second - n) as nat,
            idle: s.idle + n,
            ..s
        }),
    decreases n,
{
    if n > 0 {
        lemma_passes_second(s.after_pass_second(), (n - 1) as nat);
    }
}

/// Law: one round, run in order from a barrier where everybody is idle and
/// both turnstiles are empty, lets exactly `expected` callers through each
/// turnstile, consumes every permit it put in, and leaves the barrier as it
/// found it, ready for the next round.
pub proof fn lemma_turnstile_round(s: TurnstileView)
    requires
        s.inv(),
        s.idle == s.expected,
        s.t1 == 0,
        s.t2 == 0,
    ensures
        s.gathers(s.expected).t1 == s.expected,
        s.gathers(s.expected).passes_first(s.expected).disperses(s.expected).t2 == s.expected,
        s.gathers(s.expected).passes_first(s.expected).disperses(s.expected).passes_second(
            s.expected,
        ) == s,
{
    let n = s.expected;
    lemma_gathers(s, n);
    let g = s.gathers(n);
    lemma_passes_first(g, n);
    let p = g.passes_first(n);
    lemma_disperses(p, n);
    let d = p.disperses(n);
    lemma_passes_second(d, n);
}

/// The sum `0 + 1 + ... + (n - 1)`.
pub open spec fn triangle(n: nat) -> nat
    decreases n,
{
    if n == 0 { 0 } else { ((n - 1) + triangle((n - 1) as nat)) as nat }
}

/// The busy work a worker does between two barriers: adds up `0..1000`.
pub fn pretend_work() -> (x: u64)
    ensures
        x == triangle(1000),
        x == 499500,
{
    let mut x: u64 = 0;
    let mut i: u64 = 0;
    while i < 1000
        invariant
            i <= 1000,
            x == triangle(i as nat),
            x <= i * 1000,
        decreases 1000 - i,
    {
        x = x + i;
        i = i + 1;
    }
    proof {
        lemma_triangle(1000);
    }
    x
}

proof fn lemma_triangle(n: nat)
    ensures
        2 * triangle(n) == n * (n - 1),
    decreases n,
{
    if n == 0 {
        assert(n * (n - 1) == 0) by (nonlinear_arith)
            requires
                n == 0,
        ;
    } else {
        let m = (n - 1) as nat;
        lemma_triangle(m);
        assert(2 * triangle(n) == 2 * m + m * (m - 1));
        assert(2 * m + m * (m - 1) == n * (n - 1)) by (nonlinear_arith)
            requires
                m == n - 1,
        ;
    }
}

/// The witness that workers keep beside the barrier: the round everybody
/// should be in, and how many workers have checked in for it.
pub struct RoundTracker {
    round: usize,
    arrived: usize,
}

/// The mathematical state of a `RoundTracker`.
pub struct RoundView {
    pub round: nat,
    pub arrived: nat,
}

impl View for RoundTracker {
    type V = RoundView;

    closed spec fn view(&self) -> RoundView {
        RoundView { round: self.round as nat, arrived: self.arrived as nat }
    }
}

impl RoundTracker {
    pub fn new() -> (t: RoundTracker)
        ensures
            t@ == (RoundView { round: 0, arrived: 0 }),
    {
        RoundTracker { round: 0, arrived: 0 }
    }

    pub fn arrived(&self) -> (n: usize)
        ensures
            n as nat == self@.arrived,
    {
        self.arrived
    }

    /// Whether a worker in round `r` sees the round it expects.
    pub fn observe(&self, r: usize) -> (ok: bool)
        ensures
            ok == (self@.round == r as nat),
    {
        self.round == r
    }

    /// A worker in round `r` checks in; the last of `n_threads` moves the
    /// tracker on to round `r + 1`.  Returns whether this check-in did.
    pub fn check_in(&mut self, r: usize, n_threads: usize) -> (advanced: bool)
        requires
            old(self)@.arrived < usize::MAX,
            r < usize::MAX,
        ensures
            advanced == (old(self)@.arrived + 1 == n_threads),
            advanced ==> final(self)@ == (RoundView { round: (r + 1) as nat, arrived: 0 }),
            !advanced ==> final(self)@ == (RoundView { arrived: old(self)@.arrived + 1, ..old(self)@ }),
    {
        self.arrived = self.arrived + 1;
        if self.arrived == n_threads {
            self.arrived = 0;
            self.round = r + 1;
            true
        } else {
            false
        }
    }
}

} // verus!
