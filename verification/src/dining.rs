use vstd::prelude::*;

verus! {

/// Number of philosophers (and of chopsticks) around the table.
pub const N: usize = 5;

/// Philosopher states, as stored in a `u8`.
pub const THINKING: u8 = 0;
pub const HUNGRY: u8 = 1;
pub const EATING: u8 = 2;

/// Index of the left neighbour of philosopher `pid`.
pub open spec fn left_of(pid: int) -> int {
    (pid + N - 1) % (N as int)
}

/// Index of the right neighbour of philosopher `pid`.
pub open spec fn right_of(pid: int) -> int {
    (pid + 1) % (N as int)
}

/// No two philosophers who sit next to each other are eating.
pub open spec fn no_adjacent_eaters(s: Seq<u8>) -> bool {
    forall|i: int| 0 <= i < N ==> !(#[trigger] s[i] == EATING && s[right_of(i)] == EATING)
}

/// Philosopher `pid` may eat in state `s`: it is hungry and neither
/// neighbour is eating.
pub open spec fn may_start_eating(s: Seq<u8>, pid: int) -> bool {
    s[pid] == HUNGRY && s[left_of(pid)] != EATING && s[right_of(pid)] != EATING
}

/// The Tanenbaum `test`: a hungry philosopher whose neighbours are not
/// eating starts eating.
pub open spec fn test_spec(s: Seq<u8>, pid: int) -> Seq<u8> {
    if may_start_eating(s, pid) { s.update(pid, EATING) } else { s }
}

/// `take_forks`: become hungry, then test oneself.
pub open spec fn take_forks_spec(s: Seq<u8>, pid: int) -> Seq<u8> {
    test_spec(s.update(pid, HUNGRY), pid)
}

/// `put_forks`: go back to thinking, then test both neighbours.
pub open spec fn put_forks_spec(s: Seq<u8>, pid: int) -> Seq<u8> {
    let s1 = s.update(pid, THINKING);
    let s2 = test_spec(s1, left_of(pid));
    test_spec(s2, right_of(pid))
}

pub fn left(pid: usize) -> (l: usize)
    requires
        pid < N,
    ensures
        l as int == left_of(pid as int),
        l < N,
{
    (pid + N - 1) % N
}

pub fn right(pid: usize) -> (r: usize)
    requires
        pid < N,
    ensures
        r as int == right_of(pid as int),
        r < N,
{
    (pid + 1) % N
}

/// A state change by `test` keeps the table safe.
pub proof fn lemma_test_safe(s: Seq<u8>, pid: int)
    requires
        s.len() == N,
        0 <= pid < N,
        no_adjacent_eaters(s),
    ensures
        no_adjacent_eaters(test_spec(s, pid)),
        test_spec(s, pid).len() == N,
{
    let t = test_spec(s, pid);
    assert forall|i: int| 0 <= i < N implies !(#[trigger] t[i] == EATING && t[right_of(i)]
        == EATING) by {
        if may_start_eating(s, pid) {
            if i == pid {
            } else if right_of(i) == pid {
                assert(i == left_of(pid));
            } else {
                assert(t[i] == s[i]);
                assert(t[right_of(i)] == s[right_of(i)]);
                assert(!(s[i] == EATING && s[right_of(i)] == EATING));
            }
        }
    }
}

/// Marking a philosopher as not eating keeps the table safe.
pub proof fn lemma_stop_eating_safe(s: Seq<u8>, pid: int, v: u8)
    requires
        s.len() == N,
        0 <= pid < N,
        v != EATING,
        no_adjacent_eaters(s),
    ensures
        no_adjacent_eaters(s.update(pid, v)),
{
    let t = s.update(pid, v);
    assert forall|i: int| 0 <= i < N implies !(#[trigger] t[i] == EATING && t[right_of(i)]
        == EATING) by {
        if i != pid && right_of(i) != pid {
            assert(!(s[i] == EATING && s[right_of(i)] == EATING));
        }
    }
}

/// Law (the Tanenbaum test): a hungry philosopher whose two neighbours are
/// not eating starts eating, and in every other case nobody's state
/// changes; the test never touches anyone but the philosopher tested.
pub proof fn lemma_test_decides(s: Seq<u8>, pid: int)
    requires
        s.len() == N,
        0 <= pid < N,
    ensures
        (s[pid] == HUNGRY && s[left_of(pid)] != EATING && s[right_of(pid)] != EATING)
            ==> test_spec(s, pid)[pid] == EATING,
        !(s[pid] == HUNGRY && s[left_of(pid)] != EATING && s[right_of(pid)] != EATING)
            ==> test_spec(s, pid) == s,
        forall|i: int| 0 <= i < N && i != pid ==> test_spec(s, pid)[i] == s[i],
        test_spec(s, pid).len() == N,
{
}

/// Law: after `take_forks`, the philosopher eats exactly when neither
/// neighbour eats, and otherwise waits hungry; nobody else changes.
pub proof fn lemma_take_forks_decides(s: Seq<u8>, pid: int)
    requires
        s.len() == N,
        0 <= pid < N,
    ensures
        take_forks_spec(s, pid)[pid] == (if s[left_of(pid)] != EATING && s[right_of(pid)]
            != EATING {
            EATING
        } else {
            HUNGRY
        }),
        forall|i: int| 0 <= i < N && i != pid ==> take_forks_spec(s, pid)[i] == s[i],
{
}

/// Law: after `put_forks` the philosopher thinks, and each neighbour that
/// was hungry eats exactly when its own other neighbour is not eating.
pub proof fn lemma_put_forks_wakes(s: Seq<u8>, pid: int)
    requires
        s.len() == N,
        0 <= pid < N,
    ensures
        put_forks_spec(s, pid)[pid] == THINKING,
        s[left_of(pid)] == HUNGRY && s[left_of(left_of(pid))] != EATING
            ==> put_forks_spec(s, pid)[left_of(pid)] == EATING,
        s[right_of(pid)] == HUNGRY && s[right_of(right_of(pid))] != EATING
            ==> put_forks_spec(s, pid)[right_of(pid)] == EATING,
        forall|i: int|
            0 <= i < N && i != pid && i != left_of(pid) && i != right_of(pid) ==> put_forks_spec(
                s,
                pid,
            )[i] == s[i],
{
    let s1 = s.update(pid, THINKING);
    let s2 = test_spec(s1, left_of(pid));
    assert(right_of(right_of(pid)) != left_of(pid));
    assert(s2[right_of(right_of(pid))] == s[right_of(right_of(pid))]);
    assert(s2[right_of(pid)] == s[right_of(pid)]);
}

/// Law: a hungry philosopher's `take_forks` never lets two neighbours eat
/// together.
pub proof fn lemma_take_forks_safe(s: Seq<u8>, pid: int)
    requires
        s.len() == N,
        0 <= pid < N,
        no_adjacent_eaters(s),
    ensures
        no_adjacent_eaters(take_forks_spec(s, pid)),
{
    lemma_stop_eating_safe(s, pid, HUNGRY);
    lemma_test_safe(s.update(pid, HUNGRY), pid);
}

/// Law: `put_forks` never lets two neighbours eat together.
pub proof fn lemma_put_forks_safe(s: Seq<u8>, pid: int)
    requires
        s.len() == N,
        0 <= pid < N,
        no_adjacent_eaters(s),
    ensures
        no_adjacent_eaters(put_forks_spec(s, pid)),
{
    let s1 = s.update(pid, THINKING);
    lemma_stop_eating_safe(s, pid, THINKING);
    lemma_test_safe(s1, left_of(pid));
    lemma_test_safe(test_spec(s1, left_of(pid)), right_of(pid));
}

/// The state that the Tanenbaum strategy keeps under its own lock,
/// apart from the witness states that the harness checks.
pub struct SharedTokio {
    algo_states: [u8; N],
}

impl View for SharedTokio {
    type V = Seq<u8>;

    closed spec fn view(&self) -> Seq<u8> {
        self.algo_states@
    }
}

impl SharedTokio {
    /// Everybody thinking.
    pub fn new() -> (s: SharedTokio)
        ensures
            s@ == Seq::new(N as nat, |i: int| THINKING),
            s@.len() == N,
            no_adjacent_eaters(s@),
    {
        let s = SharedTokio { algo_states: [THINKING; N] };
        assert(s@ =~= Seq::new(N as nat, |i: int| THINKING));
        s
    }

    pub fn state_of(&self, pid: usize) -> (st: u8)
        requires
            pid < N,
        ensures
            self@.len() == N,
            st == self@[pid as int],
    {
        self.algo_states[pid]
    }

    /// Whether philosopher `pid` may be eating in the strategy's own state:
    /// neither neighbour eats.
    pub fn check_invariant(&self, pid: usize) -> (ok: bool)
        requires
            pid < N,
        ensures
            ok == (self@[left_of(pid as int)] != EATING && self@[right_of(pid as int)] != EATING),
    {
        let l = left(pid);
        let r = right(pid);
        self.algo_states[l] != EATING && self.algo_states[r] != EATING
    }

    /// Lets `pid` eat if it is hungry and neither neighbour eats; returns
    /// whether it did, which is when `pid` has to be woken.
    pub fn tanenbaum_test(&mut self, pid: usize) -> (started: bool)
        requires
            pid < N,
        ensures
            final(self)@ == test_spec(old(self)@, pid as int),
            started == may_start_eating(old(self)@, pid as int),
            started == (old(self)@[pid as int] == HUNGRY && old(self)@[left_of(pid as int)]
                != EATING && old(self)@[right_of(pid as int)] != EATING),
            started ==> final(self)@ == old(self)@.update(pid as int, EATING),
            !started ==> final(self)@ == old(self)@,
            final(self)@.len() == N,
    {
        let l = left(pid);
        let r = right(pid);
        if self.algo_states[pid] == HUNGRY && self.algo_states[l] != EATING
            && self.algo_states[r] != EATING {
            self.algo_states[pid] = EATING;
            proof {
                assert(self@ =~= test_spec(old(self)@, pid as int));
            }
            true
        } else {
            proof {
                assert(self@ =~= test_spec(old(self)@, pid as int));
            }
            false
        }
    }

    /// `pid` gets hungry and tries to pick up both chopsticks; returns
    /// whether it may eat right away (otherwise it waits to be woken).
    pub fn take_forks(&mut self, pid: usize) -> (eats_now: bool)
        requires
            pid < N,
        ensures
            final(self)@ == take_forks_spec(old(self)@, pid as int),
            eats_now == may_start_eating(old(self)@.update(pid as int, HUNGRY), pid as int),
            eats_now == (old(self)@[left_of(pid as int)] != EATING && old(self)@[right_of(
                pid as int,
            )] != EATING),
            final(self)@[pid as int] == (if eats_now { EATING } else { HUNGRY }),
            forall|i: int| 0 <= i < N && i != pid ==> final(self)@[i] == old(self)@[i],
            no_adjacent_eaters(old(self)@) ==> no_adjacent_eaters(final(self)@),
    {
        self.algo_states[pid] = HUNGRY;
        proof {
            assert(self@ =~= old(self)@.update(pid as int, HUNGRY));
        }
        let r = self.tanenbaum_test(pid);
        proof {
            if no_adjacent_eaters(old(self)@) {
                lemma_take_forks_safe(old(self)@, pid as int);
            }
        }
        r
    }

    /// `pid` puts both chopsticks down and lets its neighbours eat if they
    /// can; returns which of (left, right) started eating and has to be woken.
    pub fn put_forks(&mut self, pid: usize) -> (woken: (bool, bool))
        requires
            pid < N,
        ensures
            final(self)@ == put_forks_spec(old(self)@, pid as int),
            woken.0 == may_start_eating(old(self)@.update(pid as int, THINKING), left_of(pid as int)),
            woken.1 == may_start_eating(
                test_spec(old(self)@.update(pid as int, THINKING), left_of(pid as int)),
                right_of(pid as int),
            ),
            no_adjacent_eaters(old(self)@) ==> no_adjacent_eaters(final(self)@),
    {
        self.algo_states[pid] = THINKING;
        proof {
            assert(self@ =~= old(self)@.update(pid as int, THINKING));
        }
        let l = left(pid);
        let r = right(pid);
        let wl = self.tanenbaum_test(l);
        let wr = self.tanenbaum_test(r);
        proof {
            if no_adjacent_eaters(old(self)@) {
                lemma_put_forks_safe(old(self)@, pid as int);
            }
        }
        (wl, wr)
    }
}


/// The chopstick philosopher `pid` picks up first when the last
/// philosopher reverses its order: always the lower-numbered of its two.
pub open spec fn first_of(pid: int) -> int {
    if pid == N - 1 { right_of(pid) } else { pid }
}

/// The chopstick philosopher `pid` picks up second: the higher-numbered one.
pub open spec fn second_of(pid: int) -> int {
    if pid == N - 1 { pid } else { right_of(pid) }
}

/// The order in which philosopher `pid` picks up its two chopsticks when
/// the last philosopher reverses its order: every philosopher takes the
/// lower-numbered chopstick first, so no cycle of waiting can form.
pub fn chopstick_order(pid: usize) -> (order: (usize, usize))
    requires
        pid < N,
    ensures
        order.0 as int == first_of(pid as int),
        order.1 as int == second_of(pid as int),
        pid == N - 1 ==> order == (right_of(pid as int) as usize, pid),
        pid != N - 1 ==> order == (pid, right_of(pid as int) as usize),
        order.0 < order.1,
        order.1 < N,
{
    let r = right(pid);
    if pid == N - 1 {
        (r, pid)
    } else {
        (pid, r)
    }
}

/// Chopsticks are taken in the global order: whoever holds a chopstick holds
/// its first one, or its second one together with its first.
pub open spec fn taken_in_order(holders: Seq<Option<usize>>) -> bool {
    forall|c: int|
        0 <= c < N && #[trigger] holders[c] is Some ==> {
            let p = holders[c]->0 as int;
            &&& 0 <= p < N
            &&& (c == first_of(p) || (c == second_of(p) && holders[first_of(p)] == Some(
                p as usize,
            )))
        }
}

/// Philosopher `p` holds its first chopstick and is not blocked on its
/// second: that one is free, or it holds it already.
pub open spec fn can_go_on(holders: Seq<Option<usize>>, p: int) -> bool {
    &&& holders[first_of(p)] == Some(p as usize)
    &&& (holders[second_of(p)] is None || holders[second_of(p)] == Some(p as usize))
}

/// Law (no deadlock by resource ordering): while chopsticks are taken in the
/// global order, if anybody holds a chopstick then some holder is not
/// blocked: it can pick up its second chopstick or already eats.
pub proof fn lemma_ordered_progress(holders: Seq<Option<usize>>, c: int)
    requires
        holders.len() == N,
        taken_in_order(holders),
        0 <= c < N,
        holders[c] is Some,
    ensures
        exists|p: int| 0 <= p < N && can_go_on(holders, p),
    decreases N - c,
{
    let p = holders[c]->0 as int;
    if c == second_of(p) {
        assert(can_go_on(holders, p));
    } else {
        assert(c == first_of(p));
        let d = second_of(p);
        if holders[d] is None || holders[d] == Some(p as usize) {
            assert(can_go_on(holders, p));
        } else {
            assert(first_of(p) < second_of(p));
            lemma_ordered_progress(holders, d);
        }
    }
}

/// The number of `true` entries.
pub open spec fn count_true(s: Seq<bool>) -> nat
    decreases s.len(),
{
    if s.len() == 0 {
        0
    } else {
        count_true(s.drop_last()) + if s.last() { 1nat } else { 0nat }
    }
}

proof fn lemma_count_true_update(s: Seq<bool>, i: int, v: bool)
    requires
        0 <= i < s.len(),
    ensures
        count_true(s.update(i, v)) + (if s[i] { 1int } else { 0int }) == count_true(s) + (if v {
            1int
        } else {
            0int
        }),
    decreases s.len(),
{
    let t = s.update(i, v);
    if i == s.len() - 1 {
        assert(t.drop_last() =~= s.drop_last());
    } else {
        lemma_count_true_update(s.drop_last(), i, v);
        assert(t.drop_last() =~= s.drop_last().update(i, v));
    }
}

proof fn lemma_count_true_none(n: nat)
    ensures
        count_true(Seq::new(n, |i: int| false)) == 0,
    decreases n,
{
    if n > 0 {
        lemma_count_true_none((n - 1) as nat);
        assert(Seq::new(n, |i: int| false).drop_last() =~= Seq::new((n - 1) as nat, |i: int| false));
    }
}

/// The table the harness watches: what each philosopher is doing, how often
/// it ate, who holds each chopstick, and who holds one of the footman's
/// `N - 1` tickets.
pub struct Shared {
    states: [u8; N],
    meals: [i32; N],
    holders: [Option<usize>; N],
    seated: [bool; N],
    tickets: usize,
}

/// The mathematical state of a `Shared` table.
pub struct SharedView {
    pub states: Seq<u8>,
    pub meals: Seq<i32>,
    pub holders: Seq<Option<usize>>,
    pub seated: Seq<bool>,
    pub tickets: nat,
}

impl SharedView {
    /// A philosopher only ever holds its own two chopsticks, it eats only
    /// while holding both, and every footman ticket is free or held.
    pub open spec fn inv(self) -> bool {
        &&& self.states.len() == N && self.meals.len() == N && self.holders.len() == N
        &&& self.seated.len() == N
        &&& forall|c: int|
            0 <= c < N && #[trigger] self.holders[c] is Some ==> {
                let p = self.holders[c]->0 as int;
                0 <= p < N && (c == p || c == right_of(p))
            }
        &&& forall|p: int|
            0 <= p < N && #[trigger] self.states[p] == EATING ==> self.holders[p] == Some(
                p as usize,
            ) && self.holders[right_of(p)] == Some(p as usize)
        &&& self.tickets + count_true(self.seated) == N - 1
    }
}

/// Law: on the watched table no two neighbours ever eat together, whatever
/// order the chopsticks are picked up in.
pub proof fn lemma_chopsticks_exclusive(s: SharedView)
    requires
        s.inv(),
    ensures
        no_adjacent_eaters(s.states),
{
    assert forall|i: int| 0 <= i < N implies !(#[trigger] s.states[i] == EATING
        && s.states[right_of(i)] == EATING) by {
        if s.states[i] == EATING && s.states[right_of(i)] == EATING {
            assert(s.holders[right_of(i)] == Some(i as usize));
            assert(s.holders[right_of(right_of(i))] == Some(right_of(i) as usize));
            assert(s.holders[right_of(i)] == Some(right_of(i) as usize));
        }
    }
}

/// Law: the footman lets at most `N - 1` philosophers to the table at once.
pub proof fn lemma_footman_cap(s: SharedView)
    requires
        s.inv(),
    ensures
        count_true(s.seated) <= N - 1,
{
}

impl View for Shared {
    type V = SharedView;

    closed spec fn view(&self) -> SharedView {
        SharedView {
            states: self.states@,
            meals: self.meals@,
            holders: self.holders@,
            seated: self.seated@,
            tickets: self.tickets as nat,
        }
    }
}

impl Shared {
    /// Everybody thinking, nobody has eaten, all chopsticks and all
    /// `N - 1` footman tickets free.
    pub fn new() -> (s: Shared)
        ensures
            s@.inv(),
            s@.states == Seq::new(N as nat, |i: int| THINKING),
            s@.meals == Seq::new(N as nat, |i: int| 0i32),
            s@.holders == Seq::new(N as nat, |i: int| None::<usize>),
            s@.seated == Seq::new(N as nat, |i: int| false),
            s@.tickets == N - 1,
    {
        let s = Shared {
            states: [THINKING; N],
            meals: [0i32; N],
            holders: [None; N],
            seated: [false; N],
            tickets: N - 1,
        };
        assert(s@.states =~= Seq::new(N as nat, |i: int| THINKING));
        assert(s@.meals =~= Seq::new(N as nat, |i: int| 0i32));
        assert(s@.holders =~= Seq::new(N as nat, |i: int| None::<usize>));
        assert(s@.seated =~= Seq::new(N as nat, |i: int| false));
        proof {
            lemma_count_true_none(N as nat);
        }
        s
    }

    /// Records that philosopher `pid` thinks or is hungry (not eating).
    pub fn set_state(&mut self, pid: usize, st: u8)
        requires
            old(self)@.inv(),
            pid < N,
            st != EATING,
        ensures
            final(self)@.inv(),
            final(self)@ == (SharedView { states: old(self)@.states.update(pid as int, st), ..old(self)@ }),
    {
        self.states[pid] = st;
        assert(self@.states =~= old(self)@.states.update(pid as int, st));
    }

    /// Philosopher `pid` picks up chopstick `c`, one of its own two, if it is
    /// free; returns whether it did.
    pub fn take_chopstick(&mut self, pid: usize, c: usize) -> (taken: bool)
        requires
            old(self)@.inv(),
            pid < N,
            c == pid || c as int == right_of(pid as int),
        ensures
            final(self)@.inv(),
            taken == (old(self)@.holders[c as int] is None),
            taken ==> final(self)@ == (SharedView {
                holders: old(self)@.holders.update(c as int, Some(pid)),
                ..old(self)@
            }),
            !taken ==> final(self)@ == old(self)@,
    {
        if self.holders[c].is_none() {
            self.holders[c] = Some(pid);
            assert(self@.holders =~= old(self)@.holders.update(c as int, Some(pid)));
            true
        } else {
            false
        }
    }

    /// Philosopher `pid`, not eating, puts chopstick `c` back.
    pub fn release_chopstick(&mut self, pid: usize, c: usize)
        requires
            old(self)@.inv(),
            pid < N,
            c < N,
            old(self)@.holders[c as int] == Some(pid),
            old(self)@.states[pid as int] != EATING,
        ensures
            final(self)@.inv(),
            final(self)@ == (SharedView {
                holders: old(self)@.holders.update(c as int, None),
                ..old(self)@
            }),
    {
        self.holders[c] = None;
        assert(self@.holders =~= old(self)@.holders.update(c as int, None));
    }

    /// The try-and-back-off decision: philosopher `pid`, holding chopstick
    /// `held`, tries its other chopstick `other` without waiting; if that is
    /// taken, it puts `held` back so a neighbour can go on.  Returns whether
    /// it now holds both.
    pub fn take_other_or_back_off(&mut self, pid: usize, held: usize, other: usize) -> (both: bool)
        requires
            old(self)@.inv(),
            pid < N,
            (held == pid && other as int == right_of(pid as int)) || (other == pid && held as int
                == right_of(pid as int)),
            old(self)@.holders[held as int] == Some(pid),
            old(self)@.states[pid as int] != EATING,
        ensures
            final(self)@.inv(),
            both == (old(self)@.holders[other as int] is None),
            both ==> final(self)@ == (SharedView {
                holders: old(self)@.holders.update(other as int, Some(pid)),
                ..old(self)@
            }),
            !both ==> final(self)@ == (SharedView {
                holders: old(self)@.holders.update(held as int, None),
                ..old(self)@
            }),
    {
        if self.take_chopstick(pid, other) {
            true
        } else {
            self.release_chopstick(pid, held);
            false
        }
    }

    /// Whether `pid` holds chopstick `c`.
    pub fn holds(&self, pid: usize, c: usize) -> (h: bool)
        requires
            c < N,
        ensures
            h == (self@.holders[c as int] == Some(pid)),
    {
        match self.holders[c] {
            Some(p) => p == pid,
            None => false,
        }
    }

    /// Philosopher `pid`, holding both its chopsticks, starts eating.
    pub fn start_eating(&mut self, pid: usize)
        requires
            old(self)@.inv(),
            pid < N,
            old(self)@.holders[pid as int] == Some(pid),
            old(self)@.holders[right_of(pid as int)] == Some(pid),
        ensures
            final(self)@.inv(),
            final(self)@ == (SharedView {
                states: old(self)@.states.update(pid as int, EATING),
                ..old(self)@
            }),
            no_adjacent_eaters(final(self)@.states),
    {
        self.states[pid] = EATING;
        assert(self@.states =~= old(self)@.states.update(pid as int, EATING));
        proof {
            lemma_chopsticks_exclusive(self@);
        }
    }

    /// Philosopher `pid` takes one of the footman's tickets if one is left;
    /// returns whether it did.
    pub fn footman_enter(&mut self, pid: usize) -> (entered: bool)
        requires
            old(self)@.inv(),
            pid < N,
            !old(self)@.seated[pid as int],
        ensures
            final(self)@.inv(),
            entered == (old(self)@.tickets > 0),
            entered ==> final(self)@ == (SharedView {
                seated: old(self)@.seated.update(pid as int, true),
                tickets: (old(self)@.tickets - 1) as nat,
                ..old(self)@
            }),
            !entered ==> final(self)@ == old(self)@,
    {
        if self.tickets > 0 {
            proof {
                lemma_count_true_update(self@.seated, pid as int, true);
            }
            self.tickets = self.tickets - 1;
            self.seated[pid] = true;
            assert(self@.seated =~= old(self)@.seated.update(pid as int, true));
            true
        } else {
            false
        }
    }

    /// Philosopher `pid` gives its footman ticket back.
    pub fn footman_leave(&mut self, pid: usize)
        requires
            old(self)@.inv(),
            pid < N,
            old(self)@.seated[pid as int],
        ensures
            final(self)@.inv(),
            final(self)@ == (SharedView {
                seated: old(self)@.seated.update(pid as int, false),
                tickets: old(self)@.tickets + 1,
                ..old(self)@
            }),
    {
        proof {
            lemma_count_true_update(self@.seated, pid as int, false);
        }
        self.tickets = self.tickets + 1;
        self.seated[pid] = false;
        assert(self@.seated =~= old(self)@.seated.update(pid as int, false));
    }

    pub fn is_seated(&self, pid: usize) -> (b: bool)
        requires
            pid < N,
            self@.inv(),
        ensures
            b == self@.seated[pid as int],
    {
        self.seated[pid]
    }

    /// Counts one more meal for `pid`.
    pub fn record_meal(&mut self, pid: usize)
        requires
            old(self)@.inv(),
            pid < N,
            old(self)@.meals[pid as int] < i32::MAX,
        ensures
            final(self)@.inv(),
            final(self)@ == (SharedView {
                meals: old(self)@.meals.update(pid as int, (old(self)@.meals[pid as int] + 1) as i32),
                ..old(self)@
            }),
    {
        self.meals[pid] = self.meals[pid] + 1;
        assert(self@.meals =~= old(self)@.meals.update(pid as int, (old(self)@.meals[pid as int] + 1) as i32));
    }

    pub fn meals_of(&self, pid: usize) -> (m: i32)
        requires
            pid < N,
        ensures
            m == self@.meals[pid as int],
    {
        self.meals[pid]
    }

    pub fn state_of(&self, pid: usize) -> (st: u8)
        requires
            pid < N,
        ensures
            st == self@.states[pid as int],
    {
        self.states[pid]
    }

    /// The fewest and the most meals any philosopher has eaten.
    pub fn meal_spread(&self) -> (r: (i32, i32))
        ensures
            exists|i: int| 0 <= i < N && self@.meals[i] == r.0,
            exists|i: int| 0 <= i < N && self@.meals[i] == r.1,
            forall|i: int| 0 <= i < N ==> r.0 <= #[trigger] self@.meals[i] <= r.1,
    {
        let mut lo = self.meals[0];
        let mut hi = self.meals[0];
        let mut i: usize = 1;
        while i < N
            invariant
                1 <= i <= N,
                self@.meals.len() == N,
                exists|j: int| 0 <= j < i && self@.meals[j] == lo,
                exists|j: int| 0 <= j < i && self@.meals[j] == hi,
                forall|j: int| 0 <= j < i ==> lo <= #[trigger] self@.meals[j] <= hi,
            decreases N - i,
        {
            let m = self.meals[i];
            if m < lo {
                lo = m;
            }
            if m > hi {
                hi = m;
            }
            i = i + 1;
        }
        (lo, hi)
    }

    /// Whether philosopher `pid` may be eating now: neither neighbour eats.
    pub fn check_invariant(&self, pid: usize) -> (ok: bool)
        requires
            pid < N,
        ensures
            ok == (self@.states[left_of(pid as int)] != EATING && self@.states[right_of(
                pid as int,
            )] != EATING),
            self@.inv() && self@.states[pid as int] == EATING ==> ok,
    {
        proof {
            if self@.inv() {
                lemma_chopsticks_exclusive(self@);
                assert(!(self@.states[left_of(pid as int)] == EATING
                    && self@.states[right_of(left_of(pid as int))] == EATING));
            }
        }
        let l = left(pid);
        let r = right(pid);
        self.states[l] != EATING && self.states[r] != EATING
    }
}

} // verus!
