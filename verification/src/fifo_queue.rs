use vstd::prelude::*;
use std::collections::VecDeque;

verus! {

/// What `acquire` decided.
#[derive(Debug, PartialEq, Eq, Structural)]
pub enum Acquired {
    /// A permit was free and is now taken.
    Granted,
    /// No permit was free: the caller was queued under this ticket and waits
    /// until a `release` names it.
    Queued(u64),
}

/// A counting semaphore that hands each released permit directly to the
/// oldest queued waiter.
pub struct FifoSemaphore {
    count: usize,
    waiters: VecDeque<u64>,
    next_ticket: u64,
    woken: Ghost<Seq<u64>>,
    initial: Ghost<nat>,
    granted: Ghost<nat>,
    released: Ghost<nat>,
}

/// The mathematical state of a queueing `FifoSemaphore`: free permits, the
/// queued tickets oldest first, the next ticket to hand out, and the
/// tickets woken so far.
pub struct QueueView {
    pub count: nat,
    pub waiters: Seq<u64>,
    pub next_ticket: nat,
    pub woken: Seq<u64>,
    pub initial: nat,
    pub granted: nat,
    pub released: nat,
}

/// `s` is the tickets `0, 1, ..., n - 1` in order, where `n` is its length.
pub open spec fn numbered(s: Seq<u64>) -> bool {
    forall|i: int| 0 <= i < s.len() ==> #[trigger] s[i] as int == i
}

impl QueueView {
    /// Permits are only free when nobody waits, and the tickets woken so far
    /// followed by those still queued are all tickets ever handed out, in
    /// the order they were handed out.
    pub open spec fn inv(self) -> bool {
        &&& self.count > 0 ==> self.waiters.len() == 0
        &&& (self.woken + self.waiters).len() == self.next_ticket
        &&& numbered(self.woken + self.waiters)
        &&& self.next_ticket <= u64::MAX
        &&& self.count + self.granted + self.woken.len() == self.initial + self.released
    }
}

impl View for FifoSemaphore {
    type V = QueueView;

    closed spec fn view(&self) -> QueueView {
        QueueView {
            count: self.count as nat,
            waiters: self.waiters@,
            next_ticket: self.next_ticket as nat,
            woken: self.woken@,
            initial: self.initial@,
            granted: self.granted@,
            released: self.released@,
        }
    }
}

impl FifoSemaphore {
    /// A semaphore holding `initial_count` permits and no waiter.
    pub fn new(initial_count: usize) -> (s: FifoSemaphore)
        ensures
            s@ == (QueueView {
                count: initial_count as nat,
                waiters: Seq::empty(),
                next_ticket: 0,
                woken: Seq::empty(),
                initial: initial_count as nat,
                granted: 0,
                released: 0,
            }),
            s@.inv(),
    {
        let s = FifoSemaphore {
            count: initial_count,
            waiters: VecDeque::new(),
            next_ticket: 0,
            woken: Ghost(Seq::empty()),
            initial: Ghost(initial_count as nat),
            granted: Ghost(0),
            released: Ghost(0),
        };
        assert(s@.woken + s@.waiters =~= Seq::<u64>::empty());
        s
    }

    /// Takes a free permit, or queues the caller behind every earlier waiter.
    pub fn acquire(&mut self) -> (r: Acquired)
        requires
            old(self)@.inv(),
            old(self)@.count == 0 ==> old(self)@.next_ticket < u64::MAX,
        ensures
            final(self)@.inv(),
            old(self)@.count > 0 ==> r == Acquired::Granted && final(self)@ == (QueueView {
                count: (old(self)@.count - 1) as nat,
                granted: old(self)@.granted + 1,
                ..old(self)@
            }),
            old(self)@.count == 0 ==> r == Acquired::Queued(old(self)@.next_ticket as u64)
                && final(self)@ == (QueueView {
                waiters: old(self)@.waiters.push(old(self)@.next_ticket as u64),
                next_ticket: old(self)@.next_ticket + 1,
                ..old(self)@
            }),
    {
        if self.count > 0 {
            self.count = self.count - 1;
            proof {
                self.granted@ = self.granted@ + 1;
            }
            Acquired::Granted
        } else {
            let t = self.next_ticket;
            self.waiters.push_back(t);
            self.next_ticket = self.next_ticket + 1;
            assert(self.woken@ + self.waiters@ =~= (old(self).woken@ + old(self).waiters@).push(t));
            Acquired::Queued(t)
        }
    }

    /// Gives a permit back: to the oldest waiter, whose ticket is returned,
    /// or to the pool when nobody waits.
    pub fn release(&mut self) -> (woke: Option<u64>)
        requires
            old(self)@.inv(),
            old(self)@.count < usize::MAX,
        ensures
            final(self)@.inv(),
            old(self)@.waiters.len() > 0 ==> woke == Some(old(self)@.waiters[0]) && final(self)@
                == (QueueView {
                waiters: old(self)@.waiters.drop_first(),
                woken: old(self)@.woken.push(old(self)@.waiters[0]),
                released: old(self)@.released + 1,
                ..old(self)@
            }),
            old(self)@.waiters.len() == 0 ==> woke is None && final(self)@ == (QueueView {
                count: old(self)@.count + 1,
                released: old(self)@.released + 1,
                ..old(self)@
            }),
    {
        proof {
            self.released@ = self.released@ + 1;
        }
        match self.waiters.pop_front() {
            Some(t) => {
                proof {
                    self.woken@ = self.woken@.push(t);
                    assert(self.waiters@ =~= old(self)@.waiters.drop_first());
                    assert(self.woken@ + self.waiters@ =~= old(self)@.woken + old(self)@.waiters);
                }
                Some(t)
            },
            None => {
                self.count = self.count + 1;
                None
            },
        }
    }

    pub fn count(&self) -> (c: usize)
        ensures
            c as nat == self@.count,
    {
        self.count
    }

    pub fn next_ticket(&self) -> (t: u64)
        ensures
            t as nat == self@.next_ticket,
    {
        self.next_ticket
    }

    pub fn waiting(&self) -> (n: usize)
        ensures
            n as nat == self@.waiters.len(),
    {
        self.waiters.len()
    }
}

/// Law: every release either lets exactly one waiter through or banks one
/// permit: the acquires that went through (granted at once, or woken) plus
/// the free permits equal the initial permits plus the releases.
pub proof fn lemma_permit_accounting(s: QueueView)
    requires
        s.inv(),
    ensures
        s.granted + s.woken.len() + s.count == s.initial + s.released,
        s.count > 0 ==> s.waiters.len() == 0,
{
}

/// Law: waiters are woken in the order they queued: the i-th ticket woken
/// is the i-th ticket handed out, and the queue holds the next ones in order.
pub proof fn lemma_wake_order(s: QueueView)
    requires
        s.inv(),
    ensures
        forall|i: int| 0 <= i < s.woken.len() ==> s.woken[i] as int == i,
        forall|i: int| 0 <= i < s.waiters.len() ==> s.waiters[i] as int == s.woken.len() + i,
{
    let all = s.woken + s.waiters;
    assert forall|i: int| 0 <= i < s.woken.len() implies s.woken[i] as int == i by {
        assert(all[i] == s.woken[i]);
    }
    assert forall|i: int| 0 <= i < s.waiters.len() implies s.waiters[i] as int == s.woken.len() + i by {
        assert(all[s.woken.len() + i] == s.waiters[i]);
    }
}

} // verus!
