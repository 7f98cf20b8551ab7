use vstd::prelude::*;

verus! {

/// A counting semaphore that lets waiters through in arrival order, kept
/// as a ticket dispenser: each acquirer draws the next ticket and may go
/// once the "now serving" counter has moved past it; each release moves
/// that counter on by one.
pub struct FifoSemaphore {
    next_ticket: u64,
    now_serving: u64,
}

/// The mathematical state of a ticket `FifoSemaphore`.
pub struct TicketView {
    pub next_ticket: nat,
    pub now_serving: nat,
}

impl TicketView {
    /// The holder of ticket `t` may go ahead.
    pub open spec fn admits(self, t: nat) -> bool {
        t < self.now_serving
    }

    /// Permits available to the next acquirer without waiting.
    pub open spec fn available(self) -> int {
        self.now_serving - self.next_ticket
    }
}

impl View for FifoSemaphore {
    type V = TicketView;

    closed spec fn view(&self) -> TicketView {
        TicketView { next_ticket: self.next_ticket as nat, now_serving: self.now_serving as nat }
    }
}

impl FifoSemaphore {
    /// A semaphore holding `initial_count` permits.
    pub fn new(initial_count: usize) -> (s: FifoSemaphore)
        ensures
            s@ == (TicketView { next_ticket: 0, now_serving: initial_count as nat }),
            s@.available() == initial_count,
    {
        FifoSemaphore { next_ticket: 0, now_serving: initial_count as u64 }
    }

    /// The first half of `acquire`: draws the next ticket.  The caller
    /// then waits until `admits` says its ticket may go.
    pub fn acquire(&mut self) -> (ticket: u64)
        requires
            old(self)@.next_ticket < u64::MAX,
        ensures
            ticket as nat == old(self)@.next_ticket,
            final(self)@ == (TicketView { next_ticket: old(self)@.next_ticket + 1, ..old(self)@ }),
    {
        let t = self.next_ticket;
        self.next_ticket = self.next_ticket + 1;
        t
    }

    /// Whether the holder of `ticket` may go ahead.
    pub fn admits(&self, ticket: u64) -> (r: bool)
        ensures
            r == self@.admits(ticket as nat),
            r == (ticket < self@.now_serving),
    {
        ticket < self.now_serving
    }

    pub fn next_ticket(&self) -> (t: u64)
        ensures
            t as nat == self@.next_ticket,
    {
        self.next_ticket
    }

    pub fn now_serving(&self) -> (t: u64)
        ensures
            t as nat == self@.now_serving,
    {
        self.now_serving
    }

    /// Gives back one permit: the oldest waiting ticket may go.
    pub fn release(&mut self)
        requires
            old(self)@.now_serving < u64::MAX,
        ensures
            final(self)@ == (TicketView { now_serving: old(self)@.now_serving + 1, ..old(self)@ }),
    {
        self.now_serving = self.now_serving + 1;
    }
}

/// Law: a ticket may go exactly when fewer than `now_serving` tickets were
/// drawn before it, and with no waiter the permits available are
/// `now_serving` minus the tickets drawn.
pub proof fn lemma_admits_exactly(s: TicketView, t: nat)
    ensures
        s.admits(t) <==> t < s.now_serving,
        s.available() == s.now_serving - s.next_ticket,
{
}

/// Law: tickets are let through in the order they were drawn: whenever a
/// later ticket may go, every earlier one may go too.
pub proof fn lemma_ticket_fifo(s: TicketView, earlier: nat, later: nat)
    requires
        earlier < later,
        s.admits(later),
    ensures
        s.admits(earlier),
{
}

/// Law: a release lets exactly one more ticket through: the oldest one that
/// could not go before.
pub proof fn lemma_release_admits_next(s: TicketView, t: nat)
    ensures
        (TicketView { now_serving: s.now_serving + 1, ..s }).admits(t) <==> (s.admits(t) || t
            == s.now_serving),
{
}

} // verus!
