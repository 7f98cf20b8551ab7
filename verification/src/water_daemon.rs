use vstd::prelude::*;
use std::collections::VecDeque;

verus! {

/// Molecules the factory is sized for.
pub const N_MOLECULES: usize = 50;
/// Hydrogen atoms that may queue up at once.
pub const N_HYDROGEN: usize = 2 * N_MOLECULES;
/// Oxygen atoms that may queue up at once.
pub const N_OXYGEN: usize = N_MOLECULES;

/// The water factory run by a manager: atoms queue up by kind, and the
/// manager takes the two oldest hydrogens and the oldest oxygen together.
pub struct WaterFactory {
    h_queue: VecDeque<usize>,
    o_queue: VecDeque<usize>,
    in_bond: usize,
    h_arrived: Ghost<Seq<usize>>,
    o_arrived: Ghost<Seq<usize>>,
    h_bonded: Ghost<Seq<usize>>,
    o_bonded: Ghost<Seq<usize>>,
}

/// The mathematical state of a managed `WaterFactory`: the atoms waiting
/// by kind, oldest first, and every atom that ever arrived or was bonded.
pub struct DaemonView {
    pub h_queue: Seq<usize>,
    pub o_queue: Seq<usize>,
    pub in_bond: nat,
    pub h_arrived: Seq<usize>,
    pub o_arrived: Seq<usize>,
    pub h_bonded: Seq<usize>,
    pub o_bonded: Seq<usize>,
}

impl DaemonView {
    /// Atoms leave their queue in arrival order, and every bonded group holds
    /// two hydrogens for each oxygen.
    pub open spec fn inv(self) -> bool {
        &&& self.h_arrived == self.h_bonded + self.h_queue
        &&& self.o_arrived == self.o_bonded + self.o_queue
        &&& self.h_bonded.len() == 2 * self.o_bonded.len()
        &&& self.in_bond <= 3
    }

    /// A molecule can be formed: the last one has finished bonding, and two
    /// hydrogens and an oxygen wait.
    pub open spec fn ready(self) -> bool {
        self.in_bond == 0 && self.h_queue.len() >= 2 && self.o_queue.len() >= 1
    }
}

impl View for WaterFactory {
    type V = DaemonView;

    closed spec fn view(&self) -> DaemonView {
        DaemonView {
            h_queue: self.h_queue@,
            o_queue: self.o_queue@,
            in_bond: self.in_bond as nat,
            h_arrived: self.h_arrived@,
            o_arrived: self.o_arrived@,
            h_bonded: self.h_bonded@,
            o_bonded: self.o_bonded@,
        }
    }
}

impl WaterFactory {
    /// No atom has arrived yet.
    pub fn new() -> (f: WaterFactory)
        ensures
            f@.h_queue.len() == 0 && f@.o_queue.len() == 0,
            f@.in_bond == 0,
            f@.h_arrived.len() == 0 && f@.o_arrived.len() == 0,
            f@.h_bonded.len() == 0 && f@.o_bonded.len() == 0,
            f@.inv(),
    {
        let f = WaterFactory {
            h_queue: VecDeque::new(),
            o_queue: VecDeque::new(),
            in_bond: 0,
            h_arrived: Ghost(Seq::empty()),
            o_arrived: Ghost(Seq::empty()),
            h_bonded: Ghost(Seq::empty()),
            o_bonded: Ghost(Seq::empty()),
        };
        assert(f@.h_arrived =~= f@.h_bonded + f@.h_queue);
        assert(f@.o_arrived =~= f@.o_bonded + f@.o_queue);
        f
    }

    /// Whether a hydrogen atom finds room in its queue.
    pub fn can_queue_hydrogen(&self) -> (r: bool)
        ensures
            r == (self@.h_queue.len() < N_HYDROGEN),
    {
        self.h_queue.len() < N_HYDROGEN
    }

    /// Whether an oxygen atom finds room in its queue.
    pub fn can_queue_oxygen(&self) -> (r: bool)
        ensures
            r == (self@.o_queue.len() < N_OXYGEN),
    {
        self.o_queue.len() < N_OXYGEN
    }

    /// Hydrogen atom `id` queues up; it waits while the queue is full.
    pub fn hydrogen(&mut self, id: usize)
        requires
            old(self)@.inv(),
            old(self)@.h_queue.len() < N_HYDROGEN,
        ensures
            final(self)@.inv(),
            final(self)@ == (DaemonView {
                h_queue: old(self)@.h_queue.push(id),
                h_arrived: old(self)@.h_arrived.push(id),
                ..old(self)@
            }),
    {
        self.h_queue.push_back(id);
        proof {
            self.h_arrived@ = self.h_arrived@.push(id);
            assert(self.h_arrived@ =~= self.h_bonded@ + self.h_queue@);
        }
    }

    /// Oxygen atom `id` queues up; it waits while the queue is full.
    pub fn oxygen(&mut self, id: usize)
        requires
            old(self)@.inv(),
            old(self)@.o_queue.len() < N_OXYGEN,
        ensures
            final(self)@.inv(),
            final(self)@ == (DaemonView {
                o_queue: old(self)@.o_queue.push(id),
                o_arrived: old(self)@.o_arrived.push(id),
                ..old(self)@
            }),
    {
        self.o_queue.push_back(id);
        proof {
            self.o_arrived@ = self.o_arrived@.push(id);
            assert(self.o_arrived@ =~= self.o_bonded@ + self.o_queue@);
        }
    }

    /// The manager's decision: when the last molecule has finished bonding
    /// and two hydrogens and an oxygen wait, takes the oldest of each and
    /// returns them as `(h1, h2, o)` to be bonded.
    pub fn next_molecule(&mut self) -> (m: Option<(usize, usize, usize)>)
        requires
            old(self)@.inv(),
        ensures
            final(self)@.inv(),
            !old(self)@.ready() ==> m is None && final(self)@ == old(self)@,
            old(self)@.ready() ==> m == Some(
                (old(self)@.h_queue[0], old(self)@.h_queue[1], old(self)@.o_queue[0]),
            ) && final(self)@ == (DaemonView {
                h_queue: old(self)@.h_queue.subrange(2, old(self)@.h_queue.len() as int),
                o_queue: old(self)@.o_queue.drop_first(),
                h_bonded: old(self)@.h_bonded.push(old(self)@.h_queue[0]).push(
                    old(self)@.h_queue[1],
                ),
                o_bonded: old(self)@.o_bonded.push(old(self)@.o_queue[0]),
                in_bond: 3,
                ..old(self)@
            }),
    {
        if self.in_bond == 0 && self.h_queue.len() >= 2 && self.o_queue.len() >= 1 {
            self.in_bond = 3;
            let h1 = self.h_queue.pop_front().unwrap();
            let h2 = self.h_queue.pop_front().unwrap();
            let o = self.o_queue.pop_front().unwrap();
            proof {
                self.h_bonded@ = self.h_bonded@.push(h1).push(h2);
                self.o_bonded@ = self.o_bonded@.push(o);
                assert(self.h_queue@ =~= old(self)@.h_queue.subrange(
                    2,
                    old(self)@.h_queue.len() as int,
                ));
                assert(self.h_arrived@ =~= self.h_bonded@ + self.h_queue@);
                assert(self.o_arrived@ =~= self.o_bonded@ + self.o_queue@);
            }
            Some((h1, h2, o))
        } else {
            None
        }
    }

    /// One atom of the molecule being bonded reports it is done; returns
    /// whether that was the last one, so the next molecule may be formed.
    pub fn atom_done(&mut self) -> (molecule_done: bool)
        requires
            old(self)@.inv(),
            old(self)@.in_bond > 0,
        ensures
            final(self)@.inv(),
            final(self)@ == (DaemonView { in_bond: (old(self)@.in_bond - 1) as nat, ..old(self)@ }),
            molecule_done == (old(self)@.in_bond == 1),
    {
        self.in_bond = self.in_bond - 1;
        self.in_bond == 0
    }

    /// Atoms of the current molecule still bonding.
    pub fn in_bond(&self) -> (n: usize)
        ensures
            n as nat == self@.in_bond,
    {
        self.in_bond
    }

    pub fn waiting_hydrogen(&self) -> (n: usize)
        ensures
            n as nat == self@.h_queue.len(),
    {
        self.h_queue.len()
    }

    pub fn waiting_oxygen(&self) -> (n: usize)
        ensures
            n as nat == self@.o_queue.len(),
    {
        self.o_queue.len()
    }
}

/// Law: a molecule can be formed exactly when no molecule is bonding, at
/// least two hydrogens wait and at least one oxygen waits.
pub proof fn lemma_ready_exactly(s: DaemonView)
    ensures
        s.ready() <==> (s.in_bond == 0 && s.h_queue.len() >= 2 && s.o_queue.len() >= 1),
{
}

/// Law: the manager bonds one molecule at a time: at most three atoms are
/// bonding, and a new molecule is only formed once all of them are done.
pub proof fn lemma_one_molecule_at_a_time(s: DaemonView)
    requires
        s.inv(),
    ensures
        s.in_bond <= 3,
        s.ready() ==> s.in_bond == 0,
{
}

/// Law: atoms are bonded in the order they arrived, none is lost or bonded
/// twice, and there are always exactly two hydrogens bonded per oxygen.
pub proof fn lemma_molecules(s: DaemonView)
    requires
        s.inv(),
    ensures
        s.h_bonded == s.h_arrived.subrange(0, s.h_bonded.len() as int),
        s.o_bonded == s.o_arrived.subrange(0, s.o_bonded.len() as int),
        s.h_bonded.len() == 2 * s.o_bonded.len(),
{
    assert(s.h_bonded =~= s.h_arrived.subrange(0, s.h_bonded.len() as int));
    assert(s.o_bonded =~= s.o_arrived.subrange(0, s.o_bonded.len() as int));
}

} // verus!
