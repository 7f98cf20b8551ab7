use vstd::prelude::*;
use crate::barrier::{MyBarrier, BarrierView};
use crate::peak::{spec_max, update_max};

verus! {

/// Hydrogen atoms allowed into a bond at once.
pub const H_PER_MOLECULE: usize = 2;
/// Oxygen atoms allowed into a bond at once.
pub const O_PER_MOLECULE: usize = 1;

/// The water factory built from a two-permit hydrogen semaphore, a
/// one-permit oxygen semaphore and a barrier for three atoms: an atom takes
/// a permit of its kind, meets the other two at the barrier, bonds, and
/// gives its permit back.
pub struct WaterFactory {
    h_permits: usize,
    o_permits: usize,
    h_inside: usize,
    o_inside: usize,
    h_waiting: usize,
    o_waiting: usize,
    barrier: MyBarrier,
    groups: Ghost<nat>,
    h_met: Ghost<nat>,
    o_met: Ghost<nat>,
}

/// The mathematical state of a `WaterFactory`: free permits, atoms holding
/// a permit, atoms of each kind waiting at the barrier, the barrier, and
/// the groups released and atoms met so far.
pub struct FactoryView {
    pub h_permits: nat,
    pub o_permits: nat,
    pub h_inside: nat,
    pub o_inside: nat,
    pub h_waiting: nat,
    pub o_waiting: nat,
    pub barrier: BarrierView,
    pub groups: nat,
    pub h_met: nat,
    pub o_met: nat,
}

impl FactoryView {
    /// Every permit is free or held by an atom inside; the atoms waiting at
    /// the barrier hold permits and are what the barrier counts; every group
    /// released so far took two hydrogens and one oxygen.
    pub open spec fn inv(self) -> bool {
        &&& self.h_permits + self.h_inside == H_PER_MOLECULE
        &&& self.o_permits + self.o_inside == O_PER_MOLECULE
        &&& self.barrier.expected == 3
        &&& self.barrier.inv()
        &&& self.barrier.count == self.h_waiting + self.o_waiting
        &&& self.h_waiting <= self.h_inside
        &&& self.o_waiting <= self.o_inside
        &&& self.h_met == 2 * self.groups + self.h_waiting
        &&& self.o_met == self.groups + self.o_waiting
    }
}

impl View for WaterFactory {
    type V = FactoryView;

    closed spec fn view(&self) -> FactoryView {
        FactoryView {
            h_permits: self.h_permits as nat,
            o_permits: self.o_permits as nat,
            h_inside: self.h_inside as nat,
            o_inside: self.o_inside as nat,
            h_waiting: self.h_waiting as nat,
            o_waiting: self.o_waiting as nat,
            barrier: self.barrier@,
            groups: self.groups@,
            h_met: self.h_met@,
            o_met: self.o_met@,
        }
    }
}

impl WaterFactory {
    /// All permits free, nobody at the barrier.
    pub fn new() -> (f: WaterFactory)
        ensures
            f@.inv(),
            f@.h_inside == 0 && f@.o_inside == 0,
            f@.h_waiting == 0 && f@.o_waiting == 0,
            f@.barrier == (BarrierView { expected: 3, count: 0, generation: 0 }),
            f@.groups == 0 && f@.h_met == 0 && f@.o_met == 0,
    {
        WaterFactory {
            h_permits: H_PER_MOLECULE,
            o_permits: O_PER_MOLECULE,
            h_inside: 0,
            o_inside: 0,
            h_waiting: 0,
            o_waiting: 0,
            barrier: MyBarrier::new(3),
            groups: Ghost(0),
            h_met: Ghost(0),
            o_met: Ghost(0),
        }
    }

    /// A hydrogen atom takes a permit if one is free; returns whether it did.
    pub fn hydrogen(&mut self, _id: usize) -> (admitted: bool)
        requires
            old(self)@.inv(),
        ensures
            final(self)@.inv(),
            admitted == (old(self)@.h_permits > 0),
            admitted ==> final(self)@ == (FactoryView {
                h_permits: (old(self)@.h_permits - 1) as nat,
                h_inside: old(self)@.h_inside + 1,
                ..old(self)@
            }),
            !admitted ==> final(self)@ == old(self)@,
    {
        if self.h_permits > 0 {
            self.h_permits = self.h_permits - 1;
            self.h_inside = self.h_inside + 1;
            true
        } else {
            false
        }
    }

    /// An oxygen atom takes the permit if it is free; returns whether it did.
    pub fn oxygen(&mut self, _id: usize) -> (admitted: bool)
        requires
            old(self)@.inv(),
        ensures
            final(self)@.inv(),
            admitted == (old(self)@.o_permits > 0),
            admitted ==> final(self)@ == (FactoryView {
                o_permits: (old(self)@.o_permits - 1) as nat,
                o_inside: old(self)@.o_inside + 1,
                ..old(self)@
            }),
            !admitted ==> final(self)@ == old(self)@,
    {
        if self.o_permits > 0 {
            self.o_permits = self.o_permits - 1;
            self.o_inside = self.o_inside + 1;
            true
        } else {
            false
        }
    }

    /// An admitted hydrogen atom reaches the barrier.  Returns the
    /// generation to wait out and whether it completed the group, which then
    /// always is two hydrogens and one oxygen.
    pub fn hydrogen_meets(&mut self) -> (r: (usize, bool))
        requires
            old(self)@.inv(),
            old(self)@.h_waiting < old(self)@.h_inside,
            old(self)@.barrier.generation < usize::MAX,
        ensures
            final(self)@.inv(),
            r.0 as nat == old(self)@.barrier.generation,
            r.1 == (old(self)@.barrier.count + 1 == 3),
            r.1 ==> old(self)@.h_waiting + 1 == H_PER_MOLECULE && old(self)@.o_waiting
                == O_PER_MOLECULE,
            r.1 ==> final(self)@ == (FactoryView {
                barrier: old(self)@.barrier.after_arrive(),
                h_waiting: 0,
                o_waiting: 0,
                groups: old(self)@.groups + 1,
                h_met: old(self)@.h_met + 1,
                ..old(self)@
            }),
            !r.1 ==> final(self)@ == (FactoryView {
                barrier: old(self)@.barrier.after_arrive(),
                h_waiting: old(self)@.h_waiting + 1,
                h_met: old(self)@.h_met + 1,
                ..old(self)@
            }),
    {
        let r = self.barrier.arrive_and_wait();
        proof {
            self.h_met@ = self.h_met@ + 1;
        }
        if r.1 {
            self.h_waiting = 0;
            self.o_waiting = 0;
            proof {
                self.groups@ = self.groups@ + 1;
            }
        } else {
            self.h_waiting = self.h_waiting + 1;
        }
        r
    }

    /// An admitted oxygen atom reaches the barrier.  Returns the generation
    /// to wait out and whether it completed the group, which then always is
    /// two hydrogens and one oxygen.
    pub fn oxygen_meets(&mut self) -> (r: (usize, bool))
        requires
            old(self)@.inv(),
            old(self)@.o_waiting < old(self)@.o_inside,
            old(self)@.barrier.generation < usize::MAX,
        ensures
            final(self)@.inv(),
            r.0 as nat == old(self)@.barrier.generation,
            r.1 == (old(self)@.barrier.count + 1 == 3),
            r.1 ==> old(self)@.h_waiting == H_PER_MOLECULE && old(self)@.o_waiting + 1
                == O_PER_MOLECULE,
            r.1 ==> final(self)@ == (FactoryView {
                barrier: old(self)@.barrier.after_arrive(),
                h_waiting: 0,
                o_waiting: 0,
                groups: old(self)@.groups + 1,
                o_met: old(self)@.o_met + 1,
                ..old(self)@
            }),
            !r.1 ==> final(self)@ == (FactoryView {
                barrier: old(self)@.barrier.after_arrive(),
                o_waiting: old(self)@.o_waiting + 1,
                o_met: old(self)@.o_met + 1,
                ..old(self)@
            }),
    {
        let r = self.barrier.arrive_and_wait();
        proof {
            self.o_met@ = self.o_met@ + 1;
        }
        if r.1 {
            self.h_waiting = 0;
            self.o_waiting = 0;
            proof {
                self.groups@ = self.groups@ + 1;
            }
        } else {
            self.o_waiting = self.o_waiting + 1;
        }
        r
    }

    /// Whether atoms that met in generation `gen` may go on to bond.
    pub fn is_released(&self, gen: usize) -> (r: bool)
        ensures
            r == (self@.barrier.generation != gen as nat),
    {
        self.barrier.is_released(gen)
    }

    /// A hydrogen atom that passed the barrier and bonded gives its permit
    /// back.
    pub fn hydrogen_done(&mut self)
        requires
            old(self)@.inv(),
            old(self)@.h_inside > old(self)@.h_waiting,
        ensures
            final(self)@.inv(),
            final(self)@ == (FactoryView {
                h_permits: old(self)@.h_permits + 1,
                h_inside: (old(self)@.h_inside - 1) as nat,
                ..old(self)@
            }),
    {
        self.h_permits = self.h_permits + 1;
        self.h_inside = self.h_inside - 1;
    }

    /// An oxygen atom that passed the barrier and bonded gives its permit
    /// back.
    pub fn oxygen_done(&mut self)
        requires
            old(self)@.inv(),
            old(self)@.o_inside > old(self)@.o_waiting,
        ensures
            final(self)@.inv(),
            final(self)@ == (FactoryView {
                o_permits: old(self)@.o_permits + 1,
                o_inside: (old(self)@.o_inside - 1) as nat,
                ..old(self)@
            }),
    {
        self.o_permits = self.o_permits + 1;
        self.o_inside = self.o_inside - 1;
    }

    pub fn h_inside(&self) -> (n: usize)
        ensures
            n as nat == self@.h_inside,
    {
        self.h_inside
    }

    pub fn o_inside(&self) -> (n: usize)
        ensures
            n as nat == self@.o_inside,
    {
        self.o_inside
    }

    /// Hydrogen atoms waiting at the barrier.
    pub fn h_waiting(&self) -> (n: usize)
        ensures
            n as nat == self@.h_waiting,
    {
        self.h_waiting
    }

    /// Oxygen atoms waiting at the barrier.
    pub fn o_waiting(&self) -> (n: usize)
        ensures
            n as nat == self@.o_waiting,
    {
        self.o_waiting
    }

    pub fn generation(&self) -> (g: usize)
        ensures
            g as nat == self@.barrier.generation,
    {
        self.barrier.generation()
    }
}

/// Law: no more than two hydrogen atoms and one oxygen atom are ever past
/// the semaphores together, so no bond holds three hydrogens or two oxygens.
pub proof fn lemma_no_ozone(s: FactoryView)
    requires
        s.inv(),
    ensures
        s.h_inside <= H_PER_MOLECULE,
        s.o_inside <= O_PER_MOLECULE,
        s.h_inside + s.o_inside <= 3,
{
}

/// Law: the atoms that met at the barrier so far make whole molecules plus
/// those still waiting; when nobody waits, exactly two hydrogens per oxygen
/// have met, one group per molecule.
pub proof fn lemma_groups_are_molecules(s: FactoryView)
    requires
        s.inv(),
    ensures
        s.h_met == 2 * s.groups + s.h_waiting,
        s.o_met == s.groups + s.o_waiting,
        s.barrier.count == 0 ==> s.h_met == 2 * s.groups && s.o_met == s.groups,
{
}

/// The witness kept around bonding: atoms of each kind bonding right now,
/// the most atoms ever seen bonding together, and completed bonds by kind.
pub struct BondMonitor {
    h_in_bond: usize,
    o_in_bond: usize,
    max_total: usize,
    h_bonds: usize,
    o_bonds: usize,
}

/// The mathematical state of a `BondMonitor`.
pub struct BondView {
    pub h_in_bond: nat,
    pub o_in_bond: nat,
    pub max_total: nat,
    pub h_bonds: nat,
    pub o_bonds: nat,
}

impl View for BondMonitor {
    type V = BondView;

    closed spec fn view(&self) -> BondView {
        BondView {
            h_in_bond: self.h_in_bond as nat,
            o_in_bond: self.o_in_bond as nat,
            max_total: self.max_total as nat,
            h_bonds: self.h_bonds as nat,
            o_bonds: self.o_bonds as nat,
        }
    }
}

impl BondMonitor {
    pub fn new() -> (m: BondMonitor)
        ensures
            m@ == (BondView { h_in_bond: 0, o_in_bond: 0, max_total: 0, h_bonds: 0, o_bonds: 0 }),
    {
        BondMonitor { h_in_bond: 0, o_in_bond: 0, max_total: 0, h_bonds: 0, o_bonds: 0 }
    }

    /// A hydrogen atom starts bonding; returns how many hydrogens bond now.
    pub fn start_h(&mut self) -> (now: usize)
        requires
            old(self)@.h_in_bond < usize::MAX,
        ensures
            final(self)@ == (BondView { h_in_bond: old(self)@.h_in_bond + 1, ..old(self)@ }),
            now as nat == final(self)@.h_in_bond,
    {
        self.h_in_bond = self.h_in_bond + 1;
        self.h_in_bond
    }

    /// An oxygen atom starts bonding; returns how many oxygens bond now.
    pub fn start_o(&mut self) -> (now: usize)
        requires
            old(self)@.o_in_bond < usize::MAX,
        ensures
            final(self)@ == (BondView { o_in_bond: old(self)@.o_in_bond + 1, ..old(self)@ }),
            now as nat == final(self)@.o_in_bond,
    {
        self.o_in_bond = self.o_in_bond + 1;
        self.o_in_bond
    }

    /// Records the number of atoms bonding right now in the running maximum.
    pub fn update_max_total(&mut self)
        requires
            old(self)@.h_in_bond + old(self)@.o_in_bond <= usize::MAX,
        ensures
            final(self)@ == (BondView {
                max_total: spec_max(old(self)@.max_total, old(self)@.h_in_bond + old(self)@.o_in_bond),
                ..old(self)@
            }),
            final(self)@.max_total >= final(self)@.h_in_bond + final(self)@.o_in_bond,
    {
        let total = self.h_in_bond + self.o_in_bond;
        self.max_total = update_max(self.max_total, total);
    }

    /// A hydrogen atom finishes bonding.
    pub fn end_h(&mut self)
        requires
            old(self)@.h_in_bond > 0,
            old(self)@.h_bonds < usize::MAX,
        ensures
            final(self)@ == (BondView {
                h_in_bond: (old(self)@.h_in_bond - 1) as nat,
                h_bonds: old(self)@.h_bonds + 1,
                ..old(self)@
            }),
    {
        self.h_in_bond = self.h_in_bond - 1;
        self.h_bonds = self.h_bonds + 1;
    }

    /// An oxygen atom finishes bonding.
    pub fn end_o(&mut self)
        requires
            old(self)@.o_in_bond > 0,
            old(self)@.o_bonds < usize::MAX,
        ensures
            final(self)@ == (BondView {
                o_in_bond: (old(self)@.o_in_bond - 1) as nat,
                o_bonds: old(self)@.o_bonds + 1,
                ..old(self)@
            }),
    {
        self.o_in_bond = self.o_in_bond - 1;
        self.o_bonds = self.o_bonds + 1;
    }

    pub fn h_in_bond(&self) -> (n: usize)
        ensures
            n as nat == self@.h_in_bond,
    {
        self.h_in_bond
    }

    pub fn o_in_bond(&self) -> (n: usize)
        ensures
            n as nat == self@.o_in_bond,
    {
        self.o_in_bond
    }

    pub fn h_bonds(&self) -> (n: usize)
        ensures
            n as nat == self@.h_bonds,
    {
        self.h_bonds
    }

    pub fn o_bonds(&self) -> (n: usize)
        ensures
            n as nat == self@.o_bonds,
    {
        self.o_bonds
    }

    pub fn max_total(&self) -> (n: usize)
        ensures
            n as nat == self@.max_total,
    {
        self.max_total
    }
}

} // verus!
