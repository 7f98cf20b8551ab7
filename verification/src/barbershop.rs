use vstd::prelude::*;

verus! {

/// Chairs in the shop, the barber's included: a customer who finds them
/// all taken leaves without a haircut.
pub const CHAIRS: usize = 3;

/// The state of the barbershop under its lock: customers in the shop, the
/// four rendezvous signals counted like semaphore permits, and the stop flag.
pub struct Barbershop {
    customers: usize,
    customer_ready: usize,
    barber_ready: usize,
    customer_done: usize,
    barber_done: usize,
    stop: bool,
    arrived: Ghost<nat>,
    served: Ghost<nat>,
    balked: Ghost<nat>,
    cuts: Ghost<nat>,
}

/// The mathematical state of a `Barbershop`.
pub struct ShopView {
    pub customers: nat,
    pub customer_ready: nat,
    pub barber_ready: nat,
    pub customer_done: nat,
    pub barber_done: nat,
    pub stop: bool,
    pub arrived: nat,
    pub served: nat,
    pub balked: nat,
    pub cuts: nat,
}

impl ShopView {
    /// The shop never holds more than `CHAIRS` customers, every customer
    /// who came is served, turned away, or still inside, and every finished
    /// haircut has either let one customer leave served or is still waiting
    /// for its customer to notice.
    pub open spec fn inv(self) -> bool {
        &&& self.customers <= CHAIRS
        &&& self.served + self.balked + self.customers == self.arrived
        &&& self.served + self.barber_done == self.cuts
    }
}

impl View for Barbershop {
    type V = ShopView;

    closed spec fn view(&self) -> ShopView {
        ShopView {
            customers: self.customers as nat,
            customer_ready: self.customer_ready as nat,
            barber_ready: self.barber_ready as nat,
            customer_done: self.customer_done as nat,
            barber_done: self.barber_done as nat,
            stop: self.stop,
            arrived: self.arrived@,
            served: self.served@,
            balked: self.balked@,
            cuts: self.cuts@,
        }
    }
}

impl Barbershop {
    /// An empty shop, no signal pending, the barber at work.
    pub fn new() -> (s: Barbershop)
        ensures
            s@ == (ShopView {
                customers: 0,
                customer_ready: 0,
                barber_ready: 0,
                customer_done: 0,
                barber_done: 0,
                stop: false,
                arrived: 0,
                served: 0,
                balked: 0,
                cuts: 0,
            }),
            s@.inv(),
    {
        Barbershop {
            customers: 0,
            customer_ready: 0,
            barber_ready: 0,
            customer_done: 0,
            barber_done: 0,
            stop: false,
            arrived: Ghost(0),
            served: Ghost(0),
            balked: Ghost(0),
            cuts: Ghost(0),
        }
    }

    /// A customer arrives.  Returns false, and the customer balks, when all
    /// chairs are taken; otherwise the customer takes a chair and signals
    /// the barber.
    pub fn customer(&mut self, _id: i32) -> (seated: bool)
        requires
            old(self)@.inv(),
            old(self)@.customer_ready < usize::MAX,
        ensures
            final(self)@.inv(),
            seated == (old(self)@.customers < CHAIRS),
            seated ==> final(self)@ == (ShopView {
                customers: old(self)@.customers + 1,
                customer_ready: old(self)@.customer_ready + 1,
                arrived: old(self)@.arrived + 1,
                ..old(self)@
            }),
            !seated ==> final(self)@ == (ShopView {
                arrived: old(self)@.arrived + 1,
                balked: old(self)@.balked + 1,
                ..old(self)@
            }),
    {
        proof {
            self.arrived@ = self.arrived@ + 1;
        }
        if self.customers == CHAIRS {
            proof {
                self.balked@ = self.balked@ + 1;
            }
            false
        } else {
            self.customers = self.customers + 1;
            self.customer_ready = self.customer_ready + 1;
            true
        }
    }

    /// A seated customer takes the barber's "ready" signal if it was given.
    pub fn take_barber_ready(&mut self) -> (taken: bool)
        ensures
            taken == (old(self)@.barber_ready > 0),
            taken ==> final(self)@ == (ShopView {
                barber_ready: (old(self)@.barber_ready - 1) as nat,
                ..old(self)@
            }),
            !taken ==> final(self)@ == old(self)@,
    {
        if self.barber_ready > 0 {
            self.barber_ready = self.barber_ready - 1;
            true
        } else {
            false
        }
    }

    /// A customer in the chair waits for the barber's "done" signal; once it
    /// was given, the customer takes it, tells the barber it is done, and
    /// leaves served.  Returns whether the customer left.
    pub fn customer_leaves(&mut self) -> (left: bool)
        requires
            old(self)@.inv(),
            old(self)@.customers > 0,
            old(self)@.customer_done < usize::MAX,
        ensures
            final(self)@.inv(),
            left == (old(self)@.barber_done > 0),
            left ==> final(self)@ == (ShopView {
                customers: (old(self)@.customers - 1) as nat,
                barber_done: (old(self)@.barber_done - 1) as nat,
                customer_done: old(self)@.customer_done + 1,
                served: old(self)@.served + 1,
                ..old(self)@
            }),
            !left ==> final(self)@ == old(self)@,
    {
        if self.barber_done > 0 {
            self.barber_done = self.barber_done - 1;
            self.customer_done = self.customer_done + 1;
            self.customers = self.customers - 1;
            proof {
                self.served@ = self.served@ + 1;
            }
            true
        } else {
            false
        }
    }

    /// Whether the barber keeps working: nobody asked it to stop.
    pub fn barber(&self) -> (working: bool)
        ensures
            working == !self@.stop,
    {
        !self.stop
    }

    /// The barber takes a customer's "ready" signal if one was given.
    pub fn take_customer_ready(&mut self) -> (taken: bool)
        ensures
            taken == (old(self)@.customer_ready > 0),
            taken ==> final(self)@ == (ShopView {
                customer_ready: (old(self)@.customer_ready - 1) as nat,
                ..old(self)@
            }),
            !taken ==> final(self)@ == old(self)@,
    {
        if self.customer_ready > 0 {
            self.customer_ready = self.customer_ready - 1;
            true
        } else {
            false
        }
    }

    /// The barber calls the next customer to the chair.
    pub fn barber_ready(&mut self)
        requires
            old(self)@.barber_ready < usize::MAX,
        ensures
            final(self)@ == (ShopView { barber_ready: old(self)@.barber_ready + 1, ..old(self)@ }),
    {
        self.barber_ready = self.barber_ready + 1;
    }

    /// The barber finishes a haircut.
    pub fn barber_done(&mut self)
        requires
            old(self)@.inv(),
            old(self)@.barber_done < usize::MAX,
        ensures
            final(self)@.inv(),
            final(self)@ == (ShopView {
                barber_done: old(self)@.barber_done + 1,
                cuts: old(self)@.cuts + 1,
                ..old(self)@
            }),
    {
        self.barber_done = self.barber_done + 1;
        proof {
            self.cuts@ = self.cuts@ + 1;
        }
    }

    /// The barber takes the customer's "done" signal if it was given.
    pub fn take_customer_done(&mut self) -> (taken: bool)
        ensures
            taken == (old(self)@.customer_done > 0),
            taken ==> final(self)@ == (ShopView {
                customer_done: (old(self)@.customer_done - 1) as nat,
                ..old(self)@
            }),
            !taken ==> final(self)@ == old(self)@,
    {
        if self.customer_done > 0 {
            self.customer_done = self.customer_done - 1;
            true
        } else {
            false
        }
    }

    /// Asks the barber to stop, and wakes it with one more "ready" signal
    /// in case it is waiting for a customer.  This is the shutdown of the
    /// shop whose barber waits on a condition: once the barber was asked to
    /// stop, asking again changes nothing.
    pub fn shutdown(&mut self)
        requires
            old(self)@.customer_ready < usize::MAX,
        ensures
            !old(self)@.stop ==> final(self)@ == (ShopView {
                stop: true,
                customer_ready: old(self)@.customer_ready + 1,
                ..old(self)@
            }),
            old(self)@.stop ==> final(self)@ == old(self)@,
    {
        if !self.stop {
            self.stop = true;
            self.customer_ready = self.customer_ready + 1;
        }
    }

    /// Asks the barber to stop and always posts one more "ready" signal, as
    /// a semaphore's release does: this is the shutdown of the shop whose
    /// barber waits on semaphores, where every call adds a wake-up.
    pub fn shutdown_and_signal(&mut self)
        requires
            old(self)@.customer_ready < usize::MAX,
        ensures
            final(self)@ == (ShopView {
                stop: true,
                customer_ready: old(self)@.customer_ready + 1,
                ..old(self)@
            }),
    {
        self.stop = true;
        self.customer_ready = self.customer_ready + 1;
    }

    /// Whether every rendezvous signal can still be counted up once more.
    pub fn signals_fit(&self) -> (r: bool)
        ensures
            r == (self@.customer_ready < usize::MAX && self@.barber_ready < usize::MAX
                && self@.customer_done < usize::MAX && self@.barber_done < usize::MAX),
    {
        self.customer_ready < usize::MAX && self.barber_ready < usize::MAX && self.customer_done
            < usize::MAX && self.barber_done < usize::MAX
    }

    pub fn customers(&self) -> (n: usize)
        ensures
            n as nat == self@.customers,
    {
        self.customers
    }
}

/// Law: the shop never holds more than `CHAIRS` customers, and once it is
/// empty every customer who came was either served or turned away.
pub proof fn lemma_customers_accounted(s: ShopView)
    requires
        s.inv(),
    ensures
        s.customers <= CHAIRS,
        s.customers == 0 ==> s.served + s.balked == s.arrived,
{
}

/// Law: no customer leaves served without a finished haircut: the customers
/// served never outnumber the haircuts the barber finished, and once no
/// "done" signal is pending they are equal.
pub proof fn lemma_served_are_haircuts(s: ShopView)
    requires
        s.inv(),
    ensures
        s.served <= s.cuts,
        s.barber_done == 0 ==> s.served == s.cuts,
{
}

} // verus!
