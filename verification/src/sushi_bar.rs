use vstd::prelude::*;

verus! {

/// Number of seats; once they are all taken together the door closes until
/// the whole group has left.
pub const GROUP_SIZE: usize = 5;

/// The state of the sushi bar that customers share under one lock.
pub struct SushiBar {
    seated: usize,
    must_leave: usize,
    draining: bool,
}

/// The mathematical state of a `SushiBar`: customers seated, how many of a
/// full group still have to leave, and whether the door is closed.
pub struct SushiView {
    pub seated: nat,
    pub must_leave: nat,
    pub draining: bool,
}

impl SushiView {
    /// While the door is open fewer than `GROUP_SIZE` sit and nobody owes a
    /// leave; while it is closed every seated customer belongs to the full
    /// group and still has to leave.
    pub open spec fn inv(self) -> bool {
        &&& !self.draining ==> self.seated < GROUP_SIZE && self.must_leave == 0
        &&& self.draining ==> 1 <= self.must_leave && self.must_leave == self.seated
            && self.seated <= GROUP_SIZE
    }

    /// A customer sits down; the one who fills the last seat closes the door.
    pub open spec fn after_arrive(self) -> SushiView {
        if self.seated + 1 == GROUP_SIZE {
            SushiView { seated: self.seated + 1, must_leave: GROUP_SIZE as nat, draining: true }
        } else {
            SushiView { seated: self.seated + 1, ..self }
        }
    }

    /// A customer leaves; the last of a full group reopens the door.
    pub open spec fn after_leave(self) -> SushiView
        recommends
            self.seated > 0,
    {
        if self.draining {
            let m = (self.must_leave - 1) as nat;
            SushiView { seated: (self.seated - 1) as nat, must_leave: m, draining: m != 0 }
        } else {
            SushiView { seated: (self.seated - 1) as nat, ..self }
        }
    }

    /// The state after `n` seated customers left one after the other.
    pub open spec fn after_leaves(self, n: nat) -> SushiView
        decreases n,
    {
        if n == 0 {
            self
        } else {
            self.after_leave().after_leaves((n - 1) as nat)
        }
    }
}

impl View for SushiBar {
    type V = SushiView;

    closed spec fn view(&self) -> SushiView {
        SushiView {
            seated: self.seated as nat,
            must_leave: self.must_leave as nat,
            draining: self.draining,
        }
    }
}

impl SushiBar {
    /// An empty bar with the door open.
    pub fn new() -> (b: SushiBar)
        ensures
            b@ == (SushiView { seated: 0, must_leave: 0, draining: false }),
            b@.inv(),
    {
        SushiBar { seated: 0, must_leave: 0, draining: false }
    }

    /// Whether arriving customers must wait at the door.
    pub fn must_wait(&self) -> (w: bool)
        ensures
            w == self@.draining,
    {
        self.draining
    }

    /// A customer who found the door open sits down.
    pub fn arrive(&mut self, _id: usize)
        requires
            old(self)@.inv(),
            !old(self)@.draining,
        ensures
            final(self)@ == old(self)@.after_arrive(),
            final(self)@.seated == old(self)@.seated + 1,
            final(self)@.draining == (old(self)@.seated + 1 == GROUP_SIZE),
            final(self)@.inv(),
    {
        self.seated = self.seated + 1;
        if self.seated == GROUP_SIZE {
            self.must_leave = GROUP_SIZE;
            self.draining = true;
        }
    }

    /// A seated customer leaves; returns whether the door reopened, in which
    /// case every waiting customer has to be woken.
    pub fn leave(&mut self, _id: usize) -> (reopened: bool)
        requires
            old(self)@.inv(),
            old(self)@.seated > 0,
        ensures
            final(self)@ == old(self)@.after_leave(),
            final(self)@.seated == old(self)@.seated - 1,
            final(self)@.draining == (old(self)@.draining && old(self)@.must_leave > 1),
            final(self)@.inv(),
            reopened == (old(self)@.draining && old(self)@.must_leave == 1),
    {
        if self.draining {
            self.seated = self.seated - 1;
            self.must_leave = self.must_leave - 1;
            if self.must_leave == 0 {
                self.draining = false;
                true
            } else {
                false
            }
        } else {
            self.seated = self.seated - 1;
            false
        }
    }

    pub fn seated(&self) -> (n: usize)
        ensures
            n as nat == self@.seated,
    {
        self.seated
    }
}

/// Law (every diner is counted in and out): an arrival raises the number
/// seated by exactly one, and a leave, with the door open or closed, lowers
/// it by exactly one; a bar whose only diner left is empty.  The door closes
/// only on the arrival that fills the last seat and reopens only when the
/// last of the full group leaves.
pub proof fn lemma_seats_counted(s: SushiView)
    requires
        s.inv(),
    ensures
        !s.draining ==> s.after_arrive().seated == s.seated + 1,
        !s.draining ==> (s.after_arrive().draining <==> s.seated + 1 == GROUP_SIZE),
        s.seated > 0 ==> s.after_leave().seated == s.seated - 1,
        s.seated > 0 ==> (s.after_leave().draining <==> s.draining && s.must_leave > 1),
        s.seated > 0 ==> s.after_leave().inv(),
        s.seated == 1 ==> s.after_leave().seated == 0,
{
}

/// Law: with the door open and room for one more, a diner arriving and then
/// leaving puts the bar back exactly as it was.
pub proof fn lemma_arrive_leave_inverse(s: SushiView)
    requires
        s.inv(),
        !s.draining,
        s.seated + 1 < GROUP_SIZE,
    ensures
        s.after_arrive().after_leave() == s,
{
}

/// Law: no more than `GROUP_SIZE` customers are ever seated together.
pub proof fn lemma_seats_bounded(s: SushiView)
    requires
        s.inv(),
    ensures
        s.seated <= GROUP_SIZE,
{
}

/// Law: the door closes exactly when an arrival fills the last seat, so if
/// `GROUP_SIZE` customers never sit together it stays open.
pub proof fn lemma_door_closes_when_full(s: SushiView)
    requires
        s.inv(),
        !s.draining,
    ensures
        s.after_arrive().draining <==> s.seated + 1 == GROUP_SIZE,
        s.after_arrive().inv(),
{
}

/// Law: once the door is closed, after every member of the group has left
/// the bar is empty and the door is open again.
pub proof fn lemma_group_drains(s: SushiView)
    requires
        s.inv(),
        s.draining,
    ensures
        s.after_leaves(s.must_leave) == (SushiView { seated: 0, must_leave: 0, draining: false }),
    decreases s.must_leave,
{
    let t = s.after_leave();
    if s.must_leave == 1 {
        assert(t.after_leaves(0) == t);
    } else {
        lemma_group_drains(t);
        assert(s.after_leaves(s.must_leave) == t.after_leaves(t.must_leave));
    }
}

} // verus!
