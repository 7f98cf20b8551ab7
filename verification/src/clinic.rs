use vstd::prelude::*;
use crate::bounded_buffer::{BoundedBuffer, BufferView};

verus! {

/// Doctors in the clinic.
pub const M_DOCTORS: usize = 3;
/// Chairs in the waiting room.
pub const K_CHAIRS: usize = 5;

/// Patient `id` asks for a chair in the waiting room: returns true, and the
/// patient waits to be seen, when a chair is free; false, and the patient
/// leaves, when all are taken.  The room must still be open.
pub fn patient_action(room: &mut BoundedBuffer<usize>, id: usize) -> (seated: bool)
    requires
        old(room)@.inv(),
        !old(room)@.closed,
    ensures
        final(room)@.inv(),
        seated == (old(room)@.items.len() < old(room)@.capacity),
        seated ==> final(room)@ == old(room)@.after_push(id),
        !seated ==> final(room)@ == old(room)@,
{
    match room.try_push(id) {
        Ok(()) => true,
        Err(_) => false,
    }
}

/// How many doctors are seeing a patient.
pub open spec fn count_busy(s: Seq<Option<usize>>) -> nat
    decreases s.len(),
{
    if s.len() == 0 {
        0
    } else {
        count_busy(s.drop_last()) + if s.last() is Some { 1nat } else { 0nat }
    }
}

proof fn lemma_count_busy_bounded(s: Seq<Option<usize>>)
    ensures
        count_busy(s) <= s.len(),
    decreases s.len(),
{
    if s.len() > 0 {
        lemma_count_busy_bounded(s.drop_last());
    }
}

proof fn lemma_count_busy_update(s: Seq<Option<usize>>, i: int, v: Option<usize>)
    requires
        0 <= i < s.len(),
    ensures
        count_busy(s.update(i, v)) + (if s[i] is Some { 1int } else { 0int }) == count_busy(s) + (
        if v is Some { 1int } else { 0int }),
    decreases s.len(),
{
    let t = s.update(i, v);
    if i == s.len() - 1 {
        assert(t.drop_last() =~= s.drop_last());
    } else {
        lemma_count_busy_update(s.drop_last(), i, v);
        assert(t.drop_last() =~= s.drop_last().update(i, v));
    }
}

/// The clinic under its lock: the waiting room, what each doctor is doing
/// (the patient it sees, if any), the most doctors ever busy together, and
/// the count of patients who came, were seen, or left for want of a chair.
pub struct Clinic {
    room: BoundedBuffer<usize>,
    doctors: Vec<Option<usize>>,
    busy: usize,
    peak: usize,
    arrived: Ghost<nat>,
    served: Ghost<nat>,
    balked: Ghost<nat>,
}

/// The mathematical state of a `Clinic`.
pub struct ClinicView {
    pub room: BufferView<usize>,
    pub doctors: Seq<Option<usize>>,
    pub busy: nat,
    pub peak: nat,
    pub arrived: nat,
    pub served: nat,
    pub balked: nat,
}

impl ClinicView {
    /// Every patient who came was seen, left, waits in a chair, or is with a
    /// doctor; the busy doctors are counted exactly.
    pub open spec fn inv(self) -> bool {
        &&& self.room.inv()
        &&& self.room.capacity == K_CHAIRS
        &&& self.doctors.len() == M_DOCTORS
        &&& self.busy == count_busy(self.doctors)
        &&& self.busy <= self.peak <= M_DOCTORS
        &&& self.served + self.balked + self.room.items.len() + self.busy == self.arrived
    }
}

impl View for Clinic {
    type V = ClinicView;

    closed spec fn view(&self) -> ClinicView {
        ClinicView {
            room: self.room@,
            doctors: self.doctors@,
            busy: self.busy as nat,
            peak: self.peak as nat,
            arrived: self.arrived@,
            served: self.served@,
            balked: self.balked@,
        }
    }
}

impl Clinic {
    /// An open, empty waiting room and idle doctors.
    pub fn new() -> (c: Clinic)
        ensures
            c@.inv(),
            c@.room.items.len() == 0,
            !c@.room.closed,
            c@.doctors == Seq::new(M_DOCTORS as nat, |i: int| None::<usize>),
            c@.busy == 0 && c@.peak == 0,
            c@.arrived == 0 && c@.served == 0 && c@.balked == 0,
    {
        let mut doctors: Vec<Option<usize>> = Vec::new();
        let mut i: usize = 0;
        while i < M_DOCTORS
            invariant
                i <= M_DOCTORS,
                doctors@ == Seq::new(i as nat, |j: int| None::<usize>),
            decreases M_DOCTORS - i,
        {
            doctors.push(None);
            i = i + 1;
            assert(doctors@ =~= Seq::new(i as nat, |j: int| None::<usize>));
        }
        let c = Clinic {
            room: BoundedBuffer::new(K_CHAIRS),
            doctors,
            busy: 0,
            peak: 0,
            arrived: Ghost(0),
            served: Ghost(0),
            balked: Ghost(0),
        };
        proof {
            lemma_all_idle(M_DOCTORS as nat);
        }
        c
    }

    /// Patient `id` arrives: sits down if a chair is free (returns true),
    /// otherwise leaves (returns false).  The clinic must still be open.
    pub fn patient_arrives(&mut self, id: usize) -> (seated: bool)
        requires
            old(self)@.inv(),
            !old(self)@.room.closed,
        ensures
            final(self)@.inv(),
            seated == (old(self)@.room.items.len() < K_CHAIRS),
            seated ==> final(self)@ == (ClinicView {
                room: old(self)@.room.after_push(id),
                arrived: old(self)@.arrived + 1,
                ..old(self)@
            }),
            !seated ==> final(self)@ == (ClinicView {
                arrived: old(self)@.arrived + 1,
                balked: old(self)@.balked + 1,
                ..old(self)@
            }),
    {
        let seated = patient_action(&mut self.room, id);
        proof {
            self.arrived@ = self.arrived@ + 1;
            if !seated {
                self.balked@ = self.balked@ + 1;
            }
        }
        seated
    }

    /// Whether an idle doctor may stop waiting: a patient waits, or the
    /// clinic closed.
    pub fn can_take(&self) -> (r: bool)
        ensures
            r == self@.room.can_pop(),
    {
        self.room.can_pop()
    }

    /// Idle doctor `doc` calls the patient who waited longest and starts the
    /// consultation; `None` once the clinic closed and nobody waits.
    pub fn doctor_takes(&mut self, doc: usize) -> (next: Option<usize>)
        requires
            old(self)@.inv(),
            doc < M_DOCTORS,
            old(self)@.doctors[doc as int] is None,
            old(self)@.room.can_pop(),
        ensures
            final(self)@.inv(),
            old(self)@.room.items.len() == 0 ==> next is None && final(self)@ == old(self)@,
            old(self)@.room.items.len() > 0 ==> next == Some(old(self)@.room.items[0])
                && final(self)@ == (ClinicView {
                room: old(self)@.room.after_pop(),
                doctors: old(self)@.doctors.update(doc as int, Some(old(self)@.room.items[0])),
                busy: old(self)@.busy + 1,
                peak: if old(self)@.peak >= old(self)@.busy + 1 {
                    old(self)@.peak
                } else {
                    old(self)@.busy + 1
                },
                ..old(self)@
            }),
            final(self)@.busy <= M_DOCTORS,
    {
        let next = self.room.pop();
        match next {
            Some(p) => {
                proof {
                    lemma_count_busy_update(self.doctors@, doc as int, Some(p));
                    lemma_count_busy_bounded(self.doctors@.update(doc as int, Some(p)));
                }
                self.doctors.set(doc, Some(p));
                self.busy = self.busy + 1;
                if self.busy > self.peak {
                    self.peak = self.busy;
                }
                Some(p)
            },
            None => None,
        }
    }

    /// Doctor `doc` finishes its consultation; returns the patient, who
    /// leaves seen.
    pub fn doctor_finishes(&mut self, doc: usize) -> (patient: usize)
        requires
            old(self)@.inv(),
            doc < M_DOCTORS,
            old(self)@.doctors[doc as int] is Some,
        ensures
            final(self)@.inv(),
            Some(patient) == old(self)@.doctors[doc as int],
            final(self)@ == (ClinicView {
                doctors: old(self)@.doctors.update(doc as int, None),
                busy: (old(self)@.busy - 1) as nat,
                served: old(self)@.served + 1,
                ..old(self)@
            }),
    {
        let p = self.doctors[doc].unwrap();
        proof {
            lemma_count_busy_update(self.doctors@, doc as int, None);
        }
        self.doctors.set(doc, None);
        self.busy = self.busy - 1;
        proof {
            self.served@ = self.served@ + 1;
        }
        p
    }

    /// Closes the clinic: no more patients sit down; doctors see the ones
    /// still waiting and then stop.
    pub fn close(&mut self)
        requires
            old(self)@.inv(),
        ensures
            final(self)@.inv(),
            final(self)@ == (ClinicView {
                room: BufferView { closed: true, ..old(self)@.room },
                ..old(self)@
            }),
    {
        self.room.close();
    }

    pub fn is_closed(&self) -> (c: bool)
        ensures
            c == self@.room.closed,
    {
        self.room.is_closed()
    }

    pub fn is_idle(&self, doc: usize) -> (idle: bool)
        requires
            self@.inv(),
            doc < M_DOCTORS,
        ensures
            idle == self@.doctors[doc as int] is None,
    {
        self.doctors[doc].is_none()
    }

    /// How many doctors see a patient right now.
    pub fn busy(&self) -> (n: usize)
        ensures
            n as nat == self@.busy,
    {
        self.busy
    }

    /// The most doctors ever busy together.
    pub fn peak(&self) -> (n: usize)
        ensures
            n as nat == self@.peak,
    {
        self.peak
    }
}

proof fn lemma_all_idle(n: nat)
    ensures
        count_busy(Seq::new(n, |i: int| None::<usize>)) == 0,
    decreases n,
{
    if n > 0 {
        lemma_all_idle((n - 1) as nat);
        assert(Seq::new(n, |i: int| None::<usize>).drop_last() =~= Seq::new(
            (n - 1) as nat,
            |i: int| None::<usize>,
        ));
    }
}

/// Law: no more than `M_DOCTORS` doctors are ever consulting at once, and
/// never more than the recorded peak.
pub proof fn lemma_doctors_bounded(c: ClinicView)
    requires
        c.inv(),
    ensures
        c.busy <= M_DOCTORS,
        c.busy <= c.peak,
{
}

/// Law: once the clinic has closed, its room is empty and every doctor is
/// idle, every patient who came was either seen or left for want of a chair.
pub proof fn lemma_patients_accounted(c: ClinicView)
    requires
        c.inv(),
        c.room.items.len() == 0,
        c.busy == 0,
    ensures
        c.served + c.balked == c.arrived,
{
}

} // verus!
