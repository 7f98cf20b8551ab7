use vstd::prelude::*;

verus! {

/// Counts of readers and writers inside a critical section, kept as a
/// witness beside any readers-writers protocol.
pub struct Counters {
    readers: i32,
    writers: i32,
}

/// The mathematical state of `Counters`.
pub struct CountersView {
    pub readers: int,
    pub writers: int,
}

/// The exclusion that every readers-writers protocol must keep: either no
/// writer (and any number of readers) or exactly one writer and no reader.
pub open spec fn exclusive(c: CountersView) -> bool {
    (c.writers == 0 && c.readers >= 0) || (c.writers == 1 && c.readers == 0)
}

impl View for Counters {
    type V = CountersView;

    closed spec fn view(&self) -> CountersView {
        CountersView { readers: self.readers as int, writers: self.writers as int }
    }
}

impl Counters {
    pub fn new() -> (c: Counters)
        ensures
            c@ == (CountersView { readers: 0, writers: 0 }),
    {
        Counters { readers: 0, writers: 0 }
    }

    /// A reader enters; returns whether no writer was inside.
    pub fn enter_read(&mut self) -> (ok: bool)
        requires
            old(self)@.readers < i32::MAX,
        ensures
            final(self)@ == (CountersView { readers: old(self)@.readers + 1, writers: old(self)@.writers }),
            ok == (old(self)@.writers == 0),
    {
        self.readers = self.readers + 1;
        self.writers == 0
    }

    /// A reader leaves.
    pub fn exit_read(&mut self)
        requires
            old(self)@.readers > i32::MIN,
        ensures
            final(self)@ == (CountersView { readers: old(self)@.readers - 1, writers: old(self)@.writers }),
    {
        self.readers = self.readers - 1;
    }

    /// A writer enters; returns whether it is now alone: the only writer,
    /// and no reader.
    pub fn enter_write(&mut self) -> (ok: bool)
        requires
            old(self)@.writers < i32::MAX,
        ensures
            final(self)@ == (CountersView { readers: old(self)@.readers, writers: old(self)@.writers + 1 }),
            ok == (final(self)@.writers == 1 && final(self)@.readers == 0),
    {
        self.writers = self.writers + 1;
        let w = self.writers;
        let r = self.readers;
        w == 1 && r == 0
    }

    /// A writer leaves.
    pub fn exit_write(&mut self)
        requires
            old(self)@.writers > i32::MIN,
        ensures
            final(self)@ == (CountersView { readers: old(self)@.readers, writers: old(self)@.writers - 1 }),
    {
        self.writers = self.writers - 1;
    }

    pub fn readers(&self) -> (r: i32)
        ensures
            r as int == self@.readers,
    {
        self.readers
    }

    pub fn writers(&self) -> (w: i32)
        ensures
            w as int == self@.writers,
    {
        self.writers
    }
}

/// The shared state of the lightswitch-and-turnstile readers-writers
/// protocol: a turnstile that a writer holds for its whole visit and that
/// readers only pass through, a room that is empty or held by the readers
/// together or by one writer, and the count of readers inside.
pub struct RoomLock {
    turnstile_free: bool,
    room_free: bool,
    readers_inside: usize,
    writer_inside: bool,
}

/// The mathematical state of a `RoomLock`.
pub struct RoomView {
    pub turnstile_free: bool,
    pub room_free: bool,
    pub readers_inside: nat,
    pub writer_inside: bool,
}

impl RoomView {
    /// The protocol's invariant.
    pub open spec fn inv(self) -> bool {
        &&& self.writer_inside ==> !self.turnstile_free
        &&& !self.room_free <==> (self.readers_inside > 0 || self.writer_inside)
        &&& !(self.readers_inside > 0 && self.writer_inside)
    }

    /// A writer holds the turnstile but is not in the room yet.
    pub open spec fn writer_waiting(self) -> bool {
        !self.turnstile_free && !self.writer_inside
    }

    /// What a reader's entry does when it is allowed: the first reader
    /// takes the room for all readers.
    pub open spec fn after_reader_enter(self) -> RoomView {
        RoomView {
            room_free: if self.readers_inside == 0 { false } else { self.room_free },
            readers_inside: self.readers_inside + 1,
            ..self
        }
    }

    /// A reader's entry may complete: the readers hold the room or it is free.
    pub open spec fn reader_may_enter(self) -> bool {
        self.readers_inside > 0 || self.room_free
    }

    /// What a reader's exit does: the last reader frees the room.
    pub open spec fn after_reader_exit(self) -> RoomView
        recommends
            self.readers_inside > 0,
    {
        RoomView {
            room_free: if self.readers_inside == 1 { true } else { self.room_free },
            readers_inside: (self.readers_inside - 1) as nat,
            ..self
        }
    }
}

impl View for RoomLock {
    type V = RoomView;

    closed spec fn view(&self) -> RoomView {
        RoomView {
            turnstile_free: self.turnstile_free,
            room_free: self.room_free,
            readers_inside: self.readers_inside as nat,
            writer_inside: self.writer_inside,
        }
    }
}

impl RoomLock {
    /// Turnstile open, room empty.
    pub fn new() -> (l: RoomLock)
        ensures
            l@ == (RoomView {
                turnstile_free: true,
                room_free: true,
                readers_inside: 0,
                writer_inside: false,
            }),
            l@.inv(),
    {
        RoomLock { turnstile_free: true, room_free: true, readers_inside: 0, writer_inside: false }
    }

    /// A reader passes the turnstile (takes it and puts it back at once);
    /// it can only when no writer holds it.
    pub fn reader_pass_turnstile(&self) -> (passed: bool)
        ensures
            passed == self@.turnstile_free,
    {
        self.turnstile_free
    }

    /// A reader that passed the turnstile enters the room if it can;
    /// returns whether it did.
    pub fn reader_enter(&mut self) -> (entered: bool)
        requires
            old(self)@.inv(),
            old(self)@.readers_inside < usize::MAX,
        ensures
            entered == old(self)@.reader_may_enter(),
            entered == (old(self)@.readers_inside > 0 || old(self)@.room_free),
            entered ==> final(self)@ == old(self)@.after_reader_enter(),
            entered ==> final(self)@.readers_inside == old(self)@.readers_inside + 1
                && !final(self)@.room_free,
            !entered ==> final(self)@ == old(self)@,
            final(self)@.inv(),
    {
        if self.readers_inside > 0 {
            self.readers_inside = self.readers_inside + 1;
            true
        } else if self.room_free {
            self.room_free = false;
            self.readers_inside = 1;
            true
        } else {
            false
        }
    }

    /// A reader leaves the room; returns whether it was the last one and so
    /// emptied the room.
    pub fn reader_exit(&mut self) -> (emptied: bool)
        requires
            old(self)@.inv(),
            old(self)@.readers_inside > 0,
        ensures
            final(self)@ == old(self)@.after_reader_exit(),
            final(self)@.readers_inside == old(self)@.readers_inside - 1,
            final(self)@.room_free == (old(self)@.readers_inside == 1),
            emptied == (old(self)@.readers_inside == 1),
            final(self)@.inv(),
    {
        self.readers_inside = self.readers_inside - 1;
        if self.readers_inside == 0 {
            self.room_free = true;
            true
        } else {
            false
        }
    }

    /// A writer takes the turnstile if it is free; returns whether it did.
    pub fn writer_take_turnstile(&mut self) -> (taken: bool)
        requires
            old(self)@.inv(),
        ensures
            taken == old(self)@.turnstile_free,
            taken ==> final(self)@ == (RoomView { turnstile_free: false, ..old(self)@ }),
            !taken ==> final(self)@ == old(self)@,
            final(self)@.inv(),
    {
        if self.turnstile_free {
            self.turnstile_free = false;
            true
        } else {
            false
        }
    }

    /// The writer holding the turnstile enters the room if it is empty;
    /// returns whether it did.
    pub fn writer_enter(&mut self) -> (entered: bool)
        requires
            old(self)@.inv(),
            old(self)@.writer_waiting(),
        ensures
            entered == old(self)@.room_free,
            entered ==> final(self)@ == (RoomView {
                room_free: false,
                writer_inside: true,
                ..old(self)@
            }),
            !entered ==> final(self)@ == old(self)@,
            final(self)@.inv(),
    {
        if self.room_free {
            self.room_free = false;
            self.writer_inside = true;
            true
        } else {
            false
        }
    }

    /// The writer leaves the room and gives back the turnstile.
    pub fn writer_exit(&mut self)
        requires
            old(self)@.inv(),
            old(self)@.writer_inside,
        ensures
            final(self)@ == (RoomView {
                turnstile_free: true,
                room_free: true,
                writer_inside: false,
                ..old(self)@
            }),
            final(self)@.inv(),
    {
        self.room_free = true;
        self.turnstile_free = true;
        self.writer_inside = false;
    }

    pub fn readers_inside(&self) -> (n: usize)
        ensures
            n as nat == self@.readers_inside,
    {
        self.readers_inside
    }

    pub fn writer_inside(&self) -> (w: bool)
        ensures
            w == self@.writer_inside,
    {
        self.writer_inside
    }
}

/// Law: in every state the protocol reaches, a writer is never in the room
/// together with a reader, and at most one writer is in it.
pub proof fn lemma_room_exclusive(s: RoomView)
    requires
        s.inv(),
    ensures
        exclusive(
            CountersView {
                readers: s.readers_inside as int,
                writers: if s.writer_inside { 1int } else { 0int },
            },
        ),
{
}

/// Law (the lightswitch counts every reader): an admitted reader raises
/// the count of readers inside by exactly one and the room is then held; a
/// leaving reader lowers it by exactly one, and the room is freed exactly
/// when the last reader leaves.
pub proof fn lemma_lightswitch_counts(s: RoomView)
    requires
        s.inv(),
    ensures
        s.reader_may_enter() <==> (s.readers_inside > 0 || s.room_free),
        s.reader_may_enter() ==> s.after_reader_enter().readers_inside == s.readers_inside + 1
            && !s.after_reader_enter().room_free && s.after_reader_enter().inv(),
        s.readers_inside > 0 ==> s.after_reader_exit().readers_inside == s.readers_inside - 1
            && (s.after_reader_exit().room_free <==> s.readers_inside == 1)
            && s.after_reader_exit().inv(),
{
}

/// Law: a reader entering and then leaving puts the lock back exactly as it
/// was; so after `k` entries and `j < k` exits, `k - j` readers are inside
/// and the room stays held against writers.
pub proof fn lemma_enter_exit_inverse(s: RoomView)
    requires
        s.inv(),
        s.reader_may_enter(),
    ensures
        s.after_reader_enter().after_reader_exit() == s,
{
}

/// Law: while any reader is inside, a writer holding the turnstile cannot
/// enter the room.
pub proof fn lemma_writer_waits_for_readers(s: RoomView)
    requires
        s.inv(),
        s.readers_inside > 0,
    ensures
        !s.room_free,
        !s.writer_inside,
{
}

/// Law: a writer that waits for the room holding the turnstile gets in as
/// soon as the last reader has left: the room is then free.
pub proof fn lemma_writer_enters_after_readers(s: RoomView)
    requires
        s.inv(),
        s.writer_waiting(),
        s.readers_inside == 0,
    ensures
        s.room_free,
        !s.turnstile_free,
{
}

} // verus!
