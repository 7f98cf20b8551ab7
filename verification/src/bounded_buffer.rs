use vstd::prelude::*;
use std::collections::VecDeque;

verus! {

/// A bounded first-in first-out buffer that producers can close.
///
/// It is the state a producer-consumer monitor keeps under its lock.  A
/// producer waits while `can_push` is false and then calls `push`; a
/// consumer waits while `can_pop` is false and then calls `pop`.
pub struct BoundedBuffer<T> {
    queue: VecDeque<T>,
    closed: bool,
    capacity: usize,
    pushed: Ghost<Seq<T>>,
    popped: Ghost<Seq<T>>,
}

/// The mathematical state of a `BoundedBuffer`: the items waiting in it,
/// whether it was closed, its capacity, and everything that was ever
/// pushed into it and popped from it.
pub struct BufferView<T> {
    pub items: Seq<T>,
    pub closed: bool,
    pub capacity: nat,
    pub pushed: Seq<T>,
    pub popped: Seq<T>,
}

impl<T> BufferView<T> {
    /// The buffer never holds more than its capacity, and what was pushed
    /// is exactly what was popped followed by what is still waiting.
    pub open spec fn inv(self) -> bool {
        &&& self.items.len() <= self.capacity
        &&& self.pushed == self.popped + self.items
    }

    /// A producer may go ahead: there is room, or the buffer is closed.
    pub open spec fn can_push(self) -> bool {
        self.items.len() < self.capacity || self.closed
    }

    /// A consumer may go ahead: there is an item, or the buffer is closed.
    pub open spec fn can_pop(self) -> bool {
        self.items.len() > 0 || self.closed
    }

    pub open spec fn after_push(self, item: T) -> BufferView<T> {
        BufferView { items: self.items.push(item), pushed: self.pushed.push(item), ..self }
    }

    pub open spec fn after_pop(self) -> BufferView<T> {
        BufferView {
            items: self.items.drop_first(),
            popped: self.popped.push(self.items[0]),
            ..self
        }
    }
}

/// Why `try_push` did not store an item; the item is handed back.
pub enum PushError<T> {
    /// The buffer holds as many items as it may.
    Full(T),
    /// The buffer was closed.
    Closed(T),
}

impl<T> View for BoundedBuffer<T> {
    type V = BufferView<T>;

    closed spec fn view(&self) -> BufferView<T> {
        BufferView {
            items: self.queue@,
            closed: self.closed,
            capacity: self.capacity as nat,
            pushed: self.pushed@,
            popped: self.popped@,
        }
    }
}

impl<T> BoundedBuffer<T> {
    /// An empty, open buffer that holds at most `capacity` items.
    pub fn new(capacity: usize) -> (b: BoundedBuffer<T>)
        ensures
            b@.items == Seq::<T>::empty(),
            !b@.closed,
            b@.capacity == capacity,
            b@.pushed == Seq::<T>::empty(),
            b@.popped == Seq::<T>::empty(),
            b@.inv(),
    {
        let b = BoundedBuffer {
            queue: VecDeque::with_capacity(capacity),
            closed: false,
            capacity,
            pushed: Ghost(Seq::empty()),
            popped: Ghost(Seq::empty()),
        };
        assert(b@.pushed =~= b@.popped + b@.items);
        b
    }

    pub fn can_push(&self) -> (r: bool)
        ensures
            r == self@.can_push(),
            r == (self@.items.len() < self@.capacity || self@.closed),
    {
        self.queue.len() < self.capacity || self.closed
    }

    pub fn can_pop(&self) -> (r: bool)
        ensures
            r == self@.can_pop(),
            r == (self@.items.len() > 0 || self@.closed),
    {
        self.queue.len() > 0 || self.closed
    }

    /// Appends `item` once the buffer has room; hands it back as `Err` when
    /// the buffer was closed.
    pub fn push(&mut self, item: T) -> (r: Result<(), T>)
        requires
            old(self)@.inv(),
            old(self)@.can_push(),
        ensures
            final(self)@.inv(),
            old(self)@.closed ==> r == Err::<(), T>(item) && final(self)@ == old(self)@,
            !old(self)@.closed ==> r is Ok && final(self)@ == old(self)@.after_push(item),
    {
        if self.closed {
            Err(item)
        } else {
            proof {
                self.pushed@ = self.pushed@.push(item);
                assert(self.pushed@ =~= self.popped@ + self.queue@.push(item));
            }
            self.queue.push_back(item);
            Ok(())
        }
    }

    /// Appends `item` if the buffer is open and has room, without waiting.
    pub fn try_push(&mut self, item: T) -> (r: Result<(), PushError<T>>)
        requires
            old(self)@.inv(),
        ensures
            final(self)@.inv(),
            old(self)@.closed ==> r == Err::<(), PushError<T>>(PushError::Closed(item))
                && final(self)@ == old(self)@,
            !old(self)@.closed && old(self)@.items.len() >= old(self)@.capacity ==> r == Err::<
                (),
                PushError<T>,
            >(PushError::Full(item)) && final(self)@ == old(self)@,
            !old(self)@.closed && old(self)@.items.len() < old(self)@.capacity ==> r is Ok
                && final(self)@ == old(self)@.after_push(item),
    {
        if self.closed {
            Err(PushError::Closed(item))
        } else if self.queue.len() >= self.capacity {
            Err(PushError::Full(item))
        } else {
            match self.push(item) {
                Ok(()) => Ok(()),
                Err(item) => Err(PushError::Closed(item)),
            }
        }
    }

    /// Takes the oldest item once there is one; `None` once the buffer is
    /// closed and empty.
    pub fn pop(&mut self) -> (r: Option<T>)
        requires
            old(self)@.inv(),
            old(self)@.can_pop(),
        ensures
            final(self)@.inv(),
            old(self)@.items.len() == 0 ==> r is None && final(self)@ == old(self)@,
            old(self)@.items.len() > 0 ==> r == Some(old(self)@.items[0]) && final(self)@
                == old(self)@.after_pop(),
    {
        let r = self.queue.pop_front();
        proof {
            if old(self)@.items.len() > 0 {
                let x = old(self)@.items[0];
                self.popped@ = self.popped@.push(x);
                assert(self.queue@ =~= old(self)@.items.drop_first());
                assert(self.pushed@ =~= self.popped@ + self.queue@);
            }
        }
        r
    }

    /// Closes the buffer: later pushes fail, pops drain what is left.
    pub fn close(&mut self)
        ensures
            final(self)@ == (BufferView { closed: true, ..old(self)@ }),
    {
        self.closed = true;
    }

    pub fn len(&self) -> (n: usize)
        ensures
            n as nat == self@.items.len(),
    {
        self.queue.len()
    }

    pub fn is_closed(&self) -> (c: bool)
        ensures
            c == self@.closed,
    {
        self.closed
    }

    pub fn capacity(&self) -> (c: usize)
        ensures
            c as nat == self@.capacity,
    {
        self.capacity
    }
}

/// Law: a push appends exactly the pushed item at the back and records it
/// as pushed; a pop removes exactly the front item and records it as popped;
/// closing aside, nothing else changes.
pub proof fn lemma_push_pop_steps<T>(b: BufferView<T>, x: T)
    ensures
        b.after_push(x).items.len() == b.items.len() + 1,
        b.after_push(x).items.last() == x,
        b.after_push(x).items.subrange(0, b.items.len() as int) == b.items,
        b.after_push(x).pushed == b.pushed.push(x),
        b.after_push(x).popped == b.popped,
        b.after_push(x).closed == b.closed && b.after_push(x).capacity == b.capacity,
        b.items.len() > 0 ==> b.after_pop().items.len() == b.items.len() - 1,
        b.items.len() > 0 ==> b.after_pop().items == b.items.subrange(1, b.items.len() as int),
        b.items.len() > 0 ==> b.after_pop().popped == b.popped.push(b.items[0]),
        b.after_pop().pushed == b.pushed,
        b.after_pop().closed == b.closed && b.after_pop().capacity == b.capacity,
{
    assert(b.after_push(x).items.subrange(0, b.items.len() as int) =~= b.items);
}

/// Law (when producers and consumers wait): a consumer may go ahead
/// whenever an item waits, and waits only on an open, empty buffer; a
/// producer may go ahead whenever there is room, and waits only on an open,
/// full buffer.
pub proof fn lemma_wait_conditions<T>(b: BufferView<T>)
    ensures
        b.items.len() > 0 ==> b.can_pop(),
        !b.closed && b.items.len() == 0 ==> !b.can_pop(),
        b.closed ==> b.can_pop() && b.can_push(),
        b.items.len() < b.capacity ==> b.can_push(),
        !b.closed && b.items.len() >= b.capacity ==> !b.can_push(),
{
}

/// Law: an item pushed into an empty buffer is the next one popped, and
/// the buffer is empty again afterwards; a push adds exactly one item at
/// the back and a pop removes exactly the front one.
pub proof fn lemma_push_then_pop<T>(b: BufferView<T>, x: T)
    requires
        b.inv(),
        b.items.len() == 0,
    ensures
        b.after_push(x).items.len() == 1,
        b.after_push(x).items[0] == x,
        b.after_push(x).after_pop().items.len() == 0,
        b.after_push(x).after_pop().popped == b.popped.push(x),
        b.after_push(x).after_pop().inv(),
{
    assert(b.after_push(x).items =~= seq![x]);
    assert(b.after_push(x).after_pop().pushed =~= b.after_push(x).after_pop().popped
        + b.after_push(x).after_pop().items);
}

/// Law: items leave the buffer in the order they entered it, none is lost
/// and none is duplicated: everything popped so far is a prefix of
/// everything pushed so far, and the rest is still waiting.
pub proof fn lemma_fifo<T>(b: BufferView<T>)
    requires
        b.inv(),
    ensures
        b.popped.len() <= b.pushed.len(),
        b.popped == b.pushed.subrange(0, b.popped.len() as int),
        b.items == b.pushed.subrange(b.popped.len() as int, b.pushed.len() as int),
{
    assert(b.popped =~= b.pushed.subrange(0, b.popped.len() as int));
    assert(b.items =~= b.pushed.subrange(b.popped.len() as int, b.pushed.len() as int));
}

/// Law: once a closed buffer has been drained, every item ever pushed has
/// been popped, in order.
pub proof fn lemma_drained<T>(b: BufferView<T>)
    requires
        b.inv(),
        b.items.len() == 0,
    ensures
        b.popped == b.pushed,
{
    assert(b.popped + b.items =~= b.popped);
}

} // verus!
