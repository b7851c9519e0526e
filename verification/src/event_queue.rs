//! Bounded FIFO byte queue bridging interrupt-context producers to a
//! task-context consumer.
//!
//! The queue is a `crossbeam_queue::ArrayQueue<u8>`: pushes never block and
//! never allocate, so they are safe to issue with interrupts masked. On a full
//! queue the newest byte is rejected (tail-drop); the oldest queued bytes are
//! preserved.

use vstd::prelude::*;
use crossbeam_queue::ArrayQueue;

verus! {

/// Number of slots in the scancode queue.
pub const QUEUE_CAPACITY: usize = 100;

#[verifier::external_type_specification]
#[verifier::external_body]
#[verifier::reject_recursive_types(T)]
pub struct ExArrayQueue<T>(ArrayQueue<T>);

/// The bytes currently held by the queue, oldest first.
pub uninterp spec fn queue_contents(q: ArrayQueue<u8>) -> Seq<u8>;

/// The fixed number of slots the queue was created with.
pub uninterp spec fn queue_capacity(q: ArrayQueue<u8>) -> nat;

/// Relies on `crossbeam_queue::ArrayQueue::new`: returns an empty queue with
/// exactly `cap` slots (it panics on `cap == 0`, which the precondition rules
/// out).
#[verifier::external_body]
fn array_queue_new(cap: usize) -> (q: ArrayQueue<u8>)
    requires
        cap >= 1,
    ensures
        queue_contents(q) == Seq::<u8>::empty(),
        queue_capacity(q) == cap as nat,
{
    ArrayQueue::new(cap)
}

/// Relies on `crossbeam_queue::ArrayQueue::push`: appends the value at the
/// tail, or hands it back as `Err` when every slot is taken.
#[verifier::external_body]
fn array_queue_push(q: &mut ArrayQueue<u8>, value: u8) -> (r: Result<(), u8>)
    ensures
        queue_capacity(*final(q)) == queue_capacity(*old(q)),
        queue_contents(*old(q)).len() < queue_capacity(*old(q)) ==> (r
            == Ok::<(), u8>(()) && queue_contents(*final(q)) == queue_contents(*old(q)).push(
            value,
        )),
        queue_contents(*old(q)).len() >= queue_capacity(*old(q)) ==> (r == Err::<(), u8>(value)
            && queue_contents(*final(q)) == queue_contents(*old(q))),
{
    q.push(value)
}

/// Relies on `crossbeam_queue::ArrayQueue::pop`: removes and returns the
/// oldest value, or returns `None` on an empty queue.
#[verifier::external_body]
fn array_queue_pop(q: &mut ArrayQueue<u8>) -> (r: Option<u8>)
    ensures
        queue_capacity(*final(q)) == queue_capacity(*old(q)),
        queue_contents(*old(q)).len() == 0 ==> (r == None::<u8> && queue_contents(*final(q))
            == queue_contents(*old(q))),
        queue_contents(*old(q)).len() > 0 ==> (r == Some(queue_contents(*old(q))[0])
            && queue_contents(*final(q)) == queue_contents(*old(q)).drop_first()),
{
    q.pop()
}

/// One tail-drop push on the queue model: the value is appended when a slot is
/// free and dropped otherwise.
pub open spec fn push_tail_drop(q: Seq<u8>, value: u8, cap: nat) -> Seq<u8> {
    if q.len() < cap {
        q.push(value)
    } else {
        q
    }
}

/// A sequence of tail-drop pushes, oldest first.
pub open spec fn push_all_tail_drop(q: Seq<u8>, events: Seq<u8>, cap: nat) -> Seq<u8>
    decreases events.len(),
{
    if events.len() == 0 {
        q
    } else {
        push_all_tail_drop(push_tail_drop(q, events[0], cap), events.drop_first(), cap)
    }
}

/// FIFO delivery: as long as capacity is never hit, pushed events line up
/// behind the queue's current contents in push order, none lost and none
/// reordered.
pub proof fn lemma_fifo_no_drop(q: Seq<u8>, events: Seq<u8>, cap: nat)
    requires
        q.len() + events.len() <= cap,
    ensures
        push_all_tail_drop(q, events, cap) == q + events,
    decreases events.len(),
{
    if events.len() == 0 {
        assert(q + events =~= q);
    } else {
        lemma_fifo_no_drop(q.push(events[0]), events.drop_first(), cap);
        assert(q.push(events[0]) + events.drop_first() =~= q + events);
    }
}

/// Pushes on a queue with every slot taken change nothing.
pub proof fn lemma_push_all_full(q: Seq<u8>, events: Seq<u8>, cap: nat)
    requires
        q.len() >= cap,
    ensures
        push_all_tail_drop(q, events, cap) == q,
    decreases events.len(),
{
    if events.len() > 0 {
        lemma_push_all_full(q, events.drop_first(), cap);
    }
}

/// Splitting a push sequence in two changes nothing.
pub proof fn lemma_push_all_append(q: Seq<u8>, a: Seq<u8>, b: Seq<u8>, cap: nat)
    ensures
        push_all_tail_drop(q, a + b, cap) == push_all_tail_drop(
            push_all_tail_drop(q, a, cap),
            b,
            cap,
        ),
    decreases a.len(),
{
    if a.len() == 0 {
        assert(a + b =~= b);
    } else {
        lemma_push_all_append(push_tail_drop(q, a[0], cap), a.drop_first(), b, cap);
        assert((a + b).drop_first() =~= a.drop_first() + b);
        assert((a + b)[0] == a[0]);
    }
}

/// Tail-drop under pressure: pushing more events than the queue has slots
/// keeps the oldest `cap` events and loses the newest ones.
pub proof fn lemma_tail_drop_keeps_oldest(events: Seq<u8>, cap: nat)
    requires
        events.len() > cap,
    ensures
        push_all_tail_drop(Seq::<u8>::empty(), events, cap) == events.take(cap as int),
{
    let first = events.take(cap as int);
    let rest = events.skip(cap as int);
    assert(events =~= first + rest);
    lemma_push_all_append(Seq::<u8>::empty(), first, rest, cap);
    lemma_fifo_no_drop(Seq::<u8>::empty(), first, cap);
    assert(Seq::<u8>::empty() + first =~= first);
    lemma_push_all_full(first, rest, cap);
}

/// Bounded FIFO byte queue with the tail-drop policy.
pub struct EventQueue {
    inner: ArrayQueue<u8>,
}

impl View for EventQueue {
    type V = Seq<u8>;

    /// The queued bytes, oldest first.
    closed spec fn view(&self) -> Seq<u8> {
        queue_contents(self.inner)
    }
}

impl EventQueue {
    /// The fixed number of slots.
    pub closed spec fn capacity(&self) -> nat {
        queue_capacity(self.inner)
    }

    /// The queue never holds more bytes than it has slots.
    pub open spec fn wf(&self) -> bool {
        &&& self@.len() <= self.capacity()
        &&& self.capacity() >= 1
    }

    /// Creates an empty queue with `cap` slots.
    pub fn with_capacity(cap: usize) -> (q: EventQueue)
        requires
            cap >= 1,
        ensures
            q.wf(),
            q@ == Seq::<u8>::empty(),
            q.capacity() == cap as nat,
    {
        EventQueue { inner: array_queue_new(cap) }
    }

    /// Non-blocking, non-allocating push; returns whether the byte was
    /// enqueued. On a full queue the byte is dropped (tail-drop).
    pub fn push(&mut self, value: u8) -> (enqueued: bool)
        requires
            old(self).wf(),
        ensures
            final(self).wf(),
            final(self).capacity() == old(self).capacity(),
            final(self)@ == push_tail_drop(old(self)@, value, old(self).capacity()),
            enqueued <==> old(self)@.len() < old(self).capacity(),
    {
        match array_queue_push(&mut self.inner, value) {
            Ok(()) => true,
            Err(_) => false,
        }
    }

    /// Removes and returns the oldest byte, or `None` on an empty queue.
    pub fn pop(&mut self) -> (r: Option<u8>)
        requires
            old(self).wf(),
        ensures
            final(self).wf(),
            final(self).capacity() == old(self).capacity(),
            old(self)@.len() == 0 ==> (r == None::<u8> && final(self)@ == old(self)@),
            old(self)@.len() > 0 ==> (r == Some(old(self)@[0]) && final(self)@
                == old(self)@.drop_first()),
    {
        array_queue_pop(&mut self.inner)
    }
}

} // verus!
