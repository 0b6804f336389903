//! Fixed-capacity first-in/first-out queue for the interrupt/idle bridge.
//!
//! One queue carries raw bytes from a USART interrupt handler to the idle
//! loop, another carries pin-edge events. Each queue has exactly one producer
//! (the interrupt context) and one consumer (the idle loop) for its entire
//! lifetime; that discipline is upheld by the code that owns the queue.
//! Enqueuing into a full queue fails instead of blocking or overwriting:
//! the producer runs in interrupt context and must never wait.

use vstd::prelude::*;

verus! {

/// Error returned when an item is offered to a queue that has no free slot.
///
/// The producer (an interrupt handler) must surface this as a fatal condition
/// or count it; it must never retry synchronously.
#[derive(Clone, Copy, Debug, PartialEq, Eq, Structural)]
pub struct QueueFull;

/// A bounded FIFO queue.
///
/// The abstract state is the sequence of items currently queued, oldest
/// first, available as `self@`; `self.capacity()` is the fixed bound.
pub struct Queue<T> {
    items: Vec<T>,
    cap: usize,
}

impl<T> Queue<T> {
    /// The items currently queued, oldest first.
    pub closed spec fn view(&self) -> Seq<T> {
        self.items@
    }

    /// The fixed number of slots.
    pub closed spec fn spec_capacity(&self) -> usize {
        self.cap
    }

    /// The queue never holds more items than its capacity.
    pub open spec fn wf(&self) -> bool {
        self@.len() <= self.spec_capacity()
    }

    /// Creates an empty queue with the given number of slots.
    pub fn new(capacity: usize) -> (q: Self)
        ensures
            q@ == Seq::<T>::empty(),
            q.spec_capacity() == capacity,
            q.wf(),
    {
        Queue { items: Vec::new(), cap: capacity }
    }

    /// The fixed number of slots.
    pub fn capacity(&self) -> (c: usize)
        ensures
            c == self.spec_capacity(),
    {
        self.cap
    }

    /// Number of items currently queued.
    pub fn len(&self) -> (n: usize)
        ensures
            n == self@.len(),
    {
        self.items.len()
    }

    /// Appends an item at the back, or reports `QueueFull` without touching
    /// the queued items. Never blocks.
    pub fn enqueue(&mut self, item: T) -> (r: Result<(), QueueFull>)
        requires
            old(self).wf(),
        ensures
            final(self).wf(),
            final(self).spec_capacity() == old(self).spec_capacity(),
            old(self)@.len() < old(self).spec_capacity() ==> {
                &&& r is Ok
                &&& final(self)@ == old(self)@.push(item)
            },
            old(self)@.len() >= old(self).spec_capacity() ==> {
                &&& r is Err
                &&& final(self)@ == old(self)@
            },
    {
        if self.items.len() < self.cap {
            self.items.push(item);
            Ok(())
        } else {
            Err(QueueFull)
        }
    }

    /// Removes and returns the oldest item, or `None` if the queue is empty.
    /// Never blocks.
    pub fn dequeue(&mut self) -> (r: Option<T>)
        requires
            old(self).wf(),
        ensures
            final(self).wf(),
            final(self).spec_capacity() == old(self).spec_capacity(),
            old(self)@.len() == 0 ==> r is None && final(self)@ == old(self)@,
            old(self)@.len() > 0 ==> {
                &&& r == Some(old(self)@[0])
                &&& final(self)@ == old(self)@.drop_first()
            },
    {
        if self.items.len() > 0 {
            Some(self.items.remove(0))
        } else {
            None
        }
    }

    /// Whether an item is waiting. The idle loop checks this, with interrupts
    /// masked, before putting the core to sleep.
    pub fn is_ready(&self) -> (r: bool)
        ensures
            r == (self@.len() > 0),
    {
        self.items.len() > 0
    }
}

/// One step of the queue history: either the producer offered an item, or the
/// consumer asked for one.
pub enum QueueOp<T> {
    Enqueue(T),
    Dequeue,
}

/// Queue contents after running `ops` against an empty queue with `cap`
/// slots, mirroring `enqueue` (an offer to a full queue is rejected) and
/// `dequeue` (a request on an empty queue yields nothing).
pub open spec fn queue_after<T>(ops: Seq<QueueOp<T>>, cap: nat) -> Seq<T>
    decreases ops.len(),
{
    if ops.len() == 0 {
        Seq::empty()
    } else {
        let prev = queue_after(ops.drop_last(), cap);
        match ops.last() {
            QueueOp::Enqueue(item) => {
                if prev.len() < cap {
                    prev.push(item)
                } else {
                    prev
                }
            }
            QueueOp::Dequeue => {
                if prev.len() > 0 {
                    prev.drop_first()
                } else {
                    prev
                }
            }
        }
    }
}

/// Items accepted by the queue over the history `ops`, oldest first.
pub open spec fn accepted<T>(ops: Seq<QueueOp<T>>, cap: nat) -> Seq<T>
    decreases ops.len(),
{
    if ops.len() == 0 {
        Seq::empty()
    } else {
        let prev = accepted(ops.drop_last(), cap);
        match ops.last() {
            QueueOp::Enqueue(item) => {
                if queue_after(ops.drop_last(), cap).len() < cap {
                    prev.push(item)
                } else {
                    prev
                }
            }
            QueueOp::Dequeue => prev,
        }
    }
}

/// Items handed back to the consumer over the history `ops`, in the order
/// they came out.
pub open spec fn dequeued<T>(ops: Seq<QueueOp<T>>, cap: nat) -> Seq<T>
    decreases ops.len(),
{
    if ops.len() == 0 {
        Seq::empty()
    } else {
        let prev = dequeued(ops.drop_last(), cap);
        match ops.last() {
            QueueOp::Enqueue(_) => prev,
            QueueOp::Dequeue => {
                if queue_after(ops.drop_last(), cap).len() > 0 {
                    prev.push(queue_after(ops.drop_last(), cap)[0])
                } else {
                    prev
                }
            }
        }
    }
}

/// FIFO law: over any history of enqueues interleaved with dequeues, what has
/// come out, followed by what is still queued, is exactly what went in, in
/// order. In particular, dequeue order equals enqueue order.
pub proof fn lemma_queue_fifo<T>(ops: Seq<QueueOp<T>>, cap: nat)
    ensures
        dequeued(ops, cap) + queue_after(ops, cap) == accepted(ops, cap),
    decreases ops.len(),
{
    if ops.len() == 0 {
        assert(dequeued(ops, cap) + queue_after(ops, cap) =~= accepted(ops, cap));
    } else {
        let prefix = ops.drop_last();
        lemma_queue_fifo(prefix, cap);
        let prev = queue_after(prefix, cap);
        match ops.last() {
            QueueOp::Enqueue(item) => {
                if prev.len() < cap {
                    assert(dequeued(ops, cap) + queue_after(ops, cap)
                        =~= (dequeued(prefix, cap) + prev).push(item));
                    assert(accepted(ops, cap) =~= (dequeued(prefix, cap) + prev).push(item));
                } else {
                    assert(dequeued(ops, cap) + queue_after(ops, cap)
                        =~= dequeued(prefix, cap) + prev);
                }
            }
            QueueOp::Dequeue => {
                if prev.len() > 0 {
                    assert(dequeued(ops, cap) + queue_after(ops, cap)
                        =~= dequeued(prefix, cap) + prev);
                } else {
                    assert(dequeued(ops, cap) + queue_after(ops, cap)
                        =~= dequeued(prefix, cap) + prev);
                }
            }
        }
    }
}

/// Dequeue order equals enqueue order: what has come out is always a prefix
/// of what went in.
pub proof fn lemma_dequeue_order<T>(ops: Seq<QueueOp<T>>, cap: nat)
    ensures
        dequeued(ops, cap) == accepted(ops, cap).take(dequeued(ops, cap).len() as int),
{
    lemma_queue_fifo(ops, cap);
    assert(dequeued(ops, cap) =~= accepted(ops, cap).take(dequeued(ops, cap).len() as int));
}

} // verus!
