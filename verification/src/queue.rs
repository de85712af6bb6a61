//! The bounded hand-off queue between the stage that fetches and the stage
//! that persists. It decides whether a batch is taken in and which batch
//! goes out next; waiting is left to the caller.

use crate::record::{Batch, Row};
use std::collections::VecDeque;
use vstd::prelude::*;

verus! {

/// The content of a queue.
pub struct QueueView {
    /// The number of batches that the queue holds at most.
    pub capacity: nat,
    /// The batches that wait, the oldest first.
    pub items: Seq<Seq<Row>>,
    /// Whether the sending side has said that no batch will follow.
    pub closed: bool,
}

impl QueueView {
    /// The queue holds no more than its capacity.
    pub open spec fn within_capacity(self) -> bool {
        self.items.len() <= self.capacity
    }

    /// Whether a batch that is offered now is taken in.
    pub open spec fn has_room(self) -> bool {
        !self.closed && self.items.len() < self.capacity
    }

    /// The queue after a batch was offered.
    pub open spec fn offered(self, batch: Seq<Row>) -> QueueView {
        if self.has_room() {
            QueueView { items: self.items.push(batch), ..self }
        } else {
            self
        }
    }

    /// The queue after the receiving side asked for a batch.
    pub open spec fn taken(self) -> QueueView {
        if self.items.len() > 0 {
            QueueView { items: self.items.drop_first(), ..self }
        } else {
            self
        }
    }

    /// The queue after the sending side closed it.
    pub open spec fn shut(self) -> QueueView {
        QueueView { closed: true, ..self }
    }
}

/// The answer to an offer.
#[derive(Debug, PartialEq, Eq)]
pub enum Offer {
    /// The batch waits in the queue now.
    Accepted,
    /// The queue is full; the batch comes back.
    Full(Batch),
    /// The queue is closed; the batch comes back.
    Closed(Batch),
}

/// The answer to a request for the next batch.
#[derive(Debug, PartialEq, Eq)]
pub enum Taken {
    /// The oldest batch that waited.
    Next(Batch),
    /// Nothing waits, but more may come.
    Empty,
    /// Nothing waits and nothing will come.
    Finished,
}

/// A queue of batches with a fixed capacity.
#[derive(Debug)]
pub struct BoundedQueue {
    capacity: usize,
    items: VecDeque<Batch>,
    closed: bool,
}

impl View for BoundedQueue {
    type V = QueueView;

    closed spec fn view(&self) -> QueueView {
        QueueView {
            capacity: self.capacity as nat,
            items: self.items@.map_values(|b: Batch| b@),
            closed: self.closed,
        }
    }
}

impl BoundedQueue {
    /// An open queue that holds nothing yet.
    pub fn new(capacity: usize) -> (queue: BoundedQueue)
        ensures
            queue@ == (QueueView { capacity: capacity as nat, items: Seq::empty(), closed: false }),
    {
        let queue = BoundedQueue { capacity, items: VecDeque::new(), closed: false };
        assert(queue.items@.map_values(|b: Batch| b@) == Seq::<Seq<Row>>::empty());
        queue
    }

    pub fn capacity(&self) -> (capacity: usize)
        ensures
            capacity == self@.capacity,
    {
        self.capacity
    }

    /// The number of batches that wait.
    pub fn len(&self) -> (n: usize)
        ensures
            n == self@.items.len(),
    {
        self.items.len()
    }

    pub fn is_closed(&self) -> (closed: bool)
        ensures
            closed == self@.closed,
    {
        self.closed
    }

    /// Offers a batch. It is taken in if the queue is open and holds fewer
    /// batches than its capacity; otherwise it comes back and the queue stays
    /// as it was.
    pub fn offer(&mut self, batch: Batch) -> (answer: Offer)
        ensures
            final(self)@ == old(self)@.offered(batch@),
            match answer {
                Offer::Accepted => old(self)@.has_room(),
                Offer::Full(back) => !old(self)@.closed && old(self)@.items.len() >= old(self)@.capacity
                    && back == batch,
                Offer::Closed(back) => old(self)@.closed && back == batch,
            },
    {
        if self.closed {
            Offer::Closed(batch)
        } else if self.items.len() >= self.capacity {
            Offer::Full(batch)
        } else {
            let ghost before = self.items@;
            self.items.push_back(batch);
            assert(self.items@.map_values(|b: Batch| b@) == before.map_values(|b: Batch| b@).push(
                batch@,
            ));
            Offer::Accepted
        }
    }

    /// Hands out the oldest batch that waits. Where none waits, says whether
    /// more may come.
    pub fn take(&mut self) -> (answer: Taken)
        ensures
            final(self)@ == old(self)@.taken(),
            match answer {
                Taken::Next(batch) => old(self)@.items.len() > 0 && batch@ == old(self)@.items[0],
                Taken::Empty => old(self)@.items.len() == 0 && !old(self)@.closed,
                Taken::Finished => old(self)@.items.len() == 0 && old(self)@.closed,
            },
    {
        let ghost before = self.items@;
        match self.items.pop_front() {
            Some(batch) => {
                assert(self.items@.map_values(|b: Batch| b@) == before.map_values(|b: Batch| b@).drop_first());
                Taken::Next(batch)
            },
            None => {
                if self.closed {
                    Taken::Finished
                } else {
                    Taken::Empty
                }
            },
        }
    }

    /// Says that no batch will follow. What waits can still be taken.
    pub fn close(&mut self)
        ensures
            final(self)@ == old(self)@.shut(),
    {
        self.closed = true;
    }
}

/// One thing that a stage does with the queue.
pub enum QueueOp {
    /// The sending side offers a batch.
    Offer(Seq<Row>),
    /// The receiving side asks for a batch.
    Take,
    /// The sending side closes the queue.
    Close,
}

/// The queue after one operation.
pub open spec fn queue_after_op(queue: QueueView, op: QueueOp) -> QueueView {
    match op {
        QueueOp::Offer(batch) => queue.offered(batch),
        QueueOp::Take => queue.taken(),
        QueueOp::Close => queue.shut(),
    }
}

/// The queue after a sequence of operations.
pub open spec fn queue_after(queue: QueueView, ops: Seq<QueueOp>) -> QueueView
    decreases ops.len(),
{
    if ops.len() == 0 {
        queue
    } else {
        queue_after_op(queue_after(queue, ops.drop_last()), ops.last())
    }
}

/// The batches that the queue took in during a sequence of operations, in order.
pub open spec fn accepted(queue: QueueView, ops: Seq<QueueOp>) -> Seq<Seq<Row>>
    decreases ops.len(),
{
    if ops.len() == 0 {
        Seq::empty()
    } else {
        let before = accepted(queue, ops.drop_last());
        match ops.last() {
            QueueOp::Offer(batch) => if queue_after(queue, ops.drop_last()).has_room() {
                before.push(batch)
            } else {
                before
            },
            _ => before,
        }
    }
}

/// The batches that the queue handed out during a sequence of operations, in order.
pub open spec fn delivered(queue: QueueView, ops: Seq<QueueOp>) -> Seq<Seq<Row>>
    decreases ops.len(),
{
    if ops.len() == 0 {
        Seq::empty()
    } else {
        let before = delivered(queue, ops.drop_last());
        let current = queue_after(queue, ops.drop_last());
        match ops.last() {
            QueueOp::Take => if current.items.len() > 0 {
                before.push(current.items[0])
            } else {
                before
            },
            _ => before,
        }
    }
}

/// The queue hands batches out in the order in which it took them in, and
/// loses none: what went out, followed by what waits, is what waited at the
/// start, followed by what was taken in.
pub proof fn queue_keeps_order(queue: QueueView, ops: Seq<QueueOp>)
    ensures
        delivered(queue, ops) + queue_after(queue, ops).items == queue.items + accepted(queue, ops),
        queue_after(queue, ops).capacity == queue.capacity,
    decreases ops.len(),
{
    if ops.len() > 0 {
        queue_keeps_order(queue, ops.drop_last());
        let current = queue_after(queue, ops.drop_last());
        let out = delivered(queue, ops.drop_last());
        match ops.last() {
            QueueOp::Take => {
                if current.items.len() > 0 {
                    assert(out.push(current.items[0]) + current.items.drop_first() == out + current.items);
                }
            },
            QueueOp::Offer(batch) => {
                if current.has_room() {
                    assert(out + current.items.push(batch) == (out + current.items).push(batch));
                    assert((queue.items + accepted(queue, ops.drop_last())).push(batch) == queue.items
                        + accepted(queue, ops.drop_last()).push(batch));
                }
            },
            QueueOp::Close => {},
        }
    }
}

/// Backpressure: a queue never holds more than its capacity. So of the
/// batches that were offered, no more are taken in than the capacity had
/// room for at the start and the receiving side has taken out since: with
/// capacity `C` and an empty queue, one batch more than `C` is taken in only
/// after a batch was handed out.
pub proof fn queue_holds_back(queue: QueueView, ops: Seq<QueueOp>)
    requires
        queue.within_capacity(),
    ensures
        queue_after(queue, ops).within_capacity(),
        queue.items.len() + accepted(queue, ops).len() <= queue.capacity + delivered(queue, ops).len(),
    decreases ops.len(),
{
    queue_keeps_order(queue, ops);
    if ops.len() > 0 {
        queue_holds_back(queue, ops.drop_last());
    }
    assert((delivered(queue, ops) + queue_after(queue, ops).items).len() == (queue.items + accepted(
        queue,
        ops,
    )).len());
}

} // verus!
