//! The in-memory holding area between ingestion and batch write, per event kind.
//!
//! A [`Buffer`] is an ordered sequence of pending events. The ingest side only
//! appends; the flush side only drains wholesale (and re-queues a failed
//! batch). Mutation requires exclusive access (`&mut`), so any interleaving of
//! concurrent `append` and `drain_all` calls is some sequence of these atomic
//! operations; [`lemma_no_loss_on_drain`] shows that over every such sequence
//! each appended event lands in exactly one drained batch or is still buffered.

use vstd::prelude::*;

verus! {

broadcast use vstd::seq_lib::group_seq_lib_default;

/// An ordered collection of pending events of one kind.
pub struct Buffer<T> {
    events: Vec<T>,
}

impl<T> View for Buffer<T> {
    type V = Seq<T>;

    closed spec fn view(&self) -> Seq<T> {
        self.events@
    }
}

impl<T> Buffer<T> {
    /// A buffer starts out empty.
    pub fn new() -> (buf: Self)
        ensures
            buf@ == Seq::<T>::empty(),
    {
        Buffer { events: Vec::new() }
    }

    /// Add one event at the tail, preserving arrival order. Never fails.
    pub fn append(&mut self, event: T)
        ensures
            final(self)@ == old(self)@.push(event),
    {
        self.events.push(event);
    }

    /// Atomically remove and return every currently held event, in arrival
    /// order, leaving the buffer empty.
    pub fn drain_all(&mut self) -> (batch: Vec<T>)
        ensures
            batch@ == old(self)@,
            final(self)@ == Seq::<T>::empty(),
    {
        let mut drained: Vec<T> = Vec::new();
        core::mem::swap(&mut drained, &mut self.events);
        drained
    }

    /// Append a failed batch back onto the tail so a later cycle retries it.
    pub fn requeue(&mut self, mut batch: Vec<T>)
        ensures
            final(self)@ == old(self)@ + batch@,
    {
        self.events.append(&mut batch);
    }

    /// Best-effort emptiness hint; authoritative only while exclusive access
    /// is held.
    pub fn peek_empty(&self) -> (empty: bool)
        ensures
            empty == (self@.len() == 0),
    {
        self.events.is_empty()
    }

    /// Number of currently buffered events.
    pub fn len(&self) -> (n: usize)
        ensures
            n == self@.len(),
    {
        self.events.len()
    }
}

/// One atomic operation on a buffer: an append of one event, or a wholesale
/// drain.
pub enum BufferOp<T> {
    Append(T),
    Drain,
}

/// All events appended over a sequence of operations, in arrival order.
pub open spec fn trace_appends<T>(ops: Seq<BufferOp<T>>) -> Seq<T>
    decreases ops.len(),
{
    if ops.len() == 0 {
        Seq::empty()
    } else {
        match ops.last() {
            BufferOp::Append(e) => trace_appends(ops.drop_last()).push(e),
            BufferOp::Drain => trace_appends(ops.drop_last()),
        }
    }
}

/// The buffer contents after a sequence of operations, starting empty.
pub open spec fn trace_buffer<T>(ops: Seq<BufferOp<T>>) -> Seq<T>
    decreases ops.len(),
{
    if ops.len() == 0 {
        Seq::empty()
    } else {
        match ops.last() {
            BufferOp::Append(e) => trace_buffer(ops.drop_last()).push(e),
            BufferOp::Drain => Seq::empty(),
        }
    }
}

/// The batches returned by the drains in a sequence of operations, in drain
/// order.
pub open spec fn trace_batches<T>(ops: Seq<BufferOp<T>>) -> Seq<Seq<T>>
    decreases ops.len(),
{
    if ops.len() == 0 {
        Seq::empty()
    } else {
        match ops.last() {
            BufferOp::Append(_) => trace_batches(ops.drop_last()),
            BufferOp::Drain => trace_batches(ops.drop_last()).push(trace_buffer(ops.drop_last())),
        }
    }
}

/// No loss on drain: over any sequence of `append` and `drain_all` operations,
/// the drained batches followed by what is still buffered are exactly the
/// appended events, in order. So every appended event appears in exactly one
/// drained batch or remains in the buffer — never both, never neither.
pub proof fn lemma_no_loss_on_drain<T>(ops: Seq<BufferOp<T>>)
    ensures
        trace_batches(ops).flatten() + trace_buffer(ops) == trace_appends(ops),
    decreases ops.len(),
{
    broadcast use Seq::lemma_flatten_push;

    if ops.len() == 0 {
        assert(trace_batches(ops).flatten() + trace_buffer(ops) =~= trace_appends(ops));
    } else {
        lemma_no_loss_on_drain(ops.drop_last());
        match ops.last() {
            BufferOp::Append(e) => {
                assert(trace_batches(ops).flatten() + trace_buffer(ops) =~= trace_appends(ops));
            },
            BufferOp::Drain => {
                assert(trace_batches(ops).flatten() + trace_buffer(ops) =~= trace_appends(ops));
            },
        }
    }
}

} // verus!
