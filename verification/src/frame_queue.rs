//! The bounded frame queue of a pool: both halves of a bounded `tokio` channel,
//! held together so that the queue's contents can be followed across sends and
//! receives.

use tokio::sync::mpsc::error::TrySendError;
use tokio::sync::mpsc::{channel, Receiver, Sender};
use vstd::prelude::*;

use crate::pool::QueuedFrame;

verus! {

/// A bounded FIFO queue of frames: the sending and the receiving half of one
/// `tokio::sync::mpsc` bounded channel. Holding both halves keeps the channel
/// open for as long as the queue lives.
#[verifier::external_body]
pub struct FrameQueue {
    tx: Sender<QueuedFrame>,
    rx: Receiver<QueuedFrame>,
}

/// The frames waiting in the queue, oldest first.
pub uninterp spec fn queued_frames(q: FrameQueue) -> Seq<QueuedFrame>;

/// The bound the queue was made with.
pub uninterp spec fn queue_capacity(q: FrameQueue) -> nat;

/// The largest bound `tokio::sync::mpsc::channel` accepts (its semaphore's
/// `MAX_PERMITS`, `usize::MAX >> 3`).
pub open spec fn max_queue_capacity() -> nat {
    (usize::MAX / 8) as nat
}

/// Calls `tokio::sync::mpsc::channel(capacity)`. Claimed: the new channel is
/// empty and bounded by `capacity`. `channel` panics when `capacity` is 0 or
/// above `MAX_PERMITS`; those inputs are excluded.
#[verifier::external_body]
pub(crate) fn frame_queue_new(capacity: usize) -> (q: FrameQueue)
    requires
        0 < capacity <= max_queue_capacity(),
    ensures
        queued_frames(q) == Seq::<QueuedFrame>::empty(),
        queue_capacity(q) == capacity,
{
    let (tx, rx) = channel(capacity);
    FrameQueue { tx, rx }
}

/// Calls `Sender::try_send`. Claimed: with the receiver alive (it is held by
/// the same queue) the send succeeds exactly when fewer than `capacity` frames
/// are waiting, and then appends the frame at the back; otherwise the frame is
/// handed back and the queue is unchanged. It does not panic: it takes a
/// permit without waiting and pushes onto the channel's list (no waker is
/// registered, as the queue is only ever read with `try_recv`).
#[verifier::external_body]
pub(crate) fn frame_queue_try_push(q: &mut FrameQueue, item: QueuedFrame) -> (r: Result<(), QueuedFrame>)
    ensures
        queue_capacity(*final(q)) == queue_capacity(*old(q)),
        queued_frames(*old(q)).len() < queue_capacity(*old(q)) ==> {
            &&& r is Ok
            &&& queued_frames(*final(q)) == queued_frames(*old(q)).push(item)
        },
        queued_frames(*old(q)).len() >= queue_capacity(*old(q)) ==> {
            &&& r == Err::<(), QueuedFrame>(item)
            &&& queued_frames(*final(q)) == queued_frames(*old(q))
        },
    no_unwind
{
    match q.tx.try_send(item) {
        Ok(()) => Ok(()),
        Err(TrySendError::Full(item)) => Err(item),
        Err(TrySendError::Closed(item)) => Err(item),
    }
}

/// Calls `Receiver::try_recv`. Claimed: with a sender alive (it is held by the
/// same queue) it returns the oldest waiting frame and removes it, or `None`
/// when no frame waits; `try_recv` never reports an empty queue spuriously. It
/// does not panic: the one path that parks the thread waits for a send in
/// progress, and no send is in progress while the queue is borrowed here.
#[verifier::external_body]
pub(crate) fn frame_queue_try_pop(q: &mut FrameQueue) -> (r: Option<QueuedFrame>)
    ensures
        queue_capacity(*final(q)) == queue_capacity(*old(q)),
        queued_frames(*old(q)).len() > 0 ==> {
            &&& r == Some(queued_frames(*old(q))[0])
            &&& queued_frames(*final(q)) == queued_frames(*old(q)).drop_first()
        },
        queued_frames(*old(q)).len() == 0 ==> {
            &&& r is None
            &&& queued_frames(*final(q)) == queued_frames(*old(q))
        },
    no_unwind
{
    q.rx.try_recv().ok()
}

} // verus!
