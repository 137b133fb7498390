//! A simple frame pool: a bounded FIFO of frames that discards incoming frames
//! when all buffers are in use, numbers every offered frame, and keeps
//! statistics of what it accepted, dropped and handed out.

use std::time::{Duration, Instant};
use vstd::prelude::*;

use crate::clock::{duration_as_nanos, duration_nanos, instant_elapsed, instant_now};
use crate::frame_queue::{
    frame_queue_new, frame_queue_try_pop, frame_queue_try_push, max_queue_capacity,
    queue_capacity, queued_frames, FrameQueue,
};
use crate::types::{BufferError, BufferingMode, FrameData, PoolStatistics};

verus! {

/// A frame waiting in a pool, with the sequence number and timestamp the pool
/// gave it.
#[derive(Clone, Debug)]
pub struct QueuedFrame {
    pub sequence_number: u64,
    pub timestamp: u64,
    pub data: FrameData,
}

/// Why an offered frame was not accepted.
#[derive(PartialEq, Eq, Structural, Clone, Copy, Debug)]
pub enum EnqueueError {
    /// Every buffer of the pool holds a frame; the offered frame was discarded.
    Full,
}

/// The abstract state of a pool.
pub struct PoolView {
    /// Number of buffers: the most frames that can wait at once.
    pub capacity: nat,
    /// Sequence number the next offered frame gets.
    pub next_sequence: nat,
    /// Frames waiting to be read, oldest first.
    pub queue: Seq<QueuedFrame>,
    /// Frames accepted so far.
    pub enqueued: nat,
    /// Frames discarded so far because the pool was full.
    pub dropped: nat,
    /// Frames handed out so far.
    pub dequeued: nat,
}

impl PoolView {
    /// The invariant every pool keeps.
    pub open spec fn wf(self) -> bool {
        &&& 0 < self.capacity
        &&& self.queue.len() <= self.capacity
        &&& self.enqueued + self.dropped == self.next_sequence
        &&& self.dequeued + self.queue.len() == self.enqueued
        &&& self.next_sequence <= u64::MAX
        &&& forall|i: int|
            0 <= i < self.queue.len() ==> #[trigger] self.queue[i].sequence_number
                < self.next_sequence
        &&& forall|i: int, j: int|
            0 <= i < j < self.queue.len() ==> #[trigger] self.queue[i].sequence_number
                < #[trigger] self.queue[j].sequence_number
    }

    /// All buffers hold a frame.
    pub open spec fn is_full(self) -> bool {
        self.queue.len() >= self.capacity
    }

    /// The frame a pool stores when it accepts `data` stamped `timestamp`.
    pub open spec fn stamped(self, data: FrameData, timestamp: u64) -> QueuedFrame {
        QueuedFrame { sequence_number: self.next_sequence as u64, timestamp, data }
    }

    /// Offering a frame: it takes the next sequence number whether or not it is
    /// kept; it is appended when a buffer is free and discarded otherwise.
    pub open spec fn enqueue(self, data: FrameData, timestamp: u64) -> PoolView {
        if self.queue.len() < self.capacity {
            PoolView {
                next_sequence: self.next_sequence + 1,
                queue: self.queue.push(self.stamped(data, timestamp)),
                enqueued: self.enqueued + 1,
                ..self
            }
        } else {
            PoolView { next_sequence: self.next_sequence + 1, dropped: self.dropped + 1, ..self }
        }
    }

    /// The frame a read hands out: the oldest waiting one.
    pub open spec fn front(self) -> Option<QueuedFrame> {
        if self.queue.len() > 0 {
            Some(self.queue[0])
        } else {
            None
        }
    }

    /// Reading a frame: the oldest waiting frame leaves the pool.
    pub open spec fn dequeue(self) -> PoolView {
        if self.queue.len() > 0 {
            PoolView { queue: self.queue.drop_first(), dequeued: self.dequeued + 1, ..self }
        } else {
            self
        }
    }

    /// The pool after `n` reads.
    pub open spec fn dequeue_times(self, n: nat) -> PoolView
        decreases n,
    {
        if n == 0 {
            self
        } else {
            self.dequeue().dequeue_times((n - 1) as nat)
        }
    }

    /// The counters reported by `get_statistics`.
    pub open spec fn statistics(self) -> PoolStatistics {
        PoolStatistics {
            enqueued: self.enqueued as u64,
            dropped: self.dropped as u64,
            dequeued: self.dequeued as u64,
        }
    }
}

/// The counters and the queue of a pool.
struct PoolState {
    sequence_number: u64,
    queue: FrameQueue,
    enqueued: u64,
    dropped: u64,
    dequeued: u64,
}

impl PoolState {
    spec fn view(&self) -> PoolView {
        PoolView {
            capacity: queue_capacity(self.queue),
            next_sequence: self.sequence_number as nat,
            queue: queued_frames(self.queue),
            enqueued: self.enqueued as nat,
            dropped: self.dropped as nat,
            dequeued: self.dequeued as nat,
        }
    }
}

/// A pool in discard mode: frames that find every buffer in use are dropped.
pub struct SimplePool {
    boottime: Instant,
    state: PoolState,
}

impl View for SimplePool {
    type V = PoolView;

    closed spec fn view(&self) -> PoolView {
        self.state.view()
    }
}

impl SimplePool {
    /// Every pool keeps the invariant `PoolView::wf`.
    #[verifier::type_invariant]
    closed spec fn keeps_invariant(self) -> bool {
        self.state.view().wf()
    }

}

fn state_enqueue(st: &mut PoolState, data: FrameData, timestamp: u64) -> (r: Result<(), EnqueueError>)
    requires
        old(st).view().wf(),
        old(st).view().next_sequence < u64::MAX,
    ensures
        final(st).view() == old(st).view().enqueue(data, timestamp),
        final(st).view().wf(),
        r is Ok <==> !old(st).view().is_full(),
        r matches Err(e) ==> e == EnqueueError::Full,
    no_unwind
{
    proof {
        law_enqueue_keeps_invariant(st.view(), data, timestamp);
    }
    let seqno = st.sequence_number;
    st.sequence_number = st.sequence_number + 1;
    let item = QueuedFrame { sequence_number: seqno, timestamp, data };
    match frame_queue_try_push(&mut st.queue, item) {
        Ok(()) => {
            st.enqueued = st.enqueued + 1;
            Ok(())
        },
        Err(_) => {
            st.dropped = st.dropped + 1;
            Err(EnqueueError::Full)
        },
    }
}

fn state_dequeue(st: &mut PoolState) -> (r: Option<QueuedFrame>)
    requires
        old(st).view().wf(),
    ensures
        r == old(st).view().front(),
        final(st).view() == old(st).view().dequeue(),
        final(st).view().wf(),
    no_unwind
{
    proof {
        law_dequeue_keeps_invariant(st.view());
    }
    let r = frame_queue_try_pop(&mut st.queue);
    if let Some(_) = &r {
        st.dequeued = st.dequeued + 1;
    }
    r
}

/// Offering a frame keeps the pool invariant.
pub proof fn law_enqueue_keeps_invariant(p: PoolView, data: FrameData, timestamp: u64)
    requires
        p.wf(),
        p.next_sequence < u64::MAX,
    ensures
        p.enqueue(data, timestamp).wf(),
{
    let q = p.enqueue(data, timestamp);
    if p.queue.len() < p.capacity {
        assert forall|i: int, j: int| 0 <= i < j < q.queue.len() implies #[trigger] q.queue[i].sequence_number
            < #[trigger] q.queue[j].sequence_number by {
            if j == p.queue.len() {
                assert(q.queue[i] == p.queue[i]);
            } else {
                assert(q.queue[i] == p.queue[i] && q.queue[j] == p.queue[j]);
            }
        }
        assert forall|i: int| 0 <= i < q.queue.len() implies #[trigger] q.queue[i].sequence_number
            < q.next_sequence by {
            if i < p.queue.len() {
                assert(q.queue[i] == p.queue[i]);
            }
        }
    }
}

/// Reading a frame keeps the pool invariant.
pub proof fn law_dequeue_keeps_invariant(p: PoolView)
    requires
        p.wf(),
    ensures
        p.dequeue().wf(),
{
    let q = p.dequeue();
    if p.queue.len() > 0 {
        assert forall|i: int, j: int| 0 <= i < j < q.queue.len() implies #[trigger] q.queue[i].sequence_number
            < #[trigger] q.queue[j].sequence_number by {
            assert(q.queue[i] == p.queue[i + 1] && q.queue[j] == p.queue[j + 1]);
        }
        assert forall|i: int| 0 <= i < q.queue.len() implies #[trigger] q.queue[i].sequence_number
            < q.next_sequence by {
            assert(q.queue[i] == p.queue[i + 1]);
        }
    }
}

/// The counters balance: every offered frame was either accepted or dropped,
/// and every accepted frame was either handed out or still waits.
pub proof fn law_statistics_balance(p: PoolView)
    requires
        p.wf(),
    ensures
        p.statistics().enqueued + p.statistics().dropped == p.next_sequence,
        p.statistics().enqueued == p.statistics().dequeued + p.queue.len(),
        p.queue.len() <= p.capacity,
{
}

/// A frame offered to a pool with a free buffer is kept, last in line, under
/// the next sequence number; one offered to a full pool is dropped and leaves
/// the waiting frames as they were. Either way the sequence number advances.
pub proof fn law_enqueue_keeps_or_drops(p: PoolView, data: FrameData, timestamp: u64)
    requires
        p.wf(),
        p.next_sequence < u64::MAX,
    ensures
        p.enqueue(data, timestamp).next_sequence == p.next_sequence + 1,
        !p.is_full() ==> {
            &&& p.enqueue(data, timestamp).queue == p.queue.push(p.stamped(data, timestamp))
            &&& p.enqueue(data, timestamp).statistics().enqueued == p.statistics().enqueued + 1
            &&& p.enqueue(data, timestamp).statistics().dropped == p.statistics().dropped
        },
        p.is_full() ==> {
            &&& p.enqueue(data, timestamp).queue == p.queue
            &&& p.enqueue(data, timestamp).statistics().dropped == p.statistics().dropped + 1
            &&& p.enqueue(data, timestamp).statistics().enqueued == p.statistics().enqueued
        },
{
}

/// A read hands out the oldest waiting frame: the one with the smallest
/// sequence number.
pub proof fn law_dequeue_returns_oldest(p: PoolView)
    requires
        p.wf(),
        p.queue.len() > 0,
    ensures
        p.front() matches Some(q) && forall|i: int|
            0 < i < p.queue.len() ==> q.sequence_number < #[trigger] p.queue[i].sequence_number,
{
}

/// Successive reads see increasing sequence numbers.
pub proof fn law_reads_in_sequence_order(p: PoolView)
    requires
        p.wf(),
        p.queue.len() >= 2,
    ensures
        p.front()->0.sequence_number < p.dequeue().front()->0.sequence_number,
{
    assert(p.dequeue().queue[0] == p.queue[1]);
}

/// What is written is read back: a frame offered to a pool with no waiting
/// frame is the next frame read, with the sequence number and timestamp it
/// was given, and the pool is then empty again.
pub proof fn law_enqueue_then_dequeue(p: PoolView, data: FrameData, timestamp: u64)
    requires
        p.wf(),
        p.next_sequence < u64::MAX,
        p.queue.len() == 0,
    ensures
        p.enqueue(data, timestamp).front() == Some(
            QueuedFrame { sequence_number: p.next_sequence as u64, timestamp, data },
        ),
        p.enqueue(data, timestamp).dequeue().queue.len() == 0,
        p.enqueue(data, timestamp).dequeue().statistics().dequeued == p.statistics().dequeued + 1,
{
    assert(p.enqueue(data, timestamp).queue =~= seq![p.stamped(data, timestamp)]);
}

proof fn lemma_dequeue_times(p: PoolView, n: nat)
    requires
        n <= p.queue.len(),
    ensures
        p.dequeue_times(n).queue == p.queue.skip(n as int),
    decreases n,
{
    if n > 0 {
        lemma_dequeue_times(p.dequeue(), (n - 1) as nat);
        assert(p.dequeue().queue.skip(n - 1) =~= p.queue.skip(n as int));
    } else {
        assert(p.queue.skip(0) =~= p.queue);
    }
}

/// First in, first out: a frame accepted by a pool is read after exactly the
/// frames that were waiting when it arrived, with the sequence number and
/// timestamp it was given.
pub proof fn law_accepted_frame_read_in_turn(p: PoolView, data: FrameData, timestamp: u64)
    requires
        p.wf(),
        p.next_sequence < u64::MAX,
        !p.is_full(),
    ensures
        p.enqueue(data, timestamp).dequeue_times(p.queue.len()).front() == Some(
            p.stamped(data, timestamp),
        ),
{
    let q = p.enqueue(data, timestamp);
    lemma_dequeue_times(q, p.queue.len());
    assert(q.queue.skip(p.queue.len() as int) =~= seq![p.stamped(data, timestamp)]);
}

/// The counters never decrease: neither offering nor reading a frame lowers
/// any of them.
pub proof fn law_statistics_never_decrease(p: PoolView, data: FrameData, timestamp: u64)
    requires
        p.wf(),
        p.next_sequence < u64::MAX,
    ensures
        p.enqueue(data, timestamp).enqueued >= p.enqueued,
        p.enqueue(data, timestamp).dropped >= p.dropped,
        p.enqueue(data, timestamp).dequeued == p.dequeued,
        p.dequeue().enqueued == p.enqueued,
        p.dequeue().dropped == p.dropped,
        p.dequeue().dequeued >= p.dequeued,
{
}

impl SimplePool {
    /// Creates a pool of `num` buffers. Only `BufferingDiscard` is supported;
    /// any other mode is refused with `NotSupported`. The buffer size `sz` is
    /// not used.
    pub fn new(mode: BufferingMode, sz: usize, num: usize) -> (r: Result<SimplePool, BufferError>)
        requires
            mode == BufferingMode::BufferingDiscard ==> 0 < num <= max_queue_capacity(),
        ensures
            mode == BufferingMode::BufferingDiscard <==> r is Ok,
            r matches Ok(p) ==> {
                &&& p@.wf()
                &&& p@ == PoolView {
                    capacity: num as nat,
                    next_sequence: 0,
                    queue: Seq::empty(),
                    enqueued: 0,
                    dropped: 0,
                    dequeued: 0,
                }
            },
            r matches Err(e) ==> e == BufferError::NotSupported,
    {
        match mode {
            BufferingMode::BufferingDiscard => {},
            _ => return Err(BufferError::NotSupported),
        }
        let queue = frame_queue_new(num);
        let state = PoolState { sequence_number: 0, queue, enqueued: 0, dropped: 0, dequeued: 0 };
        assert(state.view().queue =~= Seq::<QueuedFrame>::empty());
        Ok(SimplePool { boottime: instant_now(), state })
    }

    /// Offers `data` stamped `timestamp`: it gets the next sequence number, and
    /// is kept when a buffer is free or dropped (and counted as dropped) when
    /// the pool is full.
    pub fn enqueue_at(&mut self, data: FrameData, timestamp: u64) -> (r: Result<(), EnqueueError>)
        requires
            old(self)@.next_sequence < u64::MAX,
        ensures
            old(self)@.wf(),
            final(self)@ == old(self)@.enqueue(data, timestamp),
            final(self)@.wf(),
            r is Ok <==> !old(self)@.is_full(),
            r matches Err(e) ==> e == EnqueueError::Full,
    {
        proof {
            use_type_invariant(&*self);
        }
        state_enqueue(&mut self.state, data, timestamp)
    }

    /// Offers `data`, stamped `timestamp` when one is given and otherwise with
    /// the nanoseconds elapsed since the pool was created.
    pub fn try_enqueue(&mut self, data: FrameData, timestamp: Option<u64>) -> (r: Result<(), EnqueueError>)
        requires
            old(self)@.next_sequence < u64::MAX,
        ensures
            exists|ts: u64|
                {
                    &&& final(self)@ == old(self)@.enqueue(data, ts)
                    &&& (timestamp matches Some(t) ==> ts == t)
                },
            timestamp is None ==> exists|d: Duration|
                final(self)@ == old(self)@.enqueue(data, #[trigger] duration_nanos(d) as u64),
            !old(self)@.is_full() ==> {
                &&& final(self)@.queue.len() == old(self)@.queue.len() + 1
                &&& final(self)@.queue.last().sequence_number == old(self)@.next_sequence
                &&& final(self)@.queue.last().data == data
                &&& timestamp matches Some(t) ==> final(self)@.queue.last().timestamp == t
                &&& timestamp is None ==> exists|d: Duration|
                    final(self)@.queue.last().timestamp == #[trigger] duration_nanos(d) as u64
            },
            final(self)@.wf(),
            r is Ok <==> !old(self)@.is_full(),
            r matches Err(e) ==> e == EnqueueError::Full,
    {
        let ghost mut clock_reading: Option<Duration> = None;
        let ts = match timestamp {
            Some(t) => t,
            None => {
                let elapsed = instant_elapsed(&self.boottime);
                let nanos = duration_as_nanos(&elapsed);
                proof {
                    clock_reading = Some(elapsed);
                }
                nanos as u64
            },
        };
        let r = self.enqueue_at(data, ts);
        proof {
            if timestamp is None {
                assert(ts == duration_nanos(clock_reading->0) as u64);
            }
        }
        r
    }

    /// Hands out the oldest waiting frame, or `None` when no frame waits.
    pub fn try_dequeue(&mut self) -> (r: Option<QueuedFrame>)
        ensures
            old(self)@.wf(),
            r == old(self)@.front(),
            final(self)@ == old(self)@.dequeue(),
            final(self)@.wf(),
    {
        proof {
            use_type_invariant(&*self);
        }
        state_dequeue(&mut self.state)
    }

    /// The sequence number the next offered frame gets.
    pub fn sequence_number(&self) -> (n: u64)
        ensures
            n == self@.next_sequence,
            self@.wf(),
    {
        proof {
            use_type_invariant(self);
        }
        self.state.sequence_number
    }

    /// The counters of frames accepted, dropped and handed out.
    pub fn get_statistics(&self) -> (s: PoolStatistics)
        ensures
            s == self@.statistics(),
            self@.wf(),
    {
        proof {
            use_type_invariant(self);
        }
        PoolStatistics {
            enqueued: self.state.enqueued,
            dropped: self.state.dropped,
            dequeued: self.state.dequeued,
        }
    }
}

} // verus!
