//! The host's pool resource: what a guest holds when it creates a pool. It
//! keeps at most one frame that a readiness wait has already taken out of the
//! pool, and serves reads from that frame first.

use vstd::prelude::*;

use crate::pool::{PoolView, QueuedFrame, SimplePool};
use crate::types::{FrameData, FrameInfo};

verus! {

/// `info` is the frame info handed to the guest for the pooled frame `q`.
pub open spec fn describes(info: FrameInfo, q: QueuedFrame) -> bool {
    &&& info.sequence_number == q.sequence_number
    &&& info.timestamp == q.timestamp
    &&& info.data@ == seq![q.data]
}

/// The held frame, if any, came out of the pool before every frame still in
/// it: its sequence number is below theirs and below the next one the pool
/// gives.
pub open spec fn held_precedes(held: Option<QueuedFrame>, p: PoolView) -> bool {
    held matches Some(f) ==> {
        &&& f.sequence_number < p.next_sequence
        &&& forall|i: int|
            0 <= i < p.queue.len() ==> f.sequence_number < #[trigger] p.queue[i].sequence_number
    }
}

/// Every frame a later read can return, held or pooled or still to come, has a
/// sequence number above `s`.
pub open spec fn later_than(s: u64, held: Option<QueuedFrame>, p: PoolView) -> bool {
    &&& held matches Some(f) ==> s < f.sequence_number
    &&& s < p.next_sequence
    &&& forall|i: int| 0 <= i < p.queue.len() ==> s < #[trigger] p.queue[i].sequence_number
}

/// Offering frames to the pool keeps both orders: new frames get sequence
/// numbers above every earlier one.
pub proof fn law_enqueue_keeps_read_order(
    held: Option<QueuedFrame>,
    s: u64,
    p: PoolView,
    data: FrameData,
    timestamp: u64,
)
    requires
        p.wf(),
        p.next_sequence < u64::MAX,
    ensures
        held_precedes(held, p) ==> held_precedes(held, p.enqueue(data, timestamp)),
        later_than(s, held, p) ==> later_than(s, held, p.enqueue(data, timestamp)),
{
    let q = p.enqueue(data, timestamp);
    if p.queue.len() < p.capacity {
        assert forall|i: int| 0 <= i < q.queue.len() implies (i < p.queue.len() ==> q.queue[i]
            == p.queue[i]) && (i == p.queue.len() ==> q.queue[i].sequence_number
            == p.next_sequence) by {}
    }
}

/// Reads from the pool by anyone else keep both orders too: the frames left
/// are a part of those before.
pub proof fn law_dequeue_keeps_read_order(held: Option<QueuedFrame>, s: u64, p: PoolView)
    requires
        p.wf(),
    ensures
        held_precedes(held, p) ==> held_precedes(held, p.dequeue()),
        later_than(s, held, p) ==> later_than(s, held, p.dequeue()),
{
    if p.queue.len() > 0 {
        assert forall|i: int| 0 <= i < p.dequeue().queue.len() implies p.dequeue().queue[i]
            == p.queue[i + 1] by {}
    }
}

/// A resource that holds no frame is in order with any pool; so, from
/// `Pool::new` on, `try_fetch`, `read_frames` and every offer to or read from
/// the pool keep the held frame ahead of the pool's frames, and every read
/// after one that returned sequence number `s` returns a higher one.
pub proof fn law_fresh_resource_in_order(p: PoolView)
    ensures
        held_precedes(None, p),
{
}

/// The frame info handed to the guest for a pooled frame.
pub fn frame_info(q: QueuedFrame) -> (info: FrameInfo)
    ensures
        describes(info, q),
{
    let QueuedFrame { sequence_number, timestamp, data } = q;
    let mut v: Vec<FrameData> = Vec::new();
    v.push(data);
    assert(v@ =~= seq![q.data]);
    FrameInfo { sequence_number, timestamp, data: v }
}

/// A pool as a guest holds it: its name and the frame a readiness wait took
/// out of the pool ahead of the next read.
pub struct Pool {
    pub name: String,
    pub next_frame: Option<QueuedFrame>,
}

impl Pool {
    /// A fresh resource for the pool called `name`.
    pub fn new(name: String) -> (p: Pool)
        ensures
            p.name == name,
            p.next_frame is None,
    {
        Pool { name, next_frame: None }
    }

    /// Whether a readiness wait must fetch a frame: it returns at once when a
    /// frame is already held.
    pub fn needs_frame(&self) -> (r: bool)
        ensures
            r == self.next_frame is None,
    {
        self.next_frame.is_none()
    }

    /// A readiness step: when no frame is held, takes the oldest frame of
    /// `pool`, if any, and holds it. Tells whether a frame is held afterwards.
    pub fn try_fetch(&mut self, pool: &mut SimplePool) -> (ready: bool)
        ensures
            final(self).name == old(self).name,
            ready == final(self).next_frame is Some,
            old(self).next_frame is Some ==> {
                &&& final(self).next_frame == old(self).next_frame
                &&& final(pool)@ == old(pool)@
            },
            old(self).next_frame is None ==> {
                &&& final(self).next_frame == old(pool)@.front()
                &&& final(pool)@ == old(pool)@.dequeue()
                &&& held_precedes(final(self).next_frame, final(pool)@)
            },
            held_precedes(old(self).next_frame, old(pool)@) ==> held_precedes(
                final(self).next_frame,
                final(pool)@,
            ),
            forall|s: u64|
                later_than(s, old(self).next_frame, old(pool)@) ==> #[trigger] later_than(
                    s,
                    final(self).next_frame,
                    final(pool)@,
                ),
    {
        if self.next_frame.is_some() {
            return true;
        }
        match pool.try_dequeue() {
            Some(frame) => {
                let ghost p = old(pool)@;
                proof {
                    assert forall|i: int| 0 <= i < p.dequeue().queue.len() implies frame.sequence_number
                        < #[trigger] p.dequeue().queue[i].sequence_number by {
                        assert(p.dequeue().queue[i] == p.queue[i + 1]);
                    }
                    assert forall|s: u64| later_than(s, None, p) implies #[trigger] later_than(
                        s,
                        Some(frame),
                        p.dequeue(),
                    ) by {
                        assert(p.queue[0] == frame);
                        assert forall|i: int| 0 <= i < p.dequeue().queue.len() implies s
                            < #[trigger] p.dequeue().queue[i].sequence_number by {
                            assert(p.dequeue().queue[i] == p.queue[i + 1]);
                        }
                    }
                }
                self.next_frame = Some(frame);
                true
            },
            None => false,
        }
    }

    /// Reads up to `max_results` frames; at most one is returned. Nothing is
    /// read when `max_results` is 0. A held frame is returned first; otherwise
    /// the oldest frame of `pool`, if any.
    pub fn read_frames(&mut self, pool: &mut SimplePool, max_results: u32) -> (r: Vec<FrameInfo>)
        ensures
            final(self).name == old(self).name,
            max_results == 0 ==> {
                &&& r@.len() == 0
                &&& *final(self) == *old(self)
                &&& final(pool)@ == old(pool)@
            },
            max_results > 0 ==> final(self).next_frame is None,
            max_results > 0 && old(self).next_frame is Some ==> {
                &&& r@.len() == 1
                &&& describes(r@[0], old(self).next_frame->0)
                &&& final(pool)@ == old(pool)@
            },
            max_results > 0 && old(self).next_frame is None ==> {
                &&& final(pool)@ == old(pool)@.dequeue()
                &&& match old(pool)@.front() {
                    Some(q) => r@.len() == 1 && describes(r@[0], q),
                    None => r@.len() == 0,
                }
            },
            r@.len() <= 1,
            held_precedes(old(self).next_frame, old(pool)@) ==> held_precedes(
                final(self).next_frame,
                final(pool)@,
            ),
            held_precedes(old(self).next_frame, old(pool)@) && r@.len() == 1 ==> later_than(
                r@[0].sequence_number,
                final(self).next_frame,
                final(pool)@,
            ),
            forall|s: u64|
                later_than(s, old(self).next_frame, old(pool)@) ==> {
                    &&& #[trigger] later_than(s, final(self).next_frame, final(pool)@)
                    &&& r@.len() == 1 ==> s < r@[0].sequence_number
                },
    {
        if max_results == 0 {
            return Vec::new();
        }
        let frame = match self.next_frame.take() {
            Some(frame) => frame,
            None => match pool.try_dequeue() {
                Some(frame) => {
                    let ghost p = old(pool)@;
                    proof {
                        assert(p.queue[0] == frame);
                        assert forall|i: int| 0 <= i < p.dequeue().queue.len() implies frame.sequence_number
                            < #[trigger] p.dequeue().queue[i].sequence_number by {
                            assert(p.dequeue().queue[i] == p.queue[i + 1]);
                        }
                        assert forall|s: u64| later_than(s, None, p) implies #[trigger] later_than(
                            s,
                            None,
                            p.dequeue(),
                        ) by {
                            assert forall|i: int| 0 <= i < p.dequeue().queue.len() implies s
                                < #[trigger] p.dequeue().queue[i].sequence_number by {
                                assert(p.dequeue().queue[i] == p.queue[i + 1]);
                            }
                        }
                    }
                    frame
                },
                None => return Vec::new(),
            },
        };
        let info = frame_info(frame);
        vec![info]
    }
}

} // verus!
