//! The per-session audio-ingest queue.
//!
//! The producer pushes opaque binary frames at the back; the ingest relay
//! takes them from the front. The view is the sequence of queued frame
//! payloads, oldest first, so order preservation is stated directly on it.
//! The queue is bounded: a frame offered to a full queue is handed back, and
//! the producer experiences backpressure instead of unbounded buffering.

use vstd::prelude::*;

verus! {

/// How many frames a session's ingest queue holds at most.
pub const INGEST_CAPACITY: usize = 100;

/// A bounded first-in-first-out queue of binary audio frames.
pub struct FrameQueue {
    items: Vec<Vec<u8>>,
}

impl View for FrameQueue {
    type V = Seq<Seq<u8>>;

    closed spec fn view(&self) -> Seq<Seq<u8>> {
        self.items@.map_values(|frame: Vec<u8>| frame@)
    }
}

impl FrameQueue {
    /// An empty queue.
    pub fn new() -> (r: FrameQueue)
        ensures
            r@ == Seq::<Seq<u8>>::empty(),
    {
        let q = FrameQueue { items: Vec::new() };
        proof {
            assert(q@ =~= Seq::<Seq<u8>>::empty());
        }
        q
    }

    /// How many frames are queued.
    pub fn len(&self) -> (r: usize)
        ensures
            r == self@.len(),
    {
        self.items.len()
    }

    /// Enqueue one frame at the back, unless the queue already holds
    /// `INGEST_CAPACITY` frames: a rejected frame is handed back unchanged,
    /// for the producer to offer again once the relay has drained.
    pub fn try_push(&mut self, frame: Vec<u8>) -> (rejected: Option<Vec<u8>>)
        ensures
            old(self)@.len() < INGEST_CAPACITY ==> rejected is None && final(self)@ == old(
                self,
            )@.push(frame@),
            old(self)@.len() >= INGEST_CAPACITY ==> (rejected matches Some(f) && f@ == frame@)
                && final(self)@ == old(self)@,
    {
        if self.items.len() < INGEST_CAPACITY {
            self.items.push(frame);
            proof {
                assert(self@ =~= old(self)@.push(frame@));
            }
            None
        } else {
            Some(frame)
        }
    }

    /// Dequeue the oldest frame, if any.
    pub fn pop(&mut self) -> (r: Option<Vec<u8>>)
        ensures
            old(self)@.len() == 0 ==> r is None && final(self)@ == old(self)@,
            old(self)@.len() > 0 ==> (r matches Some(f) && f@ == old(self)@[0]) && final(self)@
                == old(self)@.drop_first(),
    {
        if self.items.len() == 0 {
            None
        } else {
            let frame = self.items.remove(0);
            proof {
                assert(self@ =~= old(self)@.drop_first());
            }
            Some(frame)
        }
    }
}

} // verus!
