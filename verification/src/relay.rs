//! The ingest relay and the keepalive responder.
//!
//! The ingest relay drains a session's audio queue and forwards every frame
//! to the send half in enqueue order, then writes the close frame. The
//! keepalive responder answers one liveness probe with one complete reply
//! frame carrying the probe's own payload.

use vstd::prelude::*;

use crate::queue::FrameQueue;
use crate::sink::OutboundFrameView;
use crate::sink::UpstreamSink;

verus! {

/// The queued frame payloads as the audio frames they become upstream.
pub open spec fn audio_frames(frames: Seq<Seq<u8>>) -> Seq<OutboundFrameView> {
    frames.map_values(|payload: Seq<u8>| OutboundFrameView::Audio(payload))
}

/// Drain the queue and forward every frame to the send half, oldest first,
/// then write the close frame: the service receives exactly the queued
/// frames, in enqueue order, followed by the close frame.
pub fn run_ingest(queue: &mut FrameQueue, sink: &mut UpstreamSink)
    ensures
        final(queue)@ == Seq::<Seq<u8>>::empty(),
        final(sink)@ == old(sink)@ + audio_frames(old(queue)@) + seq![OutboundFrameView::Close],
{
    loop
        invariant
            old(sink)@ + audio_frames(old(queue)@) == sink@ + audio_frames(queue@),
        ensures
            queue@.len() == 0,
            old(sink)@ + audio_frames(old(queue)@) == sink@ + audio_frames(queue@),
        decreases queue@.len(),
    {
        let ghost sink_before = sink@;
        let ghost queue_before = queue@;
        match queue.pop() {
            Some(frame) => {
                sink.send_audio(frame);
                proof {
                    assert(sink_before + audio_frames(queue_before) =~= sink@ + audio_frames(
                        queue@,
                    ));
                }
            },
            None => {
                break ;
            },
        }
    }
    proof {
        assert(audio_frames(queue@) =~= Seq::<OutboundFrameView>::empty());
        assert(queue@ =~= Seq::<Seq<u8>>::empty());
    }
    sink.send_close();
    proof {
        assert(sink@ =~= old(sink)@ + audio_frames(old(queue)@) + seq![OutboundFrameView::Close]);
    }
}

/// Answer one liveness probe: write one complete reply frame carrying the
/// probe's payload on the shared send half, and nothing else.
pub fn respond_to_probe(payload: Vec<u8>, sink: &mut UpstreamSink)
    ensures
        final(sink)@ == old(sink)@.push(OutboundFrameView::Pong(payload@)),
{
    sink.send_pong(payload);
}

/// A keepalive reply is one complete frame on the shared send half:
/// answering a probe and then forwarding the next audio frame appends
/// exactly the reply, then that frame, to the send log, in that order.
pub proof fn lemma_reply_precedes_next_frame(
    log: Seq<OutboundFrameView>,
    probe: Seq<u8>,
    frame: Seq<u8>,
)
    ensures
        log.push(OutboundFrameView::Pong(probe)).push(OutboundFrameView::Audio(frame)) == log
            + seq![OutboundFrameView::Pong(probe), OutboundFrameView::Audio(frame)],
{
    assert(log.push(OutboundFrameView::Pong(probe)).push(OutboundFrameView::Audio(frame)) =~= log
        + seq![OutboundFrameView::Pong(probe), OutboundFrameView::Audio(frame)]);
}

} // verus!
