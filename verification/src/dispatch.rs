//! The dispatch relay's per-frame decision.
//!
//! For each frame read from the upstream connection the relay decides one
//! action: emit a transcript event, reply to a keepalive probe, stop, or do
//! nothing. Decoding, trimming, filtering and dedup-state update are all
//! decided here; performing the action (delivering the event, writing the
//! reply on the send half) is the surrounding runtime's job.

use vstd::prelude::*;
use vstd::string::StringExecFns;

use crate::decode::decode_result_text;
use crate::decode::decoded_result;
use crate::decode::trim_text;
use crate::decode::trimmed;
use crate::filter::TranscriptEvent;
use crate::filter::TranscriptFilter;
use crate::filter::filter_emit;
use crate::filter::filter_next;
use crate::sink::OutboundFrameView;
use crate::sink::UpstreamSink;

verus! {

/// One frame read from the upstream connection, as the relay sees it.
#[derive(Debug)]
pub enum InboundFrame {
    /// A text frame, expected to carry a JSON recognition result.
    Text(String),
    /// A keepalive probe with its payload.
    Ping(Vec<u8>),
    /// The remote end closed the connection.
    Close,
    /// The transport reported an error.
    Failure,
    /// Any other frame kind; ignored.
    Other,
}

/// The mathematical value of an inbound frame.
pub enum InboundFrameView {
    Text(Seq<char>),
    Ping(Seq<u8>),
    Close,
    Failure,
    Other,
}

impl View for InboundFrame {
    type V = InboundFrameView;

    open spec fn view(&self) -> InboundFrameView {
        match self {
            InboundFrame::Text(t) => InboundFrameView::Text(t@),
            InboundFrame::Ping(d) => InboundFrameView::Ping(d@),
            InboundFrame::Close => InboundFrameView::Close,
            InboundFrame::Failure => InboundFrameView::Failure,
            InboundFrame::Other => InboundFrameView::Other,
        }
    }
}

/// What the relay does with one inbound frame.
#[derive(Debug)]
pub enum DispatchAction {
    /// Deliver this event to the event sink.
    Emit(TranscriptEvent),
    /// Write a liveness reply with this payload on the send half.
    Reply(Vec<u8>),
    /// Stop the relay loop.
    Stop,
    /// Nothing to do for this frame.
    Skip,
}

/// The finality of a decoded result: the `is_final` field must be present
/// and true; an absent field means an interim result.
pub open spec fn is_final_flag(flag: Option<bool>) -> bool {
    flag == Some(true)
}

/// The event emitted for a text frame `text` when the last emitted final
/// transcript was `last`: the frame is decoded, the transcript trimmed, and
/// the result filtered; `None` when the frame does not decode or the filter
/// drops the result.
pub open spec fn text_emission(last: Seq<char>, text: Seq<char>) -> Option<(bool, Seq<char>)> {
    match decoded_result(text) {
        Some(p) => filter_emit(last, trimmed(p.0), is_final_flag(p.1)),
        None => None,
    }
}

/// The last emitted final transcript after a text frame `text` has been
/// dispatched.
pub open spec fn text_next_last(last: Seq<char>, text: Seq<char>) -> Seq<char> {
    match decoded_result(text) {
        Some(p) => filter_next(last, trimmed(p.0), is_final_flag(p.1)),
        None => last,
    }
}

/// The event, if any, that dispatching `frame` emits.
pub open spec fn step_emits(last: Seq<char>, frame: InboundFrameView) -> Option<
    (bool, Seq<char>),
> {
    match frame {
        InboundFrameView::Text(t) => text_emission(last, t),
        _ => None,
    }
}

/// The last emitted final transcript after dispatching `frame`.
pub open spec fn step_next_last(last: Seq<char>, frame: InboundFrameView) -> Seq<char> {
    match frame {
        InboundFrameView::Text(t) => text_next_last(last, t),
        _ => last,
    }
}

/// The keepalive reply, if any, that dispatching `frame` requests: a probe
/// is answered with its own payload, nothing else is.
pub open spec fn step_reply(frame: InboundFrameView) -> Option<Seq<u8>> {
    match frame {
        InboundFrameView::Ping(d) => Some(d),
        _ => None,
    }
}

/// Whether dispatching `frame` stops the relay loop: only on a close frame
/// or a transport error.
pub open spec fn step_stops(frame: InboundFrameView) -> bool {
    frame is Close || frame is Failure
}

/// Decide the action for one inbound frame and update the session's dedup
/// state. A text frame that does not decode is skipped; a decoded result is
/// trimmed and filtered; a probe is answered with its own payload; a close
/// frame or a transport error stops the loop; anything else is ignored.
pub fn dispatch_step(filter: &mut TranscriptFilter, frame: InboundFrame) -> (a: DispatchAction)
    ensures
        final(filter).last() == step_next_last(old(filter).last(), frame@),
        (a is Emit) == (step_emits(old(filter).last(), frame@) is Some),
        a matches DispatchAction::Emit(e) ==> step_emits(old(filter).last(), frame@) == Some(
            (e.is_final, e.text@),
        ),
        (a is Reply) == (step_reply(frame@) is Some),
        a matches DispatchAction::Reply(p) ==> step_reply(frame@) == Some(p@),
        (a is Stop) == step_stops(frame@),
    {
    match frame {
        InboundFrame::Text(t) => {
            match decode_result_text(t.as_str()) {
                Some(decoded) => {
                    let (raw, flag) = decoded;
                    let text = String::from_str(trim_text(raw.as_str()));
                    let is_final = match flag {
                        Some(b) => b,
                        None => false,
                    };
                    match filter.accept(text, is_final) {
                        Some(e) => DispatchAction::Emit(e),
                        None => DispatchAction::Skip,
                    }
                },
                None => DispatchAction::Skip,
            }
        },
        InboundFrame::Ping(d) => DispatchAction::Reply(d),
        InboundFrame::Close => DispatchAction::Stop,
        InboundFrame::Failure => DispatchAction::Stop,
        InboundFrame::Other => DispatchAction::Skip,
    }
}

/// The mathematical values of a sequence of inbound frames.
pub open spec fn frame_views(frames: Seq<InboundFrame>) -> Seq<InboundFrameView> {
    frames.map_values(|f: InboundFrame| f@)
}

/// The mathematical values of a sequence of accepted events.
pub open spec fn event_views(events: Seq<TranscriptEvent>) -> Seq<(bool, Seq<char>)> {
    events.map_values(|e: TranscriptEvent| (e.is_final, e.text@))
}

/// The events the relay emits for a sequence of inbound frames, in arrival
/// order, up to the first frame that stops the loop.
pub open spec fn events_of(last: Seq<char>, frames: Seq<InboundFrameView>) -> Seq<
    (bool, Seq<char>),
>
    decreases frames.len(),
{
    if frames.len() == 0 || step_stops(frames[0]) {
        Seq::empty()
    } else {
        let rest = events_of(step_next_last(last, frames[0]), frames.drop_first());
        match step_emits(last, frames[0]) {
            Some(e) => seq![e] + rest,
            None => rest,
        }
    }
}

/// The keepalive replies the relay writes for a sequence of inbound frames,
/// in arrival order, up to the first frame that stops the loop.
pub open spec fn replies_of(frames: Seq<InboundFrameView>) -> Seq<OutboundFrameView>
    decreases frames.len(),
{
    if frames.len() == 0 || step_stops(frames[0]) {
        Seq::empty()
    } else {
        let rest = replies_of(frames.drop_first());
        match step_reply(frames[0]) {
            Some(d) => seq![OutboundFrameView::Pong(d)] + rest,
            None => rest,
        }
    }
}

/// The last emitted final transcript after the relay has worked through a
/// sequence of inbound frames.
pub open spec fn last_after(last: Seq<char>, frames: Seq<InboundFrameView>) -> Seq<char>
    decreases frames.len(),
{
    if frames.len() == 0 || step_stops(frames[0]) {
        last
    } else {
        last_after(step_next_last(last, frames[0]), frames.drop_first())
    }
}

/// Run the dispatch relay over a sequence of inbound frames, as the loop
/// around `dispatch_step` does: events are returned in arrival order,
/// every probe up to the first close or error is answered on the send half
/// in arrival order, and frames after a close or error are left untouched.
pub fn run_dispatch(
    filter: &mut TranscriptFilter,
    frames: Vec<InboundFrame>,
    sink: &mut UpstreamSink,
) -> (events: Vec<TranscriptEvent>)
    ensures
        event_views(events@) == events_of(old(filter).last(), frame_views(frames@)),
        final(sink)@ == old(sink)@ + replies_of(frame_views(frames@)),
        final(filter).last() == last_after(old(filter).last(), frame_views(frames@)),
{
    let ghost all = frame_views(frames@);
    let mut rest = frames;
    let mut events: Vec<TranscriptEvent> = Vec::new();
    proof {
        assert(event_views(events@) =~= Seq::<(bool, Seq<char>)>::empty());
    }
    loop
        invariant_except_break
            events_of(old(filter).last(), all) == event_views(events@) + events_of(
                filter.last(),
                frame_views(rest@),
            ),
            old(sink)@ + replies_of(all) == sink@ + replies_of(frame_views(rest@)),
            last_after(old(filter).last(), all) == last_after(filter.last(), frame_views(rest@)),
        ensures
            event_views(events@) == events_of(old(filter).last(), all),
            sink@ == old(sink)@ + replies_of(all),
            filter.last() == last_after(old(filter).last(), all),
        decreases rest@.len(),
    {
        if rest.len() == 0 {
            proof {
                assert(frame_views(rest@) =~= Seq::<InboundFrameView>::empty());
                assert(event_views(events@) =~= events_of(old(filter).last(), all));
                assert(sink@ =~= old(sink)@ + replies_of(all));
            }
            break ;
        }
        let ghost rest_pre = frame_views(rest@);
        let ghost last_pre = filter.last();
        let ghost sink_pre = sink@;
        let ghost events_pre = events@;
        let frame = rest.remove(0);
        let ghost fv = frame@;
        proof {
            assert(rest_pre[0] == fv);
            assert(frame_views(rest@) =~= rest_pre.drop_first());
        }
        match dispatch_step(filter, frame) {
            DispatchAction::Emit(e) => {
                let ghost ev = (e.is_final, e.text@);
                events.push(e);
                proof {
                    assert(events_of(last_pre, rest_pre) == seq![ev] + events_of(
                        filter.last(),
                        frame_views(rest@),
                    ));
                    assert(event_views(events@) =~= event_views(events_pre).push(ev));
                    assert(event_views(events_pre) + events_of(last_pre, rest_pre)
                        =~= event_views(events@) + events_of(filter.last(), frame_views(rest@)));
                    assert(replies_of(rest_pre) == replies_of(frame_views(rest@)));
                }
            },
            DispatchAction::Reply(payload) => {
                let ghost pv = payload@;
                sink.send_pong(payload);
                proof {
                    assert(replies_of(rest_pre) == seq![OutboundFrameView::Pong(pv)] + replies_of(
                        frame_views(rest@),
                    ));
                    assert(sink_pre + replies_of(rest_pre) =~= sink@ + replies_of(
                        frame_views(rest@),
                    ));
                    assert(events_of(last_pre, rest_pre) == events_of(
                        filter.last(),
                        frame_views(rest@),
                    ));
                }
            },
            DispatchAction::Stop => {
                proof {
                    assert(events_of(last_pre, rest_pre) =~= Seq::<(bool, Seq<char>)>::empty());
                    assert(replies_of(rest_pre) =~= Seq::<OutboundFrameView>::empty());
                    assert(last_after(last_pre, rest_pre) == last_pre);
                    assert(event_views(events@) =~= events_of(old(filter).last(), all));
                    assert(sink@ =~= old(sink)@ + replies_of(all));
                }
                break ;
            },
            DispatchAction::Skip => {
                proof {
                    assert(events_of(last_pre, rest_pre) == events_of(
                        filter.last(),
                        frame_views(rest@),
                    ));
                    assert(replies_of(rest_pre) == replies_of(frame_views(rest@)));
                }
            },
        }
    }
    events
}

} // verus!
