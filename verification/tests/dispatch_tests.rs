use speech_relay::dispatch::DispatchAction;
use speech_relay::dispatch::InboundFrame;
use speech_relay::dispatch::dispatch_step;
use speech_relay::filter::TranscriptFilter;
use speech_relay::relay::respond_to_probe;
use speech_relay::sink::OutboundFrame;
use speech_relay::sink::UpstreamSink;

fn result_json(transcript: &str, is_final: bool) -> String {
    format!(
        "{{\"channel\":{{\"alternatives\":[{{\"transcript\":\"{}\"}}]}},\"is_final\":{}}}",
        transcript, is_final
    )
}

fn emitted(filter: &mut TranscriptFilter, transcript: &str, is_final: bool) -> Option<(bool, String)> {
    match dispatch_step(filter, InboundFrame::Text(result_json(transcript, is_final))) {
        DispatchAction::Emit(e) => Some((e.is_final, e.text)),
        DispatchAction::Skip => None,
        _ => panic!("a text frame must either emit or be skipped"),
    }
}

#[test]
fn scenario_consecutive_duplicate_final_suppressed() {
    let mut filter = TranscriptFilter::new();
    let first = emitted(&mut filter, "Hello", true);
    let second = emitted(&mut filter, "Hello", true);
    let third = emitted(&mut filter, "Hello world", true);
    assert_eq!(first, Some((true, String::from("Hello"))));
    assert_eq!(second, None);
    assert_eq!(third, Some((true, String::from("Hello world"))));
}

#[test]
fn non_immediate_repeat_is_reemitted() {
    let mut filter = TranscriptFilter::new();
    assert!(emitted(&mut filter, "alpha", true).is_some());
    assert!(emitted(&mut filter, "beta", true).is_some());
    // "alpha" was emitted two results ago, not immediately before: re-emitted.
    assert_eq!(
        emitted(&mut filter, "alpha", true),
        Some((true, String::from("alpha")))
    );
}

#[test]
fn interim_results_always_pass_through() {
    let mut filter = TranscriptFilter::new();
    assert_eq!(
        emitted(&mut filter, "spea", false),
        Some((false, String::from("spea")))
    );
    // An identical interim result is emitted again.
    assert_eq!(
        emitted(&mut filter, "spea", false),
        Some((false, String::from("spea")))
    );
    // An interim result never feeds the final-transcript dedup state.
    assert_eq!(
        emitted(&mut filter, "spea", true),
        Some((true, String::from("spea")))
    );
}

#[test]
fn empty_and_whitespace_transcripts_are_dropped() {
    let mut filter = TranscriptFilter::new();
    assert_eq!(emitted(&mut filter, "", true), None);
    assert_eq!(emitted(&mut filter, "   ", true), None);
    assert_eq!(emitted(&mut filter, " \\t ", false), None);
    // Dropping them did not touch the dedup state.
    assert_eq!(
        emitted(&mut filter, "Hello", true),
        Some((true, String::from("Hello")))
    );
    assert_eq!(emitted(&mut filter, "  ", true), None);
    // Still an immediate repeat of "Hello": suppressed.
    assert_eq!(emitted(&mut filter, "Hello", true), None);
}

#[test]
fn transcripts_are_trimmed_before_filtering() {
    let mut filter = TranscriptFilter::new();
    assert_eq!(
        emitted(&mut filter, "  Hello  ", true),
        Some((true, String::from("Hello")))
    );
    // The trimmed text is what feeds dedup: a differently padded repeat is
    // still an immediate repeat.
    assert_eq!(emitted(&mut filter, "Hello ", true), None);
}

#[test]
fn missing_finality_flag_means_interim() {
    let mut filter = TranscriptFilter::new();
    let json = String::from("{\"channel\":{\"alternatives\":[{\"transcript\":\"hi\"}]}}");
    match dispatch_step(&mut filter, InboundFrame::Text(json)) {
        DispatchAction::Emit(e) => {
            assert!(!e.is_final);
            assert_eq!(e.text, "hi");
        }
        _ => panic!("an interim result with text must be emitted"),
    }
}

#[test]
fn malformed_frames_are_skipped_without_state_change() {
    let mut filter = TranscriptFilter::new();
    assert!(emitted(&mut filter, "Hello", true).is_some());
    let bad = dispatch_step(&mut filter, InboundFrame::Text(String::from("not json")));
    assert!(matches!(bad, DispatchAction::Skip));
    let no_path = dispatch_step(
        &mut filter,
        InboundFrame::Text(String::from("{\"other\":1}")),
    );
    assert!(matches!(no_path, DispatchAction::Skip));
    // The dedup state survived the malformed frames.
    assert_eq!(emitted(&mut filter, "Hello", true), None);
}

#[test]
fn ping_is_answered_with_its_own_payload() {
    let mut filter = TranscriptFilter::new();
    match dispatch_step(&mut filter, InboundFrame::Ping(vec![9, 8, 7])) {
        DispatchAction::Reply(payload) => assert_eq!(payload, vec![9, 8, 7]),
        _ => panic!("a probe must be answered"),
    }
}

#[test]
fn reply_is_one_frame_before_the_next_audio_frame() {
    // A probe arrives mid-stream: the connection receives exactly one
    // matching reply, complete, before the next queued audio frame.
    let mut sink = UpstreamSink::new();
    respond_to_probe(vec![5, 5], &mut sink);
    sink.send_audio(vec![1, 2, 3]);
    let frames = sink.sent_frames();
    assert_eq!(frames.len(), 2);
    match &frames[0] {
        OutboundFrame::Pong(d) => assert_eq!(d, &vec![5u8, 5]),
        _ => panic!("the reply must come first"),
    }
    match &frames[1] {
        OutboundFrame::Audio(d) => assert_eq!(d, &vec![1u8, 2, 3]),
        _ => panic!("the audio frame must follow the reply"),
    }
}

#[test]
fn keepalive_mid_stream_keeps_frame_order() {
    // Two audio frames with a probe between them: the connection sees the
    // first frame, exactly one matching reply, then the second frame.
    let mut filter = TranscriptFilter::new();
    let mut sink = UpstreamSink::new();
    sink.send_audio(vec![1]);
    match dispatch_step(&mut filter, InboundFrame::Ping(vec![42])) {
        DispatchAction::Reply(payload) => respond_to_probe(payload, &mut sink),
        _ => panic!("a probe must be answered"),
    }
    sink.send_audio(vec![2]);
    let frames = sink.sent_frames();
    assert_eq!(frames.len(), 3);
    assert!(matches!(&frames[0], OutboundFrame::Audio(d) if d == &vec![1u8]));
    assert!(matches!(&frames[1], OutboundFrame::Pong(d) if d == &vec![42u8]));
    assert!(matches!(&frames[2], OutboundFrame::Audio(d) if d == &vec![2u8]));
}

#[test]
fn relay_loop_filters_replies_and_stops() {
    // One run of the dispatch relay: an interim result, a probe, a final
    // result, its duplicate, the close frame, and a frame beyond the close
    // that must be left unprocessed.
    let mut filter = TranscriptFilter::new();
    let mut sink = UpstreamSink::new();
    let frames = vec![
        InboundFrame::Text(result_json("Hel", false)),
        InboundFrame::Ping(vec![1]),
        InboundFrame::Text(result_json("Hello", true)),
        InboundFrame::Text(result_json("Hello", true)),
        InboundFrame::Close,
        InboundFrame::Text(result_json("after close", true)),
    ];
    let events = speech_relay::dispatch::run_dispatch(&mut filter, frames, &mut sink);
    assert_eq!(events.len(), 2);
    assert!(!events[0].is_final);
    assert_eq!(events[0].text, "Hel");
    assert!(events[1].is_final);
    assert_eq!(events[1].text, "Hello");
    let sent = sink.sent_frames();
    assert_eq!(sent.len(), 1);
    assert!(matches!(&sent[0], OutboundFrame::Pong(d) if d == &vec![1u8]));
}

#[test]
fn close_and_failure_stop_the_relay() {
    let mut filter = TranscriptFilter::new();
    assert!(matches!(
        dispatch_step(&mut filter, InboundFrame::Close),
        DispatchAction::Stop
    ));
    assert!(matches!(
        dispatch_step(&mut filter, InboundFrame::Failure),
        DispatchAction::Stop
    ));
    assert!(matches!(
        dispatch_step(&mut filter, InboundFrame::Other),
        DispatchAction::Skip
    ));
}
