use speech_relay::error::SessionError;
use speech_relay::queue::FrameQueue;
use speech_relay::queue::INGEST_CAPACITY;
use speech_relay::registry::PushOutcome;
use speech_relay::registry::Registry;
use speech_relay::relay::run_ingest;
use speech_relay::sink::OutboundFrame;
use speech_relay::sink::UpstreamSink;

#[test]
fn create_then_duplicate_fails() {
    let mut reg = Registry::new();
    assert!(reg.create(String::from("s1")).is_ok());
    assert_eq!(reg.create(String::from("s1")), Err(SessionError::AlreadyActive));
    // Starting other sessions in between does not free the identifier.
    assert!(reg.create(String::from("s2")).is_ok());
    assert_eq!(reg.create(String::from("s1")), Err(SessionError::AlreadyActive));
    assert!(reg.stop(&String::from("s2")).is_ok());
    assert_eq!(reg.create(String::from("s1")), Err(SessionError::AlreadyActive));
}

#[test]
fn push_to_unknown_session_is_invalid() {
    let mut reg = Registry::new();
    assert_eq!(
        reg.push_audio(&String::from("nope"), vec![1, 2, 3]),
        Err(SessionError::InvalidSession)
    );
}

#[test]
fn push_after_upstream_death_is_channel_closed() {
    let mut reg = Registry::new();
    assert!(reg.create(String::from("s1")).is_ok());
    assert!(reg.push_audio(&String::from("s1"), vec![1]).is_ok());
    reg.mark_closed(&String::from("s1"));
    assert_eq!(
        reg.push_audio(&String::from("s1"), vec![2]),
        Err(SessionError::ChannelClosed)
    );
    // The session is still registered, just defunct.
    assert!(reg.contains(&String::from("s1")));
}

#[test]
fn stop_unknown_session_is_not_found() {
    let mut reg = Registry::new();
    assert!(matches!(
        reg.stop(&String::from("ghost")),
        Err(SessionError::NotFound)
    ));
}

#[test]
fn stop_then_push_fails_and_recreate_succeeds() {
    let mut reg = Registry::new();
    assert!(reg.create(String::from("s1")).is_ok());
    assert!(reg.push_audio(&String::from("s1"), vec![7]).is_ok());
    let residual = reg.stop(&String::from("s1")).unwrap();
    assert_eq!(residual.len(), 1);
    assert_eq!(
        reg.push_audio(&String::from("s1"), vec![8]),
        Err(SessionError::InvalidSession)
    );
    assert!(!reg.contains(&String::from("s1")));
    // The identifier may be reused once the session is gone.
    assert!(reg.create(String::from("s1")).is_ok());
}

#[test]
fn frames_are_forwarded_in_push_order() {
    let mut reg = Registry::new();
    assert!(reg.create(String::from("s1")).is_ok());
    assert!(reg.push_audio(&String::from("s1"), vec![1]).is_ok());
    assert!(reg.push_audio(&String::from("s1"), vec![2, 2]).is_ok());
    assert!(reg.push_audio(&String::from("s1"), vec![3, 3, 3]).is_ok());
    let mut residual = reg.stop(&String::from("s1")).unwrap();
    let mut sink = UpstreamSink::new();
    run_ingest(&mut residual, &mut sink);
    assert_eq!(residual.len(), 0);
    let frames = sink.sent_frames();
    assert_eq!(frames.len(), 4);
    match &frames[0] {
        OutboundFrame::Audio(d) => assert_eq!(d, &vec![1u8]),
        _ => panic!("expected an audio frame first"),
    }
    match &frames[1] {
        OutboundFrame::Audio(d) => assert_eq!(d, &vec![2u8, 2]),
        _ => panic!("expected an audio frame second"),
    }
    match &frames[2] {
        OutboundFrame::Audio(d) => assert_eq!(d, &vec![3u8, 3, 3]),
        _ => panic!("expected an audio frame third"),
    }
    assert!(matches!(frames[3], OutboundFrame::Close));
}

#[test]
fn take_frame_drains_in_push_order() {
    let mut reg = Registry::new();
    assert!(reg.create(String::from("s1")).is_ok());
    assert_eq!(
        reg.take_frame(&String::from("s2")),
        Err(SessionError::InvalidSession)
    );
    assert_eq!(reg.take_frame(&String::from("s1")), Ok(None));
    assert!(reg.push_audio(&String::from("s1"), vec![1]).is_ok());
    assert!(reg.push_audio(&String::from("s1"), vec![2]).is_ok());
    assert_eq!(reg.take_frame(&String::from("s1")), Ok(Some(vec![1])));
    assert_eq!(reg.take_frame(&String::from("s1")), Ok(Some(vec![2])));
    assert_eq!(reg.take_frame(&String::from("s1")), Ok(None));
}

#[test]
fn queue_is_first_in_first_out() {
    let mut q = FrameQueue::new();
    assert_eq!(q.len(), 0);
    assert!(q.pop().is_none());
    assert!(q.try_push(vec![10]).is_none());
    assert!(q.try_push(vec![20]).is_none());
    assert_eq!(q.len(), 2);
    assert_eq!(q.pop(), Some(vec![10]));
    assert_eq!(q.pop(), Some(vec![20]));
    assert_eq!(q.pop(), None);
}

#[test]
fn queue_is_bounded_and_hands_back_overflow() {
    let mut q = FrameQueue::new();
    for i in 0..INGEST_CAPACITY {
        assert!(q.try_push(vec![i as u8]).is_none());
    }
    assert_eq!(q.len(), INGEST_CAPACITY);
    // The overflowing frame comes back unchanged.
    assert_eq!(q.try_push(vec![0xAA]), Some(vec![0xAA]));
    assert_eq!(q.len(), INGEST_CAPACITY);
    // Draining one frame makes room again.
    assert_eq!(q.pop(), Some(vec![0]));
    assert!(q.try_push(vec![0xAA]).is_none());
    assert_eq!(q.len(), INGEST_CAPACITY);
}

#[test]
fn full_session_queue_applies_backpressure() {
    let mut reg = Registry::new();
    assert!(reg.create(String::from("s1")).is_ok());
    for i in 0..INGEST_CAPACITY {
        assert_eq!(
            reg.push_audio(&String::from("s1"), vec![i as u8]),
            Ok(PushOutcome::Accepted)
        );
    }
    // The queue is at capacity: the frame is handed back, nothing buffered.
    assert_eq!(
        reg.push_audio(&String::from("s1"), vec![0xBB]),
        Ok(PushOutcome::Full(vec![0xBB]))
    );
    // Once the relay drains a frame, the producer's retry is accepted.
    assert_eq!(reg.take_frame(&String::from("s1")), Ok(Some(vec![0])));
    assert_eq!(
        reg.push_audio(&String::from("s1"), vec![0xBB]),
        Ok(PushOutcome::Accepted)
    );
}

#[test]
fn error_messages() {
    assert_eq!(SessionError::AlreadyActive.message(), "Session already active");
    assert_eq!(SessionError::InvalidSession.message(), "Invalid session");
    assert_eq!(SessionError::NotFound.message(), "Session not found");
    assert_eq!(
        SessionError::ChannelClosed.message(),
        "Send failed or session closed"
    );
    assert_eq!(
        SessionError::ConnectionFailed.message(),
        "WebSocket connection failed"
    );
}
