use stream_session::codec::chunk_to_frame;
use stream_session::session::{
    prepare_start, transcript_event_topic, transcript_of_frame, ConnectOutcome, InboundFrame,
    SessionError, SessionManager,
};

const SERVICE_URL: &str = "wss://api.deepgram.com/v1/listen?model=nova-2&punctuate=true&interim_results=true&encoding=linear16&sample_rate=16000";

#[test]
fn chunk_before_any_session_is_dropped_with_success() {
    // A stub connection would observe zero sends: no frame is ever produced.
    let mut manager = SessionManager::new();
    let frame = manager.submit_audio_chunk(&vec![5, 6, 7]);
    assert!(frame.is_none());
    assert!(!manager.live);
}

#[test]
fn chunk_after_stream_end_is_dropped_with_success() {
    let mut manager = SessionManager::new();
    assert!(manager.complete_start(ConnectOutcome::Opened).is_ok());
    manager.on_stream_end();
    let frame = manager.submit_audio_chunk(&vec![1]);
    assert!(frame.is_none());
}

#[test]
fn start_without_credential_fails_before_any_connection() {
    let err = prepare_start(&None).unwrap_err();
    assert_eq!(err, SessionError::MissingCredential);
    assert_eq!(err.message(), "Missing API key");
}

#[test]
fn start_with_empty_credential_fails_before_any_connection() {
    let err = prepare_start(&Some(String::new())).unwrap_err();
    assert_eq!(err, SessionError::MissingCredential);
}

#[test]
fn prepared_request_targets_fixed_url_with_bearer_header() {
    let request = prepare_start(&Some("abc123".to_string())).unwrap();
    assert_eq!(request.url, SERVICE_URL);
    assert_eq!(request.auth_header, "Token abc123");
}

#[test]
fn handshake_failure_carries_detail_and_leaves_state_dead() {
    let mut manager = SessionManager::new();
    let err = manager
        .complete_start(ConnectOutcome::Failed("connection refused".to_string()))
        .unwrap_err();
    assert_eq!(
        err,
        SessionError::HandshakeFailed("connection refused".to_string())
    );
    assert_eq!(err.message(), "connection refused");
    assert!(!manager.live);
    assert!(!manager.sink_stored);
}

#[test]
fn liveness_holds_until_stream_end_then_flips_exactly_once() {
    let mut manager = SessionManager::new();
    assert!(manager.complete_start(ConnectOutcome::Opened).is_ok());
    assert!(manager.live);
    assert!(manager.submit_audio_chunk(&vec![9]).is_some());
    assert!(manager.live);
    manager.on_stream_end();
    assert!(!manager.live);
    // Ending the stream again cannot bring liveness back.
    manager.on_stream_end();
    assert!(!manager.live);
}

#[test]
fn sequential_chunks_sent_in_order_with_le_payloads() {
    let mut manager = SessionManager::new();
    assert!(manager.complete_start(ConnectOutcome::Opened).is_ok());
    // The stub connection: every frame the manager hands out, in order.
    let mut observed: Vec<Vec<u8>> = Vec::new();
    let chunks: Vec<Vec<i16>> = vec![vec![1, 2], vec![-3], vec![100, -100, 0]];
    for chunk in &chunks {
        if let Some(frame) = manager.submit_audio_chunk(chunk) {
            observed.push(frame);
        }
    }
    assert_eq!(observed.len(), 3);
    for (frame, chunk) in observed.iter().zip(chunks.iter()) {
        let mut expected = Vec::new();
        for s in chunk {
            expected.extend_from_slice(&s.to_le_bytes());
        }
        assert_eq!(frame, &expected);
    }
}

#[test]
fn text_frame_becomes_one_verbatim_transcript_event() {
    let event = transcript_of_frame(InboundFrame::Text("hello".to_string()));
    assert_eq!(event, Some("hello".to_string()));
    assert_eq!(transcript_event_topic(), "transcript");
}

#[test]
fn non_text_frames_are_skipped_in_arrival_order() {
    // The receive loop over a stub remote's frames: only the text frame
    // produces an event, before any later frame is processed.
    let inbound = vec![
        InboundFrame::NonText,
        InboundFrame::Text("hello".to_string()),
        InboundFrame::NonText,
        InboundFrame::Text("hello world".to_string()),
    ];
    let mut events: Vec<String> = Vec::new();
    for frame in inbound {
        if let Some(event) = transcript_of_frame(frame) {
            events.push(event);
        }
    }
    assert_eq!(events, vec!["hello".to_string(), "hello world".to_string()]);
}

#[test]
fn interleaved_submissions_never_lose_the_sink() {
    // Two submissions racing for the sink, as interleaved tasks would: the
    // loser of the race sends nothing (known non-determinism, not an
    // error), and once the winner restores the sink a subsequent
    // submission succeeds as usual.
    let mut manager = SessionManager::new();
    assert!(manager.complete_start(ConnectOutcome::Opened).is_ok());
    let first = manager.begin_chunk_send(&vec![1]);
    assert!(first.is_some());
    let second = manager.begin_chunk_send(&vec![2]);
    assert!(second.is_none());
    manager.finish_chunk_send();
    assert!(manager.sink_stored);
    let later = manager.submit_audio_chunk(&vec![3]);
    assert_eq!(later, Some(chunk_to_frame(&vec![3])));
    assert!(manager.sink_stored);
}

#[test]
fn restarting_replaces_the_session_and_revives_liveness() {
    let mut manager = SessionManager::new();
    assert!(manager.complete_start(ConnectOutcome::Opened).is_ok());
    manager.on_stream_end();
    assert!(!manager.live);
    assert!(manager.complete_start(ConnectOutcome::Opened).is_ok());
    assert!(manager.live);
    assert!(manager.submit_audio_chunk(&vec![4]).is_some());
}
