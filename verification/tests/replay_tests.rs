use webhook_tester::models::StoredRequest;
use webhook_tester::replay::{
    replay_begin, replay_request, replay_step, Forwarder, RecordingForwarder, ReplayAction, ReplayError,
    ReplayEvent, ReplayState,
};
use webhook_tester::utils::OutboundCall;
use webhook_tester::AppState;

fn test_stored_request() -> StoredRequest {
    StoredRequest {
        id: "req-1".into(),
        webhook_id: "wh-1".into(),
        method: "POST".into(),
        headers: r#"{"x-test":"123"}"#.into(),
        body: "hello world".into(),
        query: "".into(),
        created_at: "2025-01-01T00:00:00Z".into(),
    }
}

#[test]
fn replay_fails_when_target_missing() {
    let mut state = AppState::new();
    state.store_request(&test_stored_request()).unwrap();
    let mut forwarder = RecordingForwarder::answering(Ok(200));

    let result = replay_request(&state, &mut forwarder, "req-1", "");
    let error = result.unwrap_err();
    let body_str = error.message();

    assert!(body_str.contains("Missing target URL"));
    assert!(matches!(error, ReplayError::InvalidInput));
    assert!(forwarder.calls().is_empty());
}

#[test]
fn replay_fails_when_request_not_found() {
    let state = AppState::new();
    let mut forwarder = RecordingForwarder::answering(Ok(200));

    let result = replay_request(&state, &mut forwarder, "req-404", "http://example.com");
    let error = result.unwrap_err();
    let body_str = error.message();

    assert!(body_str.contains("Request not found"));
    assert!(matches!(error, ReplayError::NotFound));
    assert!(forwarder.calls().is_empty());
}

#[test]
fn replay_sends_request_successfully() {
    let mut state = AppState::new();
    state.store_request(&test_stored_request()).unwrap();
    let mut forwarder = RecordingForwarder::answering(Ok(200));

    let result = replay_request(&state, &mut forwarder, "req-1", "http://mock.url");
    assert_eq!(result.unwrap(), 200);

    assert_eq!(forwarder.calls().len(), 1);
    let (url, body) = (&forwarder.calls()[0].url, &forwarder.calls()[0].body);
    assert_eq!(url, "http://mock.url");
    assert_eq!(body, "hello world");
    assert_eq!(forwarder.calls()[0].headers, vec![("x-test".to_string(), "123".to_string())]);
}

#[test]
fn replay_reports_upstream_status() {
    let mut state = AppState::new();
    state.store_request(&test_stored_request()).unwrap();
    for status in [204u16, 404, 500] {
        let mut forwarder = RecordingForwarder::answering(Ok(status));
        assert_eq!(replay_request(&state, &mut forwarder, "req-1", "http://t").unwrap(), status);
        assert_eq!(forwarder.calls().len(), 1);
    }
}

#[test]
fn replay_reports_forwarding_error_without_retry() {
    let mut state = AppState::new();
    state.store_request(&test_stored_request()).unwrap();
    let mut forwarder = RecordingForwarder::answering(Err("connection refused".to_string()));

    let error = replay_request(&state, &mut forwarder, "req-1", "http://down").unwrap_err();
    match &error {
        ReplayError::Forwarding(cause) => assert_eq!(cause, "connection refused"),
        other => panic!("unexpected {:?}", other),
    }
    assert_eq!(error.message(), "connection refused");
    assert_eq!(forwarder.calls().len(), 1);
}

#[test]
fn replay_checks_target_before_looking_up() {
    let state = AppState::new();
    let mut forwarder = RecordingForwarder::answering(Ok(200));
    let error = replay_request(&state, &mut forwarder, "req-404", "").unwrap_err();
    assert!(matches!(error, ReplayError::InvalidInput));
}

#[test]
fn error_messages_are_exact() {
    assert_eq!(ReplayError::InvalidInput.message(), "Missing target URL");
    assert_eq!(ReplayError::NotFound.message(), "Request not found");
    assert_eq!(ReplayError::Forwarding("timed out".to_string()).message(), "timed out");
}

#[test]
fn replay_machine_ends_at_once_without_target() {
    let (state, action) = replay_begin("req-1", "");
    assert!(matches!(state, ReplayState::Done));
    assert!(matches!(action, ReplayAction::Finish(Err(ReplayError::InvalidInput))));
    let (state, action) = replay_step(state, ReplayEvent::Found(test_stored_request()));
    assert!(matches!(state, ReplayState::Done));
    assert!(matches!(action, ReplayAction::Ignore));
}

#[test]
fn replay_machine_fetches_sends_and_finishes() {
    let (state, action) = replay_begin("req-1", "http://mock.url");
    match action {
        ReplayAction::Fetch(id) => assert_eq!(id, "req-1"),
        other => panic!("unexpected {:?}", other),
    }
    let (state, action) = replay_step(state, ReplayEvent::Found(test_stored_request()));
    assert!(matches!(state, ReplayState::Sending));
    match action {
        ReplayAction::Send(call) => {
            assert_eq!(call.url, "http://mock.url");
            assert_eq!(call.body, "hello world");
            assert_eq!(call.headers, vec![("x-test".to_string(), "123".to_string())]);
        }
        other => panic!("unexpected {:?}", other),
    }
    let (state, action) = replay_step(state, ReplayEvent::Delivered(202));
    assert!(matches!(state, ReplayState::Done));
    assert!(matches!(action, ReplayAction::Finish(Ok(202))));
    let (_, action) = replay_step(state, ReplayEvent::Delivered(200));
    assert!(matches!(action, ReplayAction::Ignore));
}

#[test]
fn replay_machine_reports_missing_and_failed() {
    let (state, _) = replay_begin("req-404", "http://example.com");
    let (state, action) = replay_step(state, ReplayEvent::Missing);
    assert!(matches!(state, ReplayState::Done));
    assert!(matches!(action, ReplayAction::Finish(Err(ReplayError::NotFound))));

    let (state, _) = replay_begin("req-1", "http://example.com");
    let (state, _) = replay_step(state, ReplayEvent::Found(test_stored_request()));
    let (state, action) = replay_step(state, ReplayEvent::Failed("dns".to_string()));
    assert!(matches!(state, ReplayState::Done));
    match action {
        ReplayAction::Finish(Err(ReplayError::Forwarding(cause))) => assert_eq!(cause, "dns"),
        other => panic!("unexpected {:?}", other),
    }
}

#[test]
fn replay_machine_ignores_events_out_of_turn() {
    let (state, _) = replay_begin("req-1", "http://example.com");
    let (state, action) = replay_step(state, ReplayEvent::Delivered(200));
    assert!(matches!(state, ReplayState::Fetching(_)));
    assert!(matches!(action, ReplayAction::Ignore));
    let (state, _) = replay_step(state, ReplayEvent::Found(test_stored_request()));
    let (state, action) = replay_step(state, ReplayEvent::Missing);
    assert!(matches!(state, ReplayState::Sending));
    assert!(matches!(action, ReplayAction::Ignore));
}

#[test]
fn replay_skips_a_header_with_an_invalid_name() {
    let mut state = AppState::new();
    let mut stored = test_stored_request();
    stored.headers = r#"{"x-test":"123","bad name":"v"}"#.into();
    state.store_request(&stored).unwrap();
    let mut forwarder = RecordingForwarder::answering(Ok(200));

    assert_eq!(replay_request(&state, &mut forwarder, "req-1", "http://mock.url").unwrap(), 200);
    assert_eq!(forwarder.calls().len(), 1);
    assert_eq!(forwarder.calls()[0].url, "http://mock.url");
    assert_eq!(forwarder.calls()[0].body, "hello world");
    assert_eq!(forwarder.calls()[0].headers, vec![("x-test".to_string(), "123".to_string())]);
}

#[test]
fn recording_forwarder_keeps_calls_and_repeats_its_answer() {
    let mut forwarder = RecordingForwarder::answering(Err("down".to_string()));
    assert!(forwarder.calls().is_empty());
    let call = OutboundCall { url: "http://a".to_string(), headers: Vec::new(), body: "one".to_string() };
    assert_eq!(forwarder.forward(&call), Err("down".to_string()));
    let call = OutboundCall { url: "http://b".to_string(), headers: Vec::new(), body: "two".to_string() };
    assert_eq!(forwarder.forward(&call), Err("down".to_string()));
    assert_eq!(forwarder.calls().len(), 2);
    assert_eq!(forwarder.calls()[0].url, "http://a");
    assert_eq!(forwarder.calls()[1].body, "two");

    let mut fine = RecordingForwarder::answering(Ok(204));
    assert_eq!(fine.forward(&call), Ok(204));
    assert_eq!(fine.calls().len(), 1);
}
