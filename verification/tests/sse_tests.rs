use securenotify_sdk::sse::{
    SseConfig, SseDriver, SseEventType, SseMessage, SseParser, SseState,
};

fn config(max_attempts: u32) -> SseConfig {
    SseConfig::new("https://api.example.com/stream".to_string(), "key".to_string())
        .with_reconnect_delay(1000)
        .with_max_reconnect_attempts(max_attempts)
}

#[test]
fn build_url_attaches_the_credential() {
    let cfg = SseConfig::new("https://api.example.com/stream".to_string(), "secret".to_string());
    let url = cfg.build_url().unwrap();
    assert_eq!(url, "https://api.example.com/stream?api_key=secret");
}

#[test]
fn build_url_without_credential_only_normalizes() {
    let cfg = SseConfig::new("https://api.example.com/stream".to_string(), String::new());
    assert_eq!(cfg.build_url().unwrap(), "https://api.example.com/stream");
}

#[test]
fn build_url_rejects_an_invalid_url() {
    let cfg = SseConfig::new("not a url".to_string(), "k".to_string());
    match cfg.build_url() {
        Err(e) => assert!(e.code().starts_with("CONNECTION_ERROR")),
        Ok(_) => panic!("an unparsable URL must be refused"),
    }
}

#[test]
fn build_url_normalizes_the_address() {
    // parsing adds the root path, so an unchanged input would fail here
    let cfg = SseConfig::new("https://api.example.com".to_string(), String::new());
    assert_eq!(cfg.build_url().unwrap(), "https://api.example.com/");
}

#[test]
fn parser_tolerates_carriage_returns_and_padding() {
    let mut p = SseParser::new();
    let msgs = p.push_chunk("event:  heartbeat  \r\ndata: x\r\n\r\n");
    assert_eq!(msgs.len(), 1);
    match &msgs[0] {
        SseMessage::Event(ev) => {
            assert_eq!(ev.event_type, SseEventType::Heartbeat);
            assert_eq!(ev.data, "x");
        },
        _ => panic!("expected a dispatched event"),
    }
}

#[test]
fn connect_outcome_classifies_the_handshake_status() {
    assert!(securenotify_sdk::sse::connect_outcome(200).is_ok());
    assert!(securenotify_sdk::sse::connect_outcome(204).is_ok());
    match securenotify_sdk::sse::connect_outcome(404) {
        Err(securenotify_sdk::errors::SecureNotifyError::ApiError { code, message, status }) => {
            assert_eq!(code, "404");
            assert_eq!(message, "SSE connection failed with status: 404");
            assert_eq!(status, 404);
        },
        _ => panic!("a failed handshake must become an ApiError"),
    }
}

#[test]
fn parser_frames_a_complete_event() {
    let mut p = SseParser::new();
    let msgs = p.push_chunk("event: greeting\ndata: hello\n\n");
    assert_eq!(msgs.len(), 1);
    match &msgs[0] {
        SseMessage::Event(ev) => {
            assert_eq!(ev.event_type, SseEventType::Unknown("greeting".to_string()));
            assert_eq!(ev.data, "hello");
            assert!(ev.id.is_none() && ev.name.is_none());
        },
        _ => panic!("expected a dispatched event"),
    }
}

#[test]
fn parser_defaults_the_event_type_to_message() {
    let mut p = SseParser::new();
    let msgs = p.push_chunk("data: payload\n\n");
    assert_eq!(msgs.len(), 1);
    match &msgs[0] {
        SseMessage::Event(ev) => {
            assert_eq!(ev.event_type, SseEventType::Message);
            assert_eq!(ev.data, "payload");
        },
        _ => panic!("expected a dispatched event"),
    }
}

#[test]
fn parser_joins_multiple_data_lines() {
    let mut p = SseParser::new();
    let msgs = p.push_chunk("data: one\ndata: two\n\n");
    assert_eq!(msgs.len(), 1);
    match &msgs[0] {
        SseMessage::Event(ev) => assert_eq!(ev.data, "one\ntwo"),
        _ => panic!("expected a dispatched event"),
    }
}

#[test]
fn parser_buffers_partial_lines_across_chunks() {
    let mut p = SseParser::new();
    assert_eq!(p.push_chunk("data: he").len(), 0);
    let msgs = p.push_chunk("llo\n\ndata: next");
    assert_eq!(msgs.len(), 1);
    match &msgs[0] {
        SseMessage::Event(ev) => assert_eq!(ev.data, "hello"),
        _ => panic!("expected a dispatched event"),
    }
    // the trailing partial line waits for its newline
    let more = p.push_chunk("\n\n");
    assert_eq!(more.len(), 1);
    match &more[0] {
        SseMessage::Event(ev) => assert_eq!(ev.data, "next"),
        _ => panic!("expected a dispatched event"),
    }
}

#[test]
fn parser_resets_the_type_after_each_dispatch() {
    let mut p = SseParser::new();
    // a pending type without data is dropped by the blank line
    assert_eq!(p.push_chunk("event: special\n\n").len(), 0);
    let msgs = p.push_chunk("data: y\n\n");
    assert_eq!(msgs.len(), 1);
    match &msgs[0] {
        SseMessage::Event(ev) => assert_eq!(ev.event_type, SseEventType::Message),
        _ => panic!("expected a dispatched event"),
    }
}

#[test]
fn sse_event_new_keeps_its_fields() {
    let ev = securenotify_sdk::sse::SseEvent::new(
        SseEventType::Message,
        "payload".to_string(),
        Some("id-1".to_string()),
        None,
    );
    assert_eq!(ev.event_type, SseEventType::Message);
    assert_eq!(ev.data, "payload");
    assert_eq!(ev.id, Some("id-1".to_string()));
    assert!(ev.name.is_none());
    assert_eq!(ev.event_type.as_str(), "message");
    assert_eq!(SseEventType::Unknown("x".to_string()).as_str(), "unknown: x");
}

#[test]
fn parser_ignores_comments_and_blank_runs() {
    let mut p = SseParser::new();
    let msgs = p.push_chunk(": keep-alive\n\n\n: another\n");
    assert_eq!(msgs.len(), 0);
}

#[test]
fn parser_dispatches_known_event_types() {
    let mut p = SseParser::new();
    let msgs = p.push_chunk("event: heartbeat\ndata: x\n\n");
    match &msgs[0] {
        SseMessage::Event(ev) => assert_eq!(ev.event_type, SseEventType::Heartbeat),
        _ => panic!("expected a dispatched event"),
    }
}

#[test]
fn driver_recovers_after_transient_errors() {
    let cfg = config(10);
    let mut d = SseDriver::new(&cfg);
    let mut log: Vec<String> = Vec::new();
    d.on_connect_start();
    assert_eq!(d.state(), SseState::Connecting);

    for round in 1..=3u32 {
        let (msgs, delay) = d.on_stream_error(
            securenotify_sdk::errors::SecureNotifyError::connection_error("refused".to_string()),
        );
        // the error is reported before every reconnect attempt
        assert_eq!(msgs.len(), 1);
        assert!(matches!(msgs[0], SseMessage::Error(_)));
        log.push("error".to_string());
        assert_eq!(d.state(), SseState::Reconnecting);
        // doubling backoff, starting at twice the base delay
        assert_eq!(delay, Some(std::cmp::min(1000u64 * 2u64.pow(round), 60000)));
        log.push("reconnect".to_string());
    }

    let msgs = d.on_connected();
    assert!(matches!(msgs[0], SseMessage::Connected));
    assert_eq!(d.state(), SseState::Connected);
    assert!(d.is_connected());
    // a Disconnected message was never emitted along the way
    assert!(log.iter().all(|e| e != "disconnected"));
}

#[test]
fn driver_fails_for_good_when_attempts_run_out() {
    let cfg = config(2);
    let mut d = SseDriver::new(&cfg);
    d.on_connect_start();

    let err = || securenotify_sdk::errors::SecureNotifyError::connection_error("down".to_string());
    let (_, delay) = d.on_stream_error(err());
    assert!(delay.is_some());
    let (_, delay) = d.on_stream_error(err());
    assert!(delay.is_some());

    let (msgs, delay) = d.on_stream_error(err());
    assert_eq!(delay, None);
    assert_eq!(d.state(), SseState::Failed);
    // the original error, then one terminal error before the channel closes
    assert_eq!(msgs.len(), 2);
    match &msgs[1] {
        SseMessage::Error(e) => assert!(e.message().contains("Max reconnect attempts reached")),
        _ => panic!("expected the terminal error message"),
    }
}

#[test]
fn driver_emits_disconnected_exactly_once() {
    let cfg = config(10);
    let mut d = SseDriver::new(&cfg);
    d.on_connect_start();
    d.on_connected();
    let msgs = d.disconnect();
    assert_eq!(msgs.len(), 1);
    assert!(matches!(msgs[0], SseMessage::Disconnected));
    assert_eq!(d.state(), SseState::Disconnected);
    // a second disconnect emits nothing further
    assert_eq!(d.disconnect().len(), 0);
}

#[test]
fn driver_graceful_stream_end() {
    let cfg = config(10);
    let mut d = SseDriver::new(&cfg);
    d.on_connect_start();
    d.on_connected();
    let msgs = d.on_stream_end();
    assert_eq!(msgs.len(), 1);
    assert!(matches!(msgs[0], SseMessage::Disconnected));
    assert_eq!(d.state(), SseState::Disconnected);
}

#[test]
fn driver_heartbeats_only_while_connected() {
    let cfg = config(10);
    let mut d = SseDriver::new(&cfg);
    assert!(d.on_heartbeat().is_none());
    d.on_connect_start();
    assert!(d.on_heartbeat().is_none());
    d.on_connected();
    assert!(matches!(d.on_heartbeat(), Some(SseMessage::Heartbeat)));
}

#[test]
fn driver_url_failure_is_terminal_before_any_attempt() {
    let cfg = SseConfig::new("not a url".to_string(), "k".to_string());
    let mut d = SseDriver::new(&cfg);
    let e = cfg.build_url().unwrap_err();
    let msgs = d.on_url_invalid(e);
    assert_eq!(msgs.len(), 1);
    assert!(matches!(msgs[0], SseMessage::Error(_)));
    assert_eq!(d.state(), SseState::Failed);
}
