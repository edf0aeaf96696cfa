use makepad_platform::octos::{
    fold_turn_message, parse_octos_stream, thread_id, ChatMessage, ChatRole, OctosConfig,
    ParsedOctosStream, TurnInput,
};

const STREAM: &str = "data: {\"type\":\"thinking\",\"text\":\"hmm\"}\n\n\
data: {\"type\":\"replace\",\"text\":\"Hel\"}\n\n\
data: {\"type\":\"token\",\"text\":\"lo \"}\n\n\
data: not json\n\n\
data: {\"type\":\"replace\",\"text\":\"Hello w\"}\n\n\
data: {\"type\":\"token\",\"text\":\"orld\"}\n\n\
data: {\"type\":\"done\",\"model\":\"moonshot\"}\n\n";

#[test]
fn parses_replace_token_done_and_skips_the_rest() {
    let parsed = parse_octos_stream(STREAM.as_bytes());
    assert_eq!(parsed.text, "Hello world");
    assert!(parsed.saw_done);
}

#[test]
fn tolerates_crlf_and_a_missing_done() {
    let body = "data: {\"type\":\"token\",\"text\":\"a\\nb\"}\r\n\r\ndata: {\"type\":\"token\",\"text\":\"c\"}";
    let parsed = parse_octos_stream(body.as_bytes());
    assert_eq!(parsed.text, "a\nbc");
    assert!(!parsed.saw_done);
}

#[test]
fn config_normalizes_the_chat_endpoint() {
    assert_eq!(
        OctosConfig::new("http://10.0.0.5:19401/").unwrap().endpoint(),
        "http://10.0.0.5:19401/chat"
    );
    assert_eq!(
        OctosConfig::new("http://10.0.0.5:19401/chat").unwrap().endpoint(),
        "http://10.0.0.5:19401/chat"
    );
    assert!(OctosConfig::new("").is_err());
    assert!(OctosConfig::new("10.0.0.5:19401").is_err());
}

#[test]
fn folds_system_in_front_of_the_latest_user_message() {
    let mut input = TurnInput::new(
        "SYSTEM",
        vec![
            ChatMessage::new(ChatRole::User, "first"),
            ChatMessage::new(ChatRole::Assistant, "reply"),
            ChatMessage::new(ChatRole::User, "second"),
        ],
    );
    assert_eq!(fold_turn_message(&input).as_deref(), Some("SYSTEM\n\nUSER REQUEST:\nsecond"));
    input.system.clear();
    assert_eq!(fold_turn_message(&input).as_deref(), Some("second"));
    input.messages.clear();
    assert!(fold_turn_message(&input).is_none());
}

#[test]
fn blank_user_messages_are_passed_over() {
    let input = TurnInput::new(
        "  \n",
        vec![
            ChatMessage::new(ChatRole::User, "real"),
            ChatMessage::new(ChatRole::User, "  \t "),
            ChatMessage::new(ChatRole::Assistant, "answer"),
        ],
    );
    assert_eq!(fold_turn_message(&input).as_deref(), Some("real"));
    let only_assistant = TurnInput::new("SYS", vec![ChatMessage::new(ChatRole::Assistant, "a")]);
    assert!(fold_turn_message(&only_assistant).is_none());
}

#[test]
fn config_errors_name_the_problem() {
    assert_eq!(OctosConfig::new("   ").err().unwrap(), "octos url is empty");
    assert_eq!(
        OctosConfig::new("ftp://host/").err().unwrap(),
        "octos url must start with http:// or https://"
    );
    assert_eq!(OctosConfig::new("  https://h:1//  ").unwrap().endpoint(), "https://h:1/chat");
    assert_eq!(OctosConfig::new("https://h").unwrap().endpoint(), "https://h/chat");
    assert!(OctosConfig::new("http://h").unwrap().session_id().starts_with("aichat-"));
}

#[test]
fn session_id_is_pinned_only_when_valid() {
    let config = OctosConfig::new_in_session("http://h", "base".to_string()).unwrap();
    assert_eq!(config.session_id(), "base");
    let config = config.with_session_id("");
    assert_eq!(config.session_id(), "base");
    let long: String = "x".repeat(129);
    let config = config.with_session_id(&long);
    assert_eq!(config.session_id(), "base");
    let exact: String = "y".repeat(128);
    let config = config.with_session_id(&exact);
    assert_eq!(config.session_id(), exact);
    // 43 characters of three bytes each: 129 bytes.
    let wide: String = "\u{20ac}".repeat(43);
    let config = config.with_session_id(&wide);
    assert_eq!(config.session_id(), exact);
    let config = config.with_session_id("sess");
    assert_eq!(config.session_id(), "sess");
}

#[test]
fn blank_tokens_are_dropped() {
    let config = OctosConfig::new("http://h").unwrap().with_auth_token(Some("  ".to_string()));
    assert_eq!(config.auth_token(), None);
    let config = config.with_auth_token(Some("secret-token".to_string()));
    assert_eq!(config.auth_token(), Some("secret-token"));
    let config = config.with_auth_token(None);
    assert_eq!(config.auth_token(), None);
}

#[test]
fn request_timeout_is_kept() {
    let config = OctosConfig::new("http://h").unwrap();
    assert_eq!(config.request_timeout(), std::time::Duration::from_secs(300));
    let config = config.with_request_timeout(std::time::Duration::from_secs(5));
    assert_eq!(config.request_timeout(), std::time::Duration::from_secs(5));
}

#[test]
fn environment_values_fall_back_to_the_default_url() {
    let config =
        OctosConfig::from_env_values(Some("  ".to_string()), Some("tok".to_string()), "http://default:1").unwrap();
    assert_eq!(config.endpoint(), "http://default:1/chat");
    assert_eq!(config.auth_token(), Some("tok"));
    let config = OctosConfig::from_env_values(Some("http://env:2/chat".to_string()), None, "http://default:1")
        .unwrap();
    assert_eq!(config.endpoint(), "http://env:2/chat");
    assert_eq!(config.auth_token(), None);
    assert!(OctosConfig::from_env_values(Some("nope".to_string()), None, "http://default:1").is_err());
}

#[test]
fn frames_apply_one_at_a_time() {
    let mut parsed = ParsedOctosStream::default();
    parsed.apply_frame(Some("token"), Some("ab"));
    assert_eq!(parsed.text, "ab");
    parsed.apply_frame(Some("token"), None);
    assert_eq!(parsed.text, "ab");
    parsed.apply_frame(Some("replace"), Some("x"));
    assert_eq!(parsed.text, "x");
    parsed.apply_frame(Some("cost_update"), Some("y"));
    parsed.apply_frame(None, Some("z"));
    assert_eq!(parsed.text, "x");
    assert!(!parsed.saw_done);
    parsed.apply_frame(Some("done"), None);
    assert!(parsed.saw_done);
    assert_eq!(parsed.text, "x");
}

#[test]
fn only_data_lines_count_and_invalid_utf8_is_replaced() {
    let body = b"event: token\ndata:{\"type\":\"token\",\"text\":\"a\"}\n  data:   {\"type\":\"token\",\"text\":\"b\"}  \ndata:\n\xff\ndata: {\"type\":\"token\",\"text\":\"\\u00e9\"}";
    let parsed = parse_octos_stream(body);
    assert_eq!(parsed.text, "ab\u{e9}");
    assert!(!parsed.saw_done);
    let empty = parse_octos_stream(b"");
    assert_eq!(empty.text, "");
    assert!(!empty.saw_done);
}

#[test]
fn thread_ids_count_turns() {
    assert_eq!(thread_id("sess", 0), "sess-t0");
    assert_eq!(thread_id("sess", 1), "sess-t1");
    assert_eq!(thread_id("s", 1234567890), "s-t1234567890");
    assert_eq!(thread_id("s", u64::MAX), "s-t18446744073709551615");
}

use makepad_platform::octos::{build_request_body, endpoint_detail, OctosTurnState, ProviderEvent, WorkerOut};

#[test]
fn endpoint_detail_names_the_host() {
    assert_eq!(endpoint_detail("http://octos.test:19401/chat"), "http://octos.test:19401");
    assert_eq!(endpoint_detail("http://h/chat/chat"), "http://h");
    assert_eq!(endpoint_detail("http://h/chatx"), "http://h/chatx");
}

#[test]
fn request_body_is_json_with_three_strings() {
    let body = build_request_body("hi \"there\"", "sess", "sess-t0");
    assert_eq!(
        String::from_utf8(body).unwrap(),
        "{\"message\":\"hi \\\"there\\\"\",\"session_id\":\"sess\",\"thread_id\":\"sess-t0\"}"
    );
}

#[test]
fn turns_are_planned_one_at_a_time_with_fresh_threads() {
    let config = OctosConfig::new("http://octos.test:19401")
        .unwrap()
        .with_auth_token(Some("secret-token".into()))
        .with_session_id("sess");
    let mut turns = OctosTurnState::new();
    let input = TurnInput::new("SYS", vec![ChatMessage::new(ChatRole::User, "hi \"there\"")]);
    let plan = turns.begin_turn(&config, &input).unwrap();
    assert_eq!(plan.endpoint, "http://octos.test:19401/chat");
    assert_eq!(plan.auth_token.as_deref(), Some("secret-token"));
    let body: serde_json::Value = serde_json::from_slice(&plan.body).unwrap();
    assert_eq!(body["message"], "SYS\n\nUSER REQUEST:\nhi \"there\"");
    assert_eq!(body["session_id"], "sess");
    assert_eq!(body["thread_id"], "sess-t0");
    turns.mark_active();
    assert_eq!(turns.begin_turn(&config, &input).err().unwrap(), "a turn is already in flight");
    let events = turns.finish_turn(WorkerOut::Parsed(ParsedOctosStream { text: "Hello world".into(), saw_done: true }));
    assert_eq!(
        events,
        vec![ProviderEvent::Delta("Hello world".into()), ProviderEvent::Done { text: "Hello world".into() }]
    );
    let plan = turns.begin_turn(&config, &input).unwrap();
    let body: serde_json::Value = serde_json::from_slice(&plan.body).unwrap();
    assert_eq!(body["thread_id"], "sess-t1");
}

#[test]
fn a_turn_without_a_user_message_is_refused() {
    let config = OctosConfig::new("http://octos.test:19401").unwrap();
    let mut turns = OctosTurnState::new();
    let err = turns
        .begin_turn(&config, &TurnInput::new("SYS", vec![ChatMessage::new(ChatRole::Assistant, "a")]))
        .err()
        .unwrap();
    assert!(err.contains("no user message"));
    assert_eq!(turns.next_thread, 0);
}

#[test]
fn oversized_turns_are_refused_and_errors_finish_the_turn() {
    let config = OctosConfig::new("http://h").unwrap();
    let mut turns = OctosTurnState::new();
    let huge = "x".repeat(1024 * 1024);
    let input = TurnInput::new("", vec![ChatMessage::new(ChatRole::User, &huge)]);
    assert_eq!(turns.begin_turn(&config, &input).err().unwrap(), "request body too large");
    assert_eq!(turns.next_thread, 1);
    turns.mark_active();
    let events = turns.finish_turn(WorkerOut::Failed("octos returned HTTP 502".into()));
    assert_eq!(events, vec![ProviderEvent::Error("octos returned HTTP 502".into())]);
    assert!(!turns.active);
    let empty = turns.finish_turn(WorkerOut::Parsed(ParsedOctosStream::default()));
    assert_eq!(empty, vec![ProviderEvent::Done { text: String::new() }]);
}

use makepad_platform::octos::{http_status_error, worker_verdict, OctosRawHttp, WorkerVerdict};

fn verdict_text(v: WorkerVerdict) -> WorkerOut {
    match v {
        WorkerVerdict::Reply(parsed) => WorkerOut::Parsed(parsed),
        WorkerVerdict::Public(text) | WorkerVerdict::Sanitize(text) => WorkerOut::Failed(text),
    }
}

#[test]
fn http_failures_surface_as_one_error_event() {
    let config = OctosConfig::new("http://octos.test:19401")
        .unwrap()
        .with_auth_token(Some("secret-token".into()))
        .with_session_id("sess");
    let input = TurnInput::new("", vec![ChatMessage::new(ChatRole::User, "x")]);

    let mut turns = OctosTurnState::new();
    turns.begin_turn(&config, &input).unwrap();
    turns.mark_active();
    let reply = Ok(OctosRawHttp { status: 502, body: b"bad gateway".to_vec() });
    let events = turns.finish_turn(verdict_text(worker_verdict(reply, config.auth_token())));
    assert!(matches!(&events[..], [ProviderEvent::Error(e)] if e.contains("502")), "{events:?}");
    assert!(!turns.active, "provider is idle after an error");

    let mut turns = OctosTurnState::new();
    turns.begin_turn(&config, &input).unwrap();
    turns.mark_active();
    let reply = Err("connect refused for secret-token".to_string());
    let events = turns.finish_turn(verdict_text(worker_verdict(reply, config.auth_token())));
    match &events[..] {
        [ProviderEvent::Error(e)] => assert_eq!(e, "provider error", "token must not leak"),
        other => panic!("{other:?}"),
    }
}

#[test]
fn status_errors_quote_a_trimmed_snippet() {
    match http_status_error(502, b"  bad gateway \n") {
        WorkerVerdict::Sanitize(m) => assert_eq!(m, "octos returned HTTP 502: bad gateway"),
        _ => panic!("a snippet goes to the sanitizer"),
    }
    match http_status_error(503, b" \r\n ") {
        WorkerVerdict::Public(m) => assert_eq!(m, "octos returned HTTP 503"),
        _ => panic!("a blank body gives the status alone"),
    }
    let long = "y".repeat(400);
    match http_status_error(404, long.as_bytes()) {
        WorkerVerdict::Sanitize(m) => assert_eq!(m, format!("octos returned HTTP 404: {}", "y".repeat(160))),
        _ => panic!("a long body is cut at 160 bytes"),
    }
    match http_status_error(500, &[0xff, b'o', b'k']) {
        WorkerVerdict::Sanitize(m) => assert_eq!(m, "octos returned HTTP 500: \u{fffd}ok"),
        _ => panic!("invalid utf-8 is replaced"),
    }
}

#[test]
fn worker_verdicts_follow_the_reply() {
    let ok = worker_verdict(Ok(OctosRawHttp { status: 200, body: STREAM.as_bytes().to_vec() }), None);
    match ok {
        WorkerVerdict::Reply(p) => assert_eq!(p, ParsedOctosStream { text: "Hello world".into(), saw_done: true }),
        _ => panic!("a 2xx reply is parsed"),
    }
    let big = vec![b'a'; 8 * 1024 * 1024 + 1];
    match worker_verdict(Ok(OctosRawHttp { status: 200, body: big }), None) {
        WorkerVerdict::Public(m) => assert_eq!(m, "response body too large"),
        _ => panic!("an oversized body is refused"),
    }
    match worker_verdict(Err("timed out".into()), Some("tok")) {
        WorkerVerdict::Sanitize(m) => assert_eq!(m, "timed out"),
        _ => panic!("other errors go to the sanitizer"),
    }
    match worker_verdict(Err("bad tok here".into()), Some("tok")) {
        WorkerVerdict::Public(m) => assert_eq!(m, "provider error"),
        _ => panic!("an error quoting the token is hidden"),
    }
    match worker_verdict(Ok(OctosRawHttp { status: 199, body: Vec::new() }), None) {
        WorkerVerdict::Public(m) => assert_eq!(m, "octos returned HTTP 199"),
        _ => panic!("statuses below 200 are errors"),
    }
}

#[test]
fn a_turn_posts_one_folded_message_and_yields_delta_then_done() {
    let config = OctosConfig::new("http://octos.test:19401")
        .unwrap()
        .with_auth_token(Some("secret-token".into()))
        .with_session_id("sess");
    let mut turns = OctosTurnState::new();
    let input = TurnInput::new("SYS", vec![ChatMessage::new(ChatRole::User, "hi \"there\"")]);
    let plan = turns.begin_turn(&config, &input).unwrap();
    turns.mark_active();
    assert!(turns.begin_turn(&config, &input).is_err(), "one turn in flight at a time");
    let reply = Ok(OctosRawHttp { status: 200, body: STREAM.as_bytes().to_vec() });
    let events = turns.finish_turn(verdict_text(worker_verdict(reply, plan.auth_token.as_deref())));
    assert_eq!(
        events,
        vec![
            ProviderEvent::Delta("Hello world".into()),
            ProviderEvent::Done { text: "Hello world".into() }
        ]
    );
    assert_eq!(plan.endpoint, "http://octos.test:19401/chat");
    assert_eq!(plan.auth_token.as_deref(), Some("secret-token"));
    let value: serde_json::Value = serde_json::from_slice(&plan.body).expect("request body is json");
    assert_eq!(value.get("message").and_then(serde_json::Value::as_str), Some("SYS\n\nUSER REQUEST:\nhi \"there\""));
    assert_eq!(value.get("session_id").and_then(serde_json::Value::as_str), Some("sess"));
    assert_eq!(value.get("thread_id").and_then(serde_json::Value::as_str), Some("sess-t0"));
    // The provider is idle again and the next turn gets a fresh thread.
    let plan = turns.begin_turn(&config, &input).unwrap();
    assert_eq!(String::from_utf8_lossy(&plan.body).contains("\"sess-t1\""), true);
}

#[test]
fn endpoints_keep_their_shape_under_renormalization() {
    for url in ["http://h", " https://h:1/x// ", "http://h/chat", "http://h/chat/"] {
        let e = OctosConfig::new(url).unwrap().endpoint().to_string();
        assert!(e.ends_with("/chat"));
        assert!(e.starts_with("http://") || e.starts_with("https://"));
        let again = OctosConfig::new(&e).unwrap().with_request_timeout(std::time::Duration::from_secs(1));
        assert_eq!(again.endpoint(), e);
    }
    assert_eq!(OctosConfig::new("http://").unwrap().endpoint(), "http:/chat");
}
