use makepad_platform::octos_backend::{
    escape_json_string, json_str_field, latest_user_text, AiEvent, AiRequest, ContentBlock,
    InFlightRequest, Message, MessageRole, NetworkResponse, OctosBackend, OctosBackendConfig,
    StopReason,
};

fn user(text: &str) -> Message {
    Message { role: MessageRole::User, content: vec![ContentBlock::Text { text: text.to_string() }] }
}

fn backend(base_url: &str, token: Option<&str>) -> OctosBackend {
    OctosBackend::new_in_session(
        OctosBackendConfig { base_url: base_url.to_string(), auth_token: token.map(|t| t.to_string()) },
        "sess".to_string(),
    )
}

#[test]
fn escapes_quotes_controls_and_keeps_unicode() {
    assert_eq!(escape_json_string("hi \"there\""), "hi \\\"there\\\"");
    assert_eq!(escape_json_string("a\\b\nc\rd\te"), "a\\\\b\\nc\\rd\\te");
    assert_eq!(escape_json_string("\u{1}\u{7f}\u{9f}"), "\\u0001\\u007f\\u009f");
    assert_eq!(escape_json_string("\u{e9}/\u{a0}"), "\u{e9}/\u{a0}");
}

#[test]
fn scans_string_fields_of_flat_frames() {
    let frame = "{\"type\":\"token\",\"text\":\"a\\nb\"}";
    assert_eq!(json_str_field(frame, "type").as_deref(), Some("token"));
    assert_eq!(json_str_field(frame, "text").as_deref(), Some("a\nb"));
    assert_eq!(json_str_field(frame, "model"), None);
    assert_eq!(json_str_field("{\"text\" :  \"x\"}", "text").as_deref(), Some("x"));
    assert_eq!(json_str_field("{\"n\":1}", "n"), None);
    assert_eq!(json_str_field("{\"t\":\"open", "t"), None);
    assert_eq!(json_str_field("{\"t\":\"\\u00e9\\/\\\"\"}", "t").as_deref(), Some("\u{e9}/\""));
    assert_eq!(json_str_field("{\"t\":\"\\u+0e9\"}", "t").as_deref(), Some("\u{e9}"));
    assert_eq!(json_str_field("{\"t\":\"\\ud800x\"}", "t").as_deref(), Some("x"));
    assert_eq!(json_str_field("{\"t\":\"\\u12\"}", "t"), None);
    assert_eq!(json_str_field("{\"t\":\"\\u1\"}", "t").as_deref(), Some("1"));
}

#[test]
fn latest_non_blank_user_text_is_sent() {
    let request = AiRequest {
        messages: vec![
            user("first"),
            Message { role: MessageRole::Assistant, content: vec![ContentBlock::Text { text: "reply".to_string() }] },
            Message {
                role: MessageRole::User,
                content: vec![
                    ContentBlock::Text { text: "sec".to_string() },
                    ContentBlock::Other,
                    ContentBlock::Text { text: "ond".to_string() },
                ],
            },
            user("   "),
        ],
    };
    assert_eq!(latest_user_text(&request), "second");
    assert_eq!(latest_user_text(&AiRequest { messages: vec![] }), "");
}

#[test]
fn requests_post_one_message_per_thread() {
    let mut b = backend("http://octos.test:19401/", Some("secret-token"));
    let request = AiRequest { messages: vec![user("hi \"there\"")] };
    let first = b.send_request(7, &request);
    assert_eq!(first.url, "http://octos.test:19401/chat");
    assert!(first.is_streaming);
    assert_eq!(
        first.headers,
        vec![
            ("Content-Type".to_string(), "application/json".to_string()),
            ("Authorization".to_string(), "Bearer secret-token".to_string()),
        ]
    );
    assert_eq!(
        first.body,
        "{\"message\":\"hi \\\"there\\\"\",\"session_id\":\"sess\",\"thread_id\":\"sess-t0\"}"
    );
    let second = b.send_request(8, &request);
    assert!(second.body.contains("\"sess-t1\""));
    assert_eq!(b.in_flight.len(), 2);
    assert!(b.cancel_request(7));
    assert!(!b.cancel_request(7));
    assert_eq!(b.in_flight.len(), 1);

    let mut plain = backend("http://h/chat", Some("  "));
    let req = plain.build_http_request(&request);
    assert_eq!(req.url, "http://h/chat");
    assert_eq!(req.headers.len(), 1);
}

#[test]
fn chunks_split_anywhere_accumulate_the_same_text() {
    let stream = "data: {\"type\":\"replace\",\"text\":\"Hel\"}\n\ndata: {\"type\":\"token\",\"text\":\"lo\"}\n\ndata: {\"type\":\"done\"}\n\n";
    let mut whole = InFlightRequest::new(1);
    whole.process_stream_data(stream, false);
    assert_eq!(whole.text, "Hello");
    assert!(whole.saw_done);
    assert_eq!(whole.sse_buffer, "");

    for cut in 0..stream.len() {
        let mut split = InFlightRequest::new(1);
        split.process_stream_data(&stream[..cut], false);
        split.process_stream_data(&stream[cut..], false);
        assert_eq!(split.text, "Hello");
        assert!(split.saw_done);
        assert_eq!(split.sse_buffer, "");
    }

    let mut partial = InFlightRequest::new(2);
    partial.process_stream_data("data: {\"type\":\"token\",\"text\":\"x\"}\n", false);
    assert_eq!(partial.text, "");
    assert_eq!(partial.sse_buffer, "data: {\"type\":\"token\",\"text\":\"x\"}\n");
    partial.process_stream_data("", true);
    assert!(partial.saw_done);
    assert_eq!(partial.text, "");
}

#[test]
fn a_finished_stream_yields_delta_then_complete() {
    let mut b = backend("http://h", None);
    b.send_request(5, &AiRequest { messages: vec![user("x")] });
    let events = b.handle_event(&vec![
        NetworkResponse::HttpStreamChunk {
            request_id: 5,
            body: Some("data: {\"type\":\"token\",\"text\":\"Hi\"}\n\n".to_string()),
        },
        NetworkResponse::HttpStreamChunk { request_id: 99, body: Some("data: junk\n\n".to_string()) },
        NetworkResponse::HttpProgress { request_id: 5 },
        NetworkResponse::WebSocket,
        NetworkResponse::HttpStreamComplete { request_id: 5 },
        NetworkResponse::HttpStreamComplete { request_id: 5 },
    ]);
    assert_eq!(events.len(), 2);
    assert_eq!(events[0], AiEvent::StreamDelta { request_id: 5, text: "Hi".to_string() });
    match &events[1] {
        AiEvent::Complete { request_id, response } => {
            assert_eq!(*request_id, 5);
            assert_eq!(response.message.role, MessageRole::Assistant);
            assert_eq!(response.message.content, vec![ContentBlock::Text { text: "Hi".to_string() }]);
            assert_eq!(response.stop_reason, StopReason::EndTurn);
        }
        other => panic!("{other:?}"),
    }
    assert!(b.in_flight.is_empty());
}

#[test]
fn empty_replies_complete_without_a_delta_and_errors_fail_the_request() {
    let mut b = backend("http://h", None);
    b.send_request(1, &AiRequest { messages: vec![] });
    b.send_request(2, &AiRequest { messages: vec![] });
    let events = b.handle_event(&vec![
        NetworkResponse::HttpStreamComplete { request_id: 1 },
        NetworkResponse::HttpError { request_id: 2, message: "boom".to_string() },
        NetworkResponse::HttpError { request_id: 2, message: "again".to_string() },
    ]);
    assert_eq!(events.len(), 2);
    match &events[0] {
        AiEvent::Complete { request_id: 1, response } => assert!(response.message.content.is_empty()),
        other => panic!("{other:?}"),
    }
    assert_eq!(events[1], AiEvent::Error { request_id: 2, error: "boom".to_string() });
    assert!(b.in_flight.is_empty());
}

#[test]
fn whole_bodies_are_taken_in_and_mark_the_turn_done() {
    let mut b = backend("http://h", None);
    b.send_request(3, &AiRequest { messages: vec![] });
    let events = b.handle_response(&NetworkResponse::HttpResponse {
        request_id: 3,
        body: Some("data: {\"type\":\"replace\",\"text\":\"all\"}\n\n".to_string()),
    });
    assert!(events.is_empty());
    assert_eq!(b.in_flight[0].text, "all");
    assert!(b.in_flight[0].saw_done);
}
