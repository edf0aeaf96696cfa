use makepad_platform::ids::LiveId;
use makepad_platform::oh_network::{flatten_headers, parse_flat_headers, OhHttpEvent, OhosNetworkBackend};
use makepad_platform::ohos_backend::{NetworkError, PlatformBackendSlot};

fn h(k: &str, vs: &[&str]) -> (String, Vec<String>) {
    (k.to_string(), vs.iter().map(|v| v.to_string()).collect())
}

#[test]
fn flat_headers_parse_into_sorted_lowercase_keys() {
    let parsed = parse_flat_headers("Content-Type\ntext/plain\nX-B\n1\n\nskipped\nx-b\n2\nAccept\n*/*\n");
    assert_eq!(parsed, vec![h("accept", &["*/*"]), h("content-type", &["text/plain"]), h("x-b", &["1", "2"])]);
    assert_eq!(parse_flat_headers(""), vec![]);
    assert_eq!(parse_flat_headers("lonely-key"), vec![]);
    assert_eq!(parse_flat_headers("k\n"), vec![h("k", &[""])]);
}

#[test]
fn headers_flatten_key_value_lines_in_order() {
    let headers = vec![h("accept", &["*/*"]), h("x-b", &["1", "2"])];
    let flat = flatten_headers(&headers);
    assert_eq!(flat, "accept\n*/*\nx-b\n1\nx-b\n2\n");
    assert_eq!(parse_flat_headers(&flat), headers);
    assert_eq!(flatten_headers(&vec![]), "");
}

#[test]
fn streaming_requests_pass_chunks_on_and_complete_without_body() {
    let mut bridge = OhosNetworkBackend::new();
    bridge.http_start(7, LiveId(70), true);
    bridge.handle_http_headers("7", 0, "");
    bridge.handle_http_headers("7", 200, "Server\nark\n");
    bridge.handle_http_headers("7", 0, "");
    match bridge.handle_http_chunk("7", b"abc") {
        Some(OhHttpEvent::StreamChunk { request_id: 7, response }) => {
            assert_eq!(response.metadata_id, LiveId(70));
            assert_eq!(response.status_code, 200);
            assert!(response.headers.is_empty());
            assert_eq!(response.body, Some(b"abc".to_vec()));
        }
        _ => panic!("expected a stream chunk"),
    }
    match bridge.handle_http_complete("7") {
        Some(OhHttpEvent::StreamComplete { request_id: 7, response }) => {
            assert_eq!(response.headers, vec![h("server", &["ark"])]);
            assert_eq!(response.body, None);
        }
        _ => panic!("expected the end of the stream"),
    }
    assert!(bridge.live.is_empty());
    assert!(bridge.handle_http_complete("7").is_none());
}

#[test]
fn plain_requests_gather_their_body() {
    let mut bridge = OhosNetworkBackend::new();
    bridge.http_start(8, LiveId(80), false);
    bridge.handle_http_headers("8", 70000, "");
    assert!(bridge.handle_http_chunk("8", b"he").is_none());
    assert!(bridge.handle_http_chunk("8", b"llo").is_none());
    match bridge.handle_http_complete("8") {
        Some(OhHttpEvent::Response { request_id: 8, response }) => {
            assert_eq!(response.status_code, (70000u32 as u16));
            assert_eq!(response.body, Some(b"hello".to_vec()));
        }
        _ => panic!("expected a response"),
    }
}

#[test]
fn cancelled_and_unknown_requests_are_ignored() {
    let mut bridge = OhosNetworkBackend::new();
    bridge.http_start(9, LiveId(90), true);
    bridge.http_cancel(9);
    assert!(bridge.handle_http_chunk("9", b"late").is_none());
    assert!(bridge.handle_http_error("9", "late".to_string()).is_none());
    assert!(bridge.handle_http_chunk("not-a-number", b"x").is_none());
    bridge.http_start(10, LiveId(100), false);
    match bridge.handle_http_error("10", "boom".to_string()) {
        Some(OhHttpEvent::Error { request_id: 10, message, metadata_id }) => {
            assert_eq!(message, "boom");
            assert_eq!(metadata_id, LiveId(100));
        }
        _ => panic!("expected an error"),
    }
    assert!(bridge.live.is_empty());
}

#[test]
fn platform_backend_slot_reports_missing_registration() {
    let mut slot: PlatformBackendSlot<u32> = PlatformBackendSlot::new();
    assert_eq!(
        slot.platform_backend(),
        Err(NetworkError::Unsupported("OpenHarmony network backend not registered by makepad-platform"))
    );
    slot.register_platform_backend(5);
    assert_eq!(slot.platform_backend(), Ok(&5));
    slot.register_platform_backend(6);
    assert_eq!(slot.platform_backend(), Ok(&6));
    slot.clear_platform_backend();
    assert!(slot.platform_backend().is_err());
}

#[test]
fn flat_headers_read_back_as_they_were_sent() {
    let headers = vec![
        h("accept", &["*/*", "text/event-stream"]),
        h("authorization", &["Bearer t"]),
        h("x-empty", &[""]),
    ];
    assert_eq!(parse_flat_headers(&flatten_headers(&headers)), headers);
    let upper = vec![h("Accept", &["*/*"])];
    assert_eq!(parse_flat_headers(&flatten_headers(&upper)), vec![h("accept", &["*/*"])]);
    let split = vec![h("x", &["a\nb"])];
    assert_ne!(parse_flat_headers(&flatten_headers(&split)), split);
}
