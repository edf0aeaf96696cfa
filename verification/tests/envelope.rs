use makepad_platform::envelope::{
    click_envelope, click_envelope_line, notify_envelope, notify_envelope_line, NotifyEnvelope,
};
use serde_json::Value;

#[test]
fn test_notify_action_produces_notify_envelope() {
    let NotifyEnvelope::Send(line) = notify_envelope("inc", "{}") else {
        panic!("notify event should produce an envelope");
    };
    let parsed: Value = serde_json::from_str(&line).expect("envelope should be valid JSON");

    assert_eq!(parsed["type"], "notify");
    assert_eq!(parsed["event"], "inc");
    assert_eq!(parsed["payload"], Value::Object(serde_json::Map::new()));
}

#[test]
fn test_button_click_produces_click_envelope() {
    let line = click_envelope("start");

    assert_eq!(line, r#"{"type":"click","name":"start"}"#);
    assert_ne!(line, "start");
}

#[test]
fn test_invalid_payload_is_wrapped_as_string() {
    let raw = "{not valid json";
    let NotifyEnvelope::Send(line) = notify_envelope("inc", raw) else {
        panic!("malformed payload should still produce an envelope");
    };
    let parsed: Value = serde_json::from_str(&line).expect("envelope should be valid JSON");

    assert_eq!(parsed["type"], "notify");
    assert_eq!(parsed["event"], "inc");
    assert_eq!(parsed["payload"], Value::String(raw.to_string()));
}

#[test]
fn test_empty_event_id_is_logged_and_skipped() {
    let NotifyEnvelope::Skip { log } = notify_envelope("", "{}") else {
        panic!("empty event id should be skipped");
    };

    assert!(log.contains("rejected empty agent.notify event id"));
}

#[test]
fn envelope_lines_frame_their_json() {
    assert_eq!(click_envelope_line("\"a\""), r#"{"type":"click","name":"a"}"#);
    assert_eq!(notify_envelope_line("\"e\"", "[1]"), r#"{"type":"notify","event":"e","payload":[1]}"#);
}

#[test]
fn names_and_payloads_are_escaped_and_compacted() {
    assert_eq!(click_envelope("say \"hi\"\n"), r#"{"type":"click","name":"say \"hi\"\n"}"#);
    assert_eq!(click_envelope("\u{1}"), "{\"type\":\"click\",\"name\":\"\\u0001\"}");
    assert_eq!(
        notify_envelope("e", " { \"a\" : [ 1 , 2 ] } "),
        NotifyEnvelope::Send(r#"{"type":"notify","event":"e","payload":{"a":[1,2]}}"#.to_string())
    );
    assert_eq!(
        notify_envelope("e", "plain"),
        NotifyEnvelope::Send(r#"{"type":"notify","event":"e","payload":"plain"}"#.to_string())
    );
}
