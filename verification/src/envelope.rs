use vstd::prelude::*;
use crate::json::{json_quote, json_quoted, json_reserialize, json_reserialized};

verus! {

/// What to do with an `agent.notify` event: send a line, or skip it and log why.
#[derive(Debug, Clone, PartialEq, Eq)]
pub enum NotifyEnvelope {
    Send(String),
    Skip { log: String },
}

/// The click line around the JSON string literal `name_json` of a control's name.
pub open spec fn spec_click_envelope(name_json: Seq<char>) -> Seq<char> {
    "{\"type\":\"click\",\"name\":"@ + name_json + "}"@
}

/// The notify line around the JSON literals of the event id and the payload.
pub open spec fn spec_notify_envelope(event_json: Seq<char>, payload_json: Seq<char>) -> Seq<char> {
    "{\"type\":\"notify\",\"event\":"@ + event_json + ",\"payload\":"@ + payload_json + "}"@
}

/// The JSON of a notify payload: the payload itself where it is JSON, else
/// its text as a JSON string.
pub open spec fn notify_payload_json(payload: Seq<char>) -> Seq<char> {
    match json_reserialized(payload) {
        Some(p) => p,
        None => json_quoted(payload),
    }
}

/// The log line of a notify event without an id.
pub open spec fn empty_event_log() -> Seq<char> {
    "[canvas] rejected empty agent.notify event id"@
}

/// The click line, given the JSON string literal of the control's name.
pub fn click_envelope_line(name_json: &str) -> (r: String)
    ensures
        r@ == spec_click_envelope(name_json@),
{
    let mut out = String::new();
    out.append("{\"type\":\"click\",\"name\":");
    out.append(name_json);
    out.append("}");
    out
}

/// The line sent for a click on the control `name`: `{"type":"click","name":...}`.
pub fn click_envelope(name: &str) -> (r: String)
    ensures
        r@ == spec_click_envelope(json_quoted(name@)),
{
    let quoted = json_quote(name);
    click_envelope_line(quoted.as_str())
}

/// The notify line, given the JSON literals of the event id and the payload.
pub fn notify_envelope_line(event_json: &str, payload_json: &str) -> (r: String)
    ensures
        r@ == spec_notify_envelope(event_json@, payload_json@),
{
    let mut out = String::new();
    out.append("{\"type\":\"notify\",\"event\":");
    out.append(event_json);
    out.append(",\"payload\":");
    out.append(payload_json);
    out.append("}");
    out
}

/// The envelope of an `agent.notify` event: skipped with a log line when the
/// event id is empty; otherwise a notify line whose payload is the payload's
/// JSON, or the payload as a JSON string where it is not JSON.
pub fn notify_envelope(event_id: &str, payload: &str) -> (r: NotifyEnvelope)
    ensures
        event_id@.len() == 0 ==> (r matches NotifyEnvelope::Skip { log } && log@ == empty_event_log()),
        event_id@.len() > 0 ==> (r matches NotifyEnvelope::Send(line)
            && line@ == spec_notify_envelope(json_quoted(event_id@), notify_payload_json(payload@))),
{
    if event_id.is_empty() {
        return NotifyEnvelope::Skip { log: "[canvas] rejected empty agent.notify event id".to_owned() };
    }
    let payload_json = match json_reserialize(payload) {
        Some(p) => p,
        None => json_quote(payload),
    };
    let event_json = json_quote(event_id);
    NotifyEnvelope::Send(notify_envelope_line(event_json.as_str(), payload_json.as_str()))
}

} // verus!
