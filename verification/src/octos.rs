use vstd::prelude::*;
use vstd::utf8::{decode_utf8, encode_utf8, valid_utf8};
use std::time::Duration;
use crate::json::{json_quote, json_quoted, json_str_member, json_string_member};
use crate::text::{
    chars_of, contains_seq, decimal_digits, decimal_string, ends_with, range_ends_with, range_starts_with,
    starts_with, str_contains, str_equal, string_of_range, sub_vec, trim, trim_bounds, trim_end_char,
    trim_end_char_bound,
};

verus! {

/// The environment variable that overrides the octos base URL.
pub const OCTOS_URL_ENV: &'static str = "MAKEPAD_OCTOS_URL";

/// The environment variable that holds an optional bearer token.
pub const OCTOS_TOKEN_ENV: &'static str = "MAKEPAD_OCTOS_TOKEN";

/// The largest reply body accepted from the host.
pub const MAX_OCTOS_RESPONSE_BODY: usize = 8 * 1024 * 1024;

/// The largest request body sent to the host.
pub const MAX_OCTOS_REQUEST_BODY: usize = 1024 * 1024;

/// The model name reported for the octos provider.
pub const OCTOS_MODEL_LABEL: &'static str = "octos";

/// The longest session id accepted, in bytes.
pub const MAX_SESSION_ID_BYTES: usize = 128;

/// `Duration` is `Copy`: its `clone` gives back the same duration.
pub assume_specification[ <std::time::Duration as std::clone::Clone>::clone ](d: &std::time::Duration) -> (r: std::time::Duration)
    ensures
        r == *d,
;

/// How long one turn may take by default, in seconds: agent turns can run
/// tools before answering.
pub const DEFAULT_OCTOS_TIMEOUT_SECS: u64 = 300;

/// The duration of `secs` whole seconds.
pub uninterp spec fn seconds(secs: u64) -> Duration;

/// `Duration::from_secs`: the duration of `secs` whole seconds.
#[verifier::external_body]
fn duration_from_secs(secs: u64) -> (r: Duration)
    ensures
        r == seconds(secs),
{
    Duration::from_secs(secs)
}

/// Milliseconds since the Unix epoch by the system clock (0 where the clock
/// is before the epoch); nothing is claimed of the value.
#[verifier::external_body]
fn unix_time_millis() -> u128 {
    match std::time::SystemTime::now().duration_since(std::time::UNIX_EPOCH) {
        Ok(elapsed) => elapsed.as_millis(),
        Err(_) => 0,
    }
}

/// The session ids made at the time `millis` (in milliseconds since the Unix epoch).
pub open spec fn session_id_at(millis: nat) -> Seq<char> {
    "aichat-"@ + decimal_digits(millis)
}

/// Whether `s` is a session id made at some time.
pub open spec fn is_fresh_session_id(s: Seq<char>) -> bool {
    exists|millis: nat| s == session_id_at(millis)
}

/// A session id for a new configuration: `aichat-` and the current time in
/// milliseconds.
pub(crate) fn fresh_session_id() -> (r: String)
    ensures
        is_fresh_session_id(r@),
{
    let mut id = String::new();
    id.append("aichat-");
    let now = unix_time_millis();
    let millis = decimal_string(now);
    id.append(millis.as_str());
    proof {
        reveal_strlit("aichat-");
        assert(id@ == session_id_at(now as nat));
    }
    id
}

/// What a base URL gives: the `/chat` endpoint, or the error text. The URL
/// is trimmed; it must be non-empty and start with `http://` or `https://`;
/// `/chat` is kept where it ends the URL and appended, after the trailing
/// slashes are dropped, where it does not.
pub open spec fn octos_endpoint(base_url: Seq<char>) -> Result<Seq<char>, Seq<char>> {
    let t = trim(base_url);
    if t.len() == 0 {
        Err("octos url is empty"@)
    } else if !(starts_with(t, "http://"@) || starts_with(t, "https://"@)) {
        Err("octos url must start with http:// or https://"@)
    } else if ends_with(t, "/chat"@) {
        Ok(t)
    } else {
        Ok(trim_end_char(t, '/') + "/chat"@)
    }
}

/// Whether `session_id` may name an octos session: non-empty and at most
/// [`MAX_SESSION_ID_BYTES`] bytes of UTF-8.
pub open spec fn valid_session_id(session_id: Seq<char>) -> bool {
    session_id.len() > 0 && utf8_len(session_id) <= MAX_SESSION_ID_BYTES
}

/// How many bytes the UTF-8 encoding of `c` takes.
pub open spec fn utf8_char_len(c: char) -> nat {
    if (c as u32) < 0x80 {
        1
    } else if (c as u32) < 0x800 {
        2
    } else if (c as u32) < 0x10000 {
        3
    } else {
        4
    }
}

/// How many bytes the UTF-8 encoding of `s` takes (what `str::len` returns).
pub open spec fn utf8_len(s: Seq<char>) -> nat
    decreases s.len(),
{
    if s.len() == 0 {
        0
    } else {
        utf8_len(s.drop_last()) + utf8_char_len(s.last())
    }
}

proof fn lemma_utf8_len_prefix(s: Seq<char>, i: int)
    requires
        0 <= i <= s.len(),
    ensures
        utf8_len(s.subrange(0, i)) <= utf8_len(s),
    decreases s.len(),
{
    if i < s.len() {
        assert(s.drop_last().subrange(0, i) =~= s.subrange(0, i));
        lemma_utf8_len_prefix(s.drop_last(), i);
    } else {
        assert(s.subrange(0, i) =~= s);
    }
}

/// Whether `s` takes at most `limit` bytes of UTF-8.
fn utf8_len_at_most(s: &str, limit: usize) -> (r: bool)
    ensures
        r == (utf8_len(s@) <= limit),
{
    let chars = chars_of(s);
    let mut total: usize = 0;
    let mut i: usize = 0;
    while i < chars.len()
        invariant
            chars@ == s@,
            i <= chars@.len(),
            total == utf8_len(chars@.subrange(0, i as int)),
            total <= limit,
        decreases chars@.len() - i,
    {
        let c = chars[i];
        let w: usize = if (c as u32) < 0x80 {
            1
        } else if (c as u32) < 0x800 {
            2
        } else if (c as u32) < 0x10000 {
            3
        } else {
            4
        };
        proof {
            assert(chars@.subrange(0, i as int + 1).drop_last() =~= chars@.subrange(0, i as int));
            assert(chars@.subrange(0, i as int + 1).last() == c);
            assert(w == utf8_char_len(c));
            assert(utf8_len(chars@.subrange(0, i as int + 1)) == total + w);
        }
        if w > limit - total {
            proof {
                lemma_utf8_len_prefix(chars@, i as int + 1);
            }
            return false;
        }
        total = total + w;
        i = i + 1;
    }
    assert(chars@.subrange(0, chars@.len() as int) =~= chars@);
    true
}

/// Whether `token` is worth sending: it has a character that is not white space.
pub open spec fn nonblank(token: Seq<char>) -> bool {
    trim(token).len() > 0
}

/// Where the octos host is and how to talk to it.
#[derive(Clone)]
pub struct OctosConfig {
    endpoint: String,
    auth_token: Option<String>,
    request_timeout: Duration,
    session_id: String,
}

impl OctosConfig {
    /// The `/chat` endpoint.
    pub closed spec fn spec_endpoint(&self) -> Seq<char> {
        self.endpoint@
    }

    /// The bearer token, if any.
    pub closed spec fn spec_auth_token(&self) -> Option<Seq<char>> {
        match self.auth_token {
            Some(t) => Some(t@),
            None => None,
        }
    }

    /// The session id.
    pub closed spec fn spec_session_id(&self) -> Seq<char> {
        self.session_id@
    }

    /// How long one turn may take.
    pub closed spec fn spec_request_timeout(&self) -> Duration {
        self.request_timeout
    }

    /// A configuration for the host at `base_url` (`http://host:port` or
    /// `http://host:port/chat`) in the session `session_id`, with no token
    /// and the default timeout.
    pub fn new_in_session(base_url: &str, session_id: String) -> (r: Result<Self, String>)
        ensures
            match r {
                Ok(c) => {
                    &&& octos_endpoint(base_url@) == Ok::<Seq<char>, Seq<char>>(c.spec_endpoint())
                    &&& c.spec_auth_token() is None
                    &&& c.spec_session_id() == session_id@
                    &&& c.spec_request_timeout() == seconds(DEFAULT_OCTOS_TIMEOUT_SECS)
                },
                Err(e) => octos_endpoint(base_url@) == Err::<Seq<char>, Seq<char>>(e@),
            },
    {
        proof {
            reveal_strlit("http://");
            reveal_strlit("https://");
            reveal_strlit("/chat");
        }
        let chars = chars_of(base_url);
        let (a, b) = trim_bounds(&chars);
        if a == b {
            return Err("octos url is empty".to_owned());
        }
        let http = chars_of("http://");
        let https = chars_of("https://");
        if !(range_starts_with(&chars, a, b, &http) || range_starts_with(&chars, a, b, &https)) {
            return Err("octos url must start with http:// or https://".to_owned());
        }
        let chat = chars_of("/chat");
        let endpoint = if range_ends_with(&chars, a, b, &chat) {
            string_of_range(&chars, a, b)
        } else {
            let e = trim_end_char_bound(&chars, a, b, '/');
            let mut s = string_of_range(&chars, a, e);
            s.append("/chat");
            s
        };
        Ok(OctosConfig { endpoint, auth_token: None, request_timeout: duration_from_secs(DEFAULT_OCTOS_TIMEOUT_SECS), session_id })
    }

    /// A configuration for the host at `base_url` (`http://host:port` or
    /// `http://host:port/chat`), with no token, the default timeout and a
    /// fresh session id.
    pub fn new(base_url: &str) -> (r: Result<Self, String>)
        ensures
            match r {
                Ok(c) => {
                    &&& octos_endpoint(base_url@) == Ok::<Seq<char>, Seq<char>>(c.spec_endpoint())
                    &&& c.spec_auth_token() is None
                    &&& is_fresh_session_id(c.spec_session_id())
                    &&& c.spec_request_timeout() == seconds(DEFAULT_OCTOS_TIMEOUT_SECS)
                },
                Err(e) => octos_endpoint(base_url@) == Err::<Seq<char>, Seq<char>>(e@),
            },
    {
        OctosConfig::new_in_session(base_url, fresh_session_id())
    }

    /// The configuration that the environment describes: the URL variable
    /// where it is set and not blank, else `default_url`; the token variable
    /// where it is set and not blank.
    pub fn from_env_values(url_var: Option<String>, token_var: Option<String>, default_url: &str) -> (r: Result<
        Self,
        String,
    >)
        ensures
            ({
                let url = match url_var {
                    Some(u) => if nonblank(u@) { u@ } else { default_url@ },
                    None => default_url@,
                };
                match r {
                    Ok(c) => {
                        &&& octos_endpoint(url) == Ok::<Seq<char>, Seq<char>>(c.spec_endpoint())
                        &&& c.spec_auth_token() == match token_var {
                            Some(t) => if nonblank(t@) { Some(t@) } else { None },
                            None => None,
                        }
                        &&& is_fresh_session_id(c.spec_session_id())
                        &&& c.spec_request_timeout() == seconds(DEFAULT_OCTOS_TIMEOUT_SECS)
                    },
                    Err(e) => octos_endpoint(url) == Err::<Seq<char>, Seq<char>>(e@),
                }
            }),
    {
        let url = match url_var {
            Some(u) => if is_nonblank(u.as_str()) {
                u
            } else {
                default_url.to_owned()
            },
            None => default_url.to_owned(),
        };
        let config = match OctosConfig::new(url.as_str()) {
            Ok(c) => c,
            Err(e) => return Err(e),
        };
        Ok(config.with_auth_token(token_var))
    }

    /// The token, where it is given and not blank; no token otherwise.
    pub fn with_auth_token(self, token: Option<String>) -> (r: Self)
        ensures
            r.spec_endpoint() == self.spec_endpoint(),
            r.spec_session_id() == self.spec_session_id(),
            r.spec_request_timeout() == self.spec_request_timeout(),
            r.spec_auth_token() == match token {
                Some(t) => if nonblank(t@) { Some(t@) } else { None },
                None => None,
            },
    {
        let mut r = self;
        r.auth_token = match token {
            Some(t) => if is_nonblank(t.as_str()) {
                Some(t)
            } else {
                None
            },
            None => None,
        };
        r
    }

    /// The time one turn may take.
    pub fn with_request_timeout(self, timeout: Duration) -> (r: Self)
        ensures
            r.spec_endpoint() == self.spec_endpoint(),
            r.spec_session_id() == self.spec_session_id(),
            r.spec_auth_token() == self.spec_auth_token(),
            r.spec_request_timeout() == timeout,
    {
        let mut r = self;
        r.request_timeout = timeout;
        r
    }

    /// Pins the session id where it is non-empty and at most 128 bytes;
    /// keeps the current one otherwise.
    pub fn with_session_id(self, session_id: &str) -> (r: Self)
        ensures
            r.spec_endpoint() == self.spec_endpoint(),
            r.spec_auth_token() == self.spec_auth_token(),
            r.spec_request_timeout() == self.spec_request_timeout(),
            r.spec_session_id() == if valid_session_id(session_id@) {
                session_id@
            } else {
                self.spec_session_id()
            },
    {
        let mut r = self;
        if !session_id.is_empty() && utf8_len_at_most(session_id, MAX_SESSION_ID_BYTES) {
            r.session_id = session_id.to_owned();
        }
        r
    }

    /// The `/chat` endpoint.
    pub fn endpoint(&self) -> (r: &str)
        ensures
            r@ == self.spec_endpoint(),
    {
        self.endpoint.as_str()
    }

    /// The session id.
    pub fn session_id(&self) -> (r: &str)
        ensures
            r@ == self.spec_session_id(),
    {
        self.session_id.as_str()
    }

    /// The bearer token, if any.
    pub fn auth_token(&self) -> (r: Option<&str>)
        ensures
            r is Some <==> self.spec_auth_token() is Some,
            r matches Some(t) ==> self.spec_auth_token() == Some(t@),
    {
        match &self.auth_token {
            Some(t) => Some(t.as_str()),
            None => None,
        }
    }

    /// How long one turn may take.
    pub fn request_timeout(&self) -> (r: Duration)
        ensures
            r == self.spec_request_timeout(),
    {
        self.request_timeout
    }
}

/// Whether `s` has a character that is not white space.
pub(crate) fn is_nonblank(s: &str) -> (r: bool)
    ensures
        r == nonblank(s@),
{
    let chars = chars_of(s);
    let (a, b) = trim_bounds(&chars);
    a < b
}

/// The status and body of one HTTP reply.
pub struct OctosRawHttp {
    pub status: u16,
    pub body: Vec<u8>,
}

/// The blocking HTTP client of the platform, as the octos transport.
pub struct BlockingOctosTransport;

// ------------------------------------------------------------------ parsing

/// What one completed octos reply said.
#[derive(Clone, Debug, PartialEq, Eq)]
pub struct ParsedOctosStream {
    /// The assistant text after the last `replace` or `token` frame.
    pub text: String,
    /// Whether a `done` frame arrived.
    pub saw_done: bool,
}

impl Default for ParsedOctosStream {
    fn default() -> (r: Self)
        ensures
            r.text@.len() == 0,
            !r.saw_done,
    {
        ParsedOctosStream { text: String::new(), saw_done: false }
    }
}

/// The text and `done` flag after one frame of type `kind` carrying `text`:
/// `replace` sets the text, `token` appends to it, `done` sets the flag, and
/// anything else (or a frame without its text) changes nothing.
pub open spec fn octos_step(
    state: (Seq<char>, bool),
    kind: Option<Seq<char>>,
    text: Option<Seq<char>>,
) -> (Seq<char>, bool) {
    match kind {
        Some(k) => if k == "replace"@ {
            match text {
                Some(t) => (t, state.1),
                None => state,
            }
        } else if k == "token"@ {
            match text {
                Some(t) => (state.0 + t, state.1),
                None => state,
            }
        } else if k == "done"@ {
            (state.0, true)
        } else {
            state
        },
        None => state,
    }
}

/// The characters of an optional string.
pub open spec fn opt_chars(s: Option<&str>) -> Option<Seq<char>> {
    match s {
        Some(t) => Some(t@),
        None => None,
    }
}

impl ParsedOctosStream {
    /// Applies one frame of type `kind` carrying `text` (see [`octos_step`]).
    pub fn apply_frame(&mut self, kind: Option<&str>, text: Option<&str>)
        ensures
            (final(self).text@, final(self).saw_done) == octos_step(
                (old(self).text@, old(self).saw_done),
                opt_chars(kind),
                opt_chars(text),
            ),
    {
        proof {
            reveal_strlit("replace");
            reveal_strlit("token");
            reveal_strlit("done");
        }
        match kind {
            Some(k) => {
                if str_equal(k, "replace") {
                    if let Some(t) = text {
                        self.text = t.to_owned();
                    }
                } else if str_equal(k, "token") {
                    if let Some(t) = text {
                        self.text.append(t);
                    }
                } else if str_equal(k, "done") {
                    self.saw_done = true;
                }
            },
            None => {},
        }
    }
}

/// The lines of `s` split at every `\n`, the last one still open.
pub open spec fn line_state(s: Seq<char>) -> (Seq<Seq<char>>, Seq<char>)
    decreases s.len(),
{
    if s.len() == 0 {
        (seq![], seq![])
    } else {
        let prev = line_state(s.drop_last());
        if s.last() == '\n' {
            (prev.0.push(prev.1), seq![])
        } else {
            (prev.0, prev.1.push(s.last()))
        }
    }
}

/// The pieces of `s` between the `\n` characters.
pub open spec fn split_lines(s: Seq<char>) -> Seq<Seq<char>> {
    line_state(s).0.push(line_state(s).1)
}

/// The payload of a `data:` line: the trimmed line without `data:`, trimmed
/// again, where that is not empty.
pub open spec fn data_payload(line: Seq<char>) -> Option<Seq<char>> {
    let t = trim(line);
    if starts_with(t, "data:"@) && trim(t.subrange(5, t.len() as int)).len() > 0 {
        Some(trim(t.subrange(5, t.len() as int)))
    } else {
        None
    }
}

/// The text and `done` flag after the frames of `lines`, in order; each
/// `data:` payload is read as JSON for its `type` and `text`.
pub open spec fn octos_fold(lines: Seq<Seq<char>>) -> (Seq<char>, bool)
    decreases lines.len(),
{
    if lines.len() == 0 {
        (seq![], false)
    } else {
        let prev = octos_fold(lines.drop_last());
        match data_payload(lines.last()) {
            Some(p) => octos_step(prev, json_string_member(p, "type"@), json_string_member(p, "text"@)),
            None => prev,
        }
    }
}

/// The characters of `bytes` read as UTF-8, each invalid sequence replaced
/// by U+FFFD.
pub uninterp spec fn utf8_lossy(bytes: Seq<u8>) -> Seq<char>;

/// `String::from_utf8_lossy`: the text of `bytes`, invalid sequences
/// replaced by U+FFFD; valid UTF-8 is decoded as it is.
#[verifier::external_body]
fn decode_utf8_lossy(bytes: &[u8]) -> (r: String)
    ensures
        r@ == utf8_lossy(bytes@),
        valid_utf8(bytes@) ==> r@ == decode_utf8(bytes@),
{
    String::from_utf8_lossy(bytes).into_owned()
}

/// Applies the `data:` line `v[from..to]`, if it is one, to `parsed`.
fn apply_line(parsed: &mut ParsedOctosStream, v: &Vec<char>, from: usize, to: usize)
    requires
        from <= to <= v@.len(),
    ensures
        (final(parsed).text@, final(parsed).saw_done) == match data_payload(v@.subrange(from as int, to as int)) {
            Some(p) => octos_step(
                (old(parsed).text@, old(parsed).saw_done),
                json_string_member(p, "type"@),
                json_string_member(p, "text"@),
            ),
            None => (old(parsed).text@, old(parsed).saw_done),
        },
{
    proof {
        reveal_strlit("data:");
    }
    let line = sub_vec(v, from, to);
    let (a, b) = trim_bounds(&line);
    let data = chars_of("data:");
    if !range_starts_with(&line, a, b, &data) {
        return;
    }
    let rest = sub_vec(&line, a + 5, b);
    let (c, d) = trim_bounds(&rest);
    proof {
        let t = trim(line@);
        assert(t == line@.subrange(a as int, b as int));
        assert(t.subrange(5, t.len() as int) =~= rest@);
    }
    if c == d {
        return;
    }
    let payload = string_of_range(&rest, c, d);
    let kind = json_str_member(payload.as_str(), "type");
    let text = json_str_member(payload.as_str(), "text");
    let kind_ref: Option<&str> = match &kind {
        Some(k) => Some(k.as_str()),
        None => None,
    };
    let text_ref: Option<&str> = match &text {
        Some(t) => Some(t.as_str()),
        None => None,
    };
    parsed.apply_frame(kind_ref, text_ref);
}

/// Parses a complete octos reply body: its lines are read as UTF-8 (invalid
/// sequences replaced), and each `data:` line is applied in order; lines that
/// are not `data:` lines, and payloads that are not JSON, change nothing.
pub fn parse_octos_stream(bytes: &[u8]) -> (r: ParsedOctosStream)
    ensures
        (r.text@, r.saw_done) == octos_fold(split_lines(utf8_lossy(bytes@))),
{
    let body = decode_utf8_lossy(bytes);
    let chars = chars_of(body.as_str());
    let mut parsed = ParsedOctosStream { text: String::new(), saw_done: false };
    let mut start: usize = 0;
    let mut i: usize = 0;
    while i < chars.len()
        invariant
            start <= i <= chars@.len(),
            line_state(chars@.subrange(0, i as int)).1 == chars@.subrange(start as int, i as int),
            (parsed.text@, parsed.saw_done) == octos_fold(line_state(chars@.subrange(0, i as int)).0),
        decreases chars@.len() - i,
    {
        proof {
            assert(chars@.subrange(0, i as int + 1).drop_last() =~= chars@.subrange(0, i as int));
        }
        if chars[i] == '\n' {
            apply_line(&mut parsed, &chars, start, i);
            proof {
                let done = line_state(chars@.subrange(0, i as int)).0;
                let cur = chars@.subrange(start as int, i as int);
                assert(done.push(cur).drop_last() =~= done);
            }
            start = i + 1;
            assert(chars@.subrange(start as int, i as int + 1) =~= seq![]);
        } else {
            assert(chars@.subrange(start as int, i as int + 1) =~= chars@.subrange(start as int, i as int).push(
                chars@[i as int],
            ));
        }
        i = i + 1;
    }
    apply_line(&mut parsed, &chars, start, chars.len());
    proof {
        let s = chars@.subrange(0, chars@.len() as int);
        assert(s =~= chars@);
        let done = line_state(s).0;
        assert(split_lines(chars@).drop_last() =~= done);
    }
    parsed
}

// ------------------------------------------------------------------ turns

/// Who said a chat message.
#[derive(Clone, Copy, Debug, PartialEq, Eq, Structural)]
pub enum ChatRole {
    User,
    Assistant,
}

/// One message of a conversation.
#[derive(Clone, Debug, PartialEq, Eq)]
pub struct ChatMessage {
    pub role: ChatRole,
    pub text: String,
}

impl ChatMessage {
    /// A message of `role` with the text `text`.
    pub fn new(role: ChatRole, text: &str) -> (r: Self)
        ensures
            r.role == role,
            r.text@ == text@,
    {
        ChatMessage { role, text: text.to_owned() }
    }
}

/// What one turn sends to a provider: the system block and the conversation.
#[derive(Clone, Debug, PartialEq, Eq)]
pub struct TurnInput {
    pub system: String,
    pub messages: Vec<ChatMessage>,
}

impl TurnInput {
    /// A turn with the system block `system` and the conversation `messages`.
    pub fn new(system: &str, messages: Vec<ChatMessage>) -> (r: Self)
        ensures
            r.system@ == system@,
            r.messages@ == messages@,
    {
        TurnInput { system: system.to_owned(), messages }
    }
}

/// Whether `m` is a user message with some text that is not white space.
pub open spec fn is_user_request(m: ChatMessage) -> bool {
    m.role == ChatRole::User && nonblank(m.text@)
}

/// The text of the latest user message of `messages` that is not blank.
pub open spec fn latest_user_request(messages: Seq<ChatMessage>) -> Option<Seq<char>>
    decreases messages.len(),
{
    if messages.len() == 0 {
        None
    } else if is_user_request(messages.last()) {
        Some(messages.last().text@)
    } else {
        latest_user_request(messages.drop_last())
    }
}

/// The message a turn sends: the latest user request, headed by the system
/// block where that is not blank; `None` without a user request.
pub open spec fn spec_fold_turn_message(system: Seq<char>, messages: Seq<ChatMessage>) -> Option<Seq<char>> {
    match latest_user_request(messages) {
        Some(user) => Some(
            if nonblank(system) {
                system + "\n\nUSER REQUEST:\n"@ + user
            } else {
                user
            },
        ),
        None => None,
    }
}

/// The single message a turn sends: the latest user text, headed by the
/// system block (octos has nowhere else to put it). `None` when the turn
/// carries no user message.
pub fn fold_turn_message(input: &TurnInput) -> (r: Option<String>)
    ensures
        match r {
            Some(m) => spec_fold_turn_message(input.system@, input.messages@) == Some(m@),
            None => spec_fold_turn_message(input.system@, input.messages@) is None,
        },
{
    let msgs = &input.messages;
    let mut i: usize = msgs.len();
    assert(msgs@.subrange(0, msgs@.len() as int) =~= msgs@);
    while i > 0
        invariant
            msgs@ == input.messages@,
            i <= msgs@.len(),
            latest_user_request(msgs@) == latest_user_request(msgs@.subrange(0, i as int)),
        decreases i,
    {
        proof {
            assert(msgs@.subrange(0, i as int).drop_last() =~= msgs@.subrange(0, i as int - 1));
        }
        let m = &msgs[i - 1];
        assert(msgs@.subrange(0, i as int).last() == *m);
        if m.role == ChatRole::User && is_nonblank(m.text.as_str()) {
            assert(is_user_request(*m));
            assert(latest_user_request(msgs@) == Some(m.text@));
            let mut out = String::new();
            if is_nonblank(input.system.as_str()) {
                out.append(input.system.as_str());
                out.append("\n\nUSER REQUEST:\n");
            }
            out.append(m.text.as_str());
            return Some(out);
        }
        i = i - 1;
    }
    None
}

/// The id of the `n`-th thread of the session `session_id`: `{session_id}-t{n}`.
pub open spec fn spec_thread_id(session_id: Seq<char>, n: u64) -> Seq<char> {
    session_id + "-t"@ + decimal_digits(n as nat)
}

/// The id of the `n`-th thread of the session `session_id`.
pub fn thread_id(session_id: &str, n: u64) -> (r: String)
    ensures
        r@ == spec_thread_id(session_id@, n),
{
    let mut out = String::new();
    out.append(session_id);
    out.append("-t");
    let digits = decimal_string(n as u128);
    out.append(digits.as_str());
    out
}

// ------------------------------------------------------------------ provider turns

/// `s` without its trailing copies of `suffix` (what `str::trim_end_matches` gives for a string pattern).
pub open spec fn trim_end_str(s: Seq<char>, suffix: Seq<char>) -> Seq<char>
    decreases s.len(),
{
    if suffix.len() > 0 && ends_with(s, suffix) {
        trim_end_str(s.subrange(0, s.len() - suffix.len()), suffix)
    } else {
        s
    }
}

/// The host that an endpoint names: the endpoint without its trailing `/chat`s.
pub fn endpoint_detail(url: &str) -> (r: String)
    ensures
        r@ == trim_end_str(url@, "/chat"@),
{
    proof {
        reveal_strlit("/chat");
    }
    let chars = chars_of(url);
    let chat = chars_of("/chat");
    let mut end = chars.len();
    assert(chars@.subrange(0, chars@.len() as int) =~= chars@);
    while end >= 5 && range_ends_with(&chars, 0, end, &chat)
        invariant
            chars@ == url@,
            chat@ == "/chat"@,
            end <= chars@.len(),
            trim_end_str(url@, "/chat"@) == trim_end_str(chars@.subrange(0, end as int), "/chat"@),
        decreases end,
    {
        proof {
            reveal_strlit("/chat");
            let t = chars@.subrange(0, end as int);
            assert(t.subrange(0, t.len() - 5) =~= chars@.subrange(0, end - 5));
        }
        end = end - 5;
    }
    proof {
        assert(chars@.subrange(0, chars@.len() as int) =~= chars@);
        let t = chars@.subrange(0, end as int);
        if end < 5 {
            assert(!ends_with(t, "/chat"@));
        }
    }
    string_of_range(&chars, 0, end)
}

/// The JSON body of one turn: the message, the session id and the thread id.
pub open spec fn spec_request_body(message: Seq<char>, session_id: Seq<char>, thread_id: Seq<char>) -> Seq<char> {
    "{\"message\":"@ + json_quoted(message) + ",\"session_id\":"@ + json_quoted(session_id) + ",\"thread_id\":"@
        + json_quoted(thread_id) + "}"@
}

/// The bytes of the JSON body of one turn.
pub fn build_request_body(message: &str, session_id: &str, thread_id: &str) -> (r: Vec<u8>)
    ensures
        r@ == encode_utf8(spec_request_body(message@, session_id@, thread_id@)),
{
    let mut out = String::new();
    out.append("{\"message\":");
    let m = json_quote(message);
    out.append(m.as_str());
    out.append(",\"session_id\":");
    let s = json_quote(session_id);
    out.append(s.as_str());
    out.append(",\"thread_id\":");
    let t = json_quote(thread_id);
    out.append(t.as_str());
    out.append("}");
    vstd::slice::slice_to_vec(out.as_str().as_bytes())
}

/// Everything a worker needs to make one turn's request.
pub struct OctosTurnRequest {
    pub endpoint: String,
    pub auth_token: Option<String>,
    pub body: Vec<u8>,
    pub timeout: Duration,
}

/// The turn bookkeeping of the octos provider: whether a turn is in flight
/// and which thread the next one gets.
pub struct OctosTurnState {
    pub active: bool,
    pub next_thread: u64,
}

/// How one turn's worker ended: the parsed reply, or a public error text.
pub enum WorkerOut {
    Parsed(ParsedOctosStream),
    Failed(String),
}

/// What the provider reports to the chat.
#[derive(Clone, Debug, PartialEq, Eq)]
pub enum ProviderEvent {
    Delta(String),
    Done { text: String },
    Error(String),
}

/// The error of a turn asked for while another is in flight.
pub open spec fn busy_message() -> Seq<char> {
    "a turn is already in flight"@
}

impl OctosTurnState {
    /// No turn in flight, thread 0 next.
    pub fn new() -> (r: Self)
        ensures
            !r.active,
            r.next_thread == 0,
    {
        OctosTurnState { active: false, next_thread: 0 }
    }

    /// Plans the next turn: refused while a turn is in flight, without a
    /// user message, or when the body is over [`MAX_OCTOS_REQUEST_BODY`]
    /// bytes; a planned turn (and one refused for its size) uses up a thread id.
    pub fn begin_turn(&mut self, config: &OctosConfig, input: &TurnInput) -> (r: Result<OctosTurnRequest, String>)
        requires
            old(self).next_thread < u64::MAX,
        ensures
            final(self).active == old(self).active,
            old(self).active ==> (r matches Err(e) && e@ == busy_message() && final(self).next_thread == old(self).next_thread),
            !old(self).active ==> match spec_fold_turn_message(input.system@, input.messages@) {
                None => r matches Err(e) && e@ == "no user message"@ && final(self).next_thread == old(self).next_thread,
                Some(message) => {
                    let body = encode_utf8(spec_request_body(
                        message,
                        config.spec_session_id(),
                        spec_thread_id(config.spec_session_id(), old(self).next_thread),
                    ));
                    &&& final(self).next_thread == old(self).next_thread + 1
                    &&& body.len() > MAX_OCTOS_REQUEST_BODY ==> (r matches Err(e) && e@ == "request body too large"@)
                    &&& body.len() <= MAX_OCTOS_REQUEST_BODY ==> (r matches Ok(t) && t.endpoint@ == config.spec_endpoint()
                        && match t.auth_token {
                            Some(a) => config.spec_auth_token() == Some(a@),
                            None => config.spec_auth_token() is None,
                        } && t.body@ == body && t.timeout == config.spec_request_timeout())
                },
            },
    {
        if self.active {
            return Err("a turn is already in flight".to_owned());
        }
        let message = match fold_turn_message(input) {
            Some(m) => m,
            None => return Err("no user message".to_owned()),
        };
        let thread = thread_id(config.session_id(), self.next_thread);
        self.next_thread = self.next_thread + 1;
        let body = build_request_body(message.as_str(), config.session_id(), thread.as_str());
        if body.len() > MAX_OCTOS_REQUEST_BODY {
            return Err("request body too large".to_owned());
        }
        let auth_token = match config.auth_token() {
            Some(t) => Some(t.to_owned()),
            None => None,
        };
        Ok(OctosTurnRequest { endpoint: config.endpoint().to_owned(), auth_token, body, timeout: config.request_timeout() })
    }

    /// Marks the planned turn as in flight (its worker has started).
    pub fn mark_active(&mut self)
        ensures
            final(self).active,
            final(self).next_thread == old(self).next_thread,
    {
        self.active = true;
    }

    /// Ends the turn in flight with `out`: the reply text as one delta (where
    /// there is any) and then done, or one error.
    pub fn finish_turn(&mut self, out: WorkerOut) -> (r: Vec<ProviderEvent>)
        ensures
            !final(self).active,
            final(self).next_thread == old(self).next_thread,
            match out {
                WorkerOut::Parsed(parsed) => if parsed.text@.len() == 0 {
                    r@.len() == 1 && (r@[0] matches ProviderEvent::Done { text } && text@ == parsed.text@)
                } else {
                    r@.len() == 2 && (r@[0] matches ProviderEvent::Delta(d) && d@ == parsed.text@)
                        && (r@[1] matches ProviderEvent::Done { text } && text@ == parsed.text@)
                },
                WorkerOut::Failed(e) => r@.len() == 1 && (r@[0] matches ProviderEvent::Error(m) && m@ == e@),
            },
    {
        self.active = false;
        let mut events: Vec<ProviderEvent> = Vec::new();
        match out {
            WorkerOut::Parsed(parsed) => {
                if !parsed.text.as_str().is_empty() {
                    events.push(ProviderEvent::Delta(parsed.text.clone()));
                }
                events.push(ProviderEvent::Done { text: parsed.text });
            },
            WorkerOut::Failed(error) => {
                events.push(ProviderEvent::Error(error));
            },
        }
        events
    }

    /// Drops the turn in flight, if any.
    pub fn cancel(&mut self)
        ensures
            !final(self).active,
            final(self).next_thread == old(self).next_thread,
    {
        self.active = false;
    }
}


// ------------------------------------------------------------------ replies

/// What a turn's worker makes of the transport's answer. `Sanitize` holds an
/// error text that is still to pass through the public-error sanitizer of the
/// chat layer before it is shown; `Public` holds one that is shown as it is.
pub enum WorkerVerdict {
    Reply(ParsedOctosStream),
    Public(String),
    Sanitize(String),
}

/// The first `min(len, 160)` bytes of an error body, which its message quotes.
pub open spec fn error_snippet_bytes(body: Seq<u8>) -> Seq<u8> {
    if body.len() <= 160 {
        body
    } else {
        body.subrange(0, 160)
    }
}

/// The message of a reply with a status outside `200..300`: `(to_sanitize, text)`.
pub open spec fn spec_http_status_error(status: u16, body: Seq<u8>) -> (bool, Seq<char>) {
    let snippet = trim(utf8_lossy(error_snippet_bytes(body)));
    let head = "octos returned HTTP "@ + decimal_digits(status as nat);
    if snippet.len() == 0 {
        (false, head)
    } else {
        (true, head + ": "@ + snippet)
    }
}

/// The error of a reply with status `status` and body `body`: the status
/// alone where the first 160 bytes of the body are blank, else the status
/// and that trimmed snippet, to be sanitized.
pub fn http_status_error(status: u16, body: &[u8]) -> (r: WorkerVerdict)
    ensures
        match r {
            WorkerVerdict::Public(m) => !spec_http_status_error(status, body@).0
                && m@ == spec_http_status_error(status, body@).1,
            WorkerVerdict::Sanitize(m) => spec_http_status_error(status, body@).0
                && m@ == spec_http_status_error(status, body@).1,
            WorkerVerdict::Reply(_) => false,
        },
{
    proof {
        reveal_strlit("octos returned HTTP ");
        reveal_strlit(": ");
    }
    let n: usize = if body.len() <= 160 { body.len() } else { 160 };
    let head_bytes = vstd::slice::slice_subrange(body, 0, n);
    proof {
        assert(head_bytes@ =~= error_snippet_bytes(body@));
    }
    let text = decode_utf8_lossy(head_bytes);
    let chars = chars_of(text.as_str());
    let (a, b) = trim_bounds(&chars);
    let mut message = "octos returned HTTP ".to_owned();
    let digits = decimal_string(status as u128);
    message.append(digits.as_str());
    if a == b {
        return WorkerVerdict::Public(message);
    }
    message.append(": ");
    let snippet = string_of_range(&chars, a, b);
    message.append(snippet.as_str());
    WorkerVerdict::Sanitize(message)
}

/// Turns the transport's answer into the turn's outcome: a transport error
/// that quotes the bearer token becomes "provider error" (other transport
/// errors go to the sanitizer), a body over [`MAX_OCTOS_RESPONSE_BODY`] bytes
/// is refused, a status outside `200..300` becomes [`http_status_error`], and
/// any other reply is parsed with [`parse_octos_stream`].
pub fn worker_verdict(response: Result<OctosRawHttp, String>, auth_token: Option<&str>) -> (r: WorkerVerdict)
    ensures
        match response {
            Err(e) => if auth_token matches Some(t) && contains_seq(e@, t@) {
                r matches WorkerVerdict::Public(m) && m@ == "provider error"@
            } else {
                r matches WorkerVerdict::Sanitize(m) && m@ == e@
            },
            Ok(raw) => if raw.body@.len() > MAX_OCTOS_RESPONSE_BODY {
                r matches WorkerVerdict::Public(m) && m@ == "response body too large"@
            } else if !(200 <= raw.status < 300) {
                match r {
                    WorkerVerdict::Public(m) => !spec_http_status_error(raw.status, raw.body@).0
                        && m@ == spec_http_status_error(raw.status, raw.body@).1,
                    WorkerVerdict::Sanitize(m) => spec_http_status_error(raw.status, raw.body@).0
                        && m@ == spec_http_status_error(raw.status, raw.body@).1,
                    WorkerVerdict::Reply(_) => false,
                }
            } else {
                r matches WorkerVerdict::Reply(p) && (p.text@, p.saw_done) == octos_fold(
                    split_lines(utf8_lossy(raw.body@)),
                )
            },
        },
{
    match response {
        Err(error) => {
            let leaks = match auth_token {
                Some(token) => str_contains(error.as_str(), token),
                None => false,
            };
            if leaks {
                WorkerVerdict::Public("provider error".to_owned())
            } else {
                WorkerVerdict::Sanitize(error)
            }
        },
        Ok(raw) => {
            if raw.body.len() > MAX_OCTOS_RESPONSE_BODY {
                WorkerVerdict::Public("response body too large".to_owned())
            } else if raw.status < 200 || raw.status >= 300 {
                http_status_error(raw.status, raw.body.as_slice())
            } else {
                WorkerVerdict::Reply(parse_octos_stream(raw.body.as_slice()))
            }
        },
    }
}

} // verus!
