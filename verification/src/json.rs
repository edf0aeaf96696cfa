use vstd::prelude::*;

verus! {

/// The lower-case hexadecimal digit of `n` (`0 <= n < 16`).
pub open spec fn hex_digit(n: int) -> char {
    if n < 10 {
        (('0' as int) + n) as char
    } else {
        (('a' as int) + n - 10) as char
    }
}

/// How a JSON string literal spells the character `c`: `"` and `\` and the
/// control characters are escaped (the short forms where JSON has one,
/// `\u00xx` otherwise); every other character stands for itself.
pub open spec fn json_escape_char(c: char) -> Seq<char> {
    if c == '"' {
        seq!['\\', '"']
    } else if c == '\\' {
        seq!['\\', '\\']
    } else if c == '\u{8}' {
        seq!['\\', 'b']
    } else if c == '\t' {
        seq!['\\', 't']
    } else if c == '\n' {
        seq!['\\', 'n']
    } else if c == '\u{c}' {
        seq!['\\', 'f']
    } else if c == '\r' {
        seq!['\\', 'r']
    } else if (c as int) < 0x20 {
        seq!['\\', 'u', '0', '0', hex_digit((c as int) / 16), hex_digit((c as int) % 16)]
    } else {
        seq![c]
    }
}

/// The escaped characters of `s`, in order.
pub open spec fn json_escape(s: Seq<char>) -> Seq<char>
    decreases s.len(),
{
    if s.len() == 0 {
        seq![]
    } else {
        json_escape(s.drop_last()) + json_escape_char(s.last())
    }
}

/// The JSON string literal of `s`.
pub open spec fn json_quoted(s: Seq<char>) -> Seq<char> {
    seq!['"'] + json_escape(s) + seq!['"']
}

/// The JSON string literal of `s`, as `serde_json::to_string` writes a `str`:
/// quotes around the characters, with `"`, `\` and the characters below
/// U+0020 escaped as its escape table does.
#[verifier::external_body]
pub(crate) fn json_quote(s: &str) -> (r: String)
    ensures
        r@ == json_quoted(s@),
{
    match serde_json::to_string(s) {
        Ok(quoted) => quoted,
        Err(_) => String::new(),
    }
}

/// The string value of the member `key` of the JSON object `text`: `None`
/// where `text` is not JSON, not an object, lacks the member, or the member
/// is not a string.
pub uninterp spec fn json_string_member(text: Seq<char>, key: Seq<char>) -> Option<Seq<char>>;

/// Parses `text` with `serde_json::from_str` into a `serde_json::Value`,
/// takes the member `key` with `Value::get` and its string with
/// `Value::as_str`; the contract names the result `json_string_member`.
#[verifier::external_body]
pub(crate) fn json_str_member(text: &str, key: &str) -> (r: Option<String>)
    ensures
        match r {
            Some(v) => json_string_member(text@, key@) == Some(v@),
            None => json_string_member(text@, key@) is None,
        },
{
    match serde_json::from_str::<serde_json::Value>(text) {
        Ok(value) => match value.get(key) {
            Some(member) => match member.as_str() {
                Some(s) => Some(s.to_string()),
                None => None,
            },
            None => None,
        },
        Err(_) => None,
    }
}

/// `text` parsed as JSON and written back compactly; `None` where it is not JSON.
pub uninterp spec fn json_reserialized(text: Seq<char>) -> Option<Seq<char>>;

/// Parses `text` with `serde_json::from_str` into a `serde_json::Value` and
/// writes it back with `serde_json::to_string`; the contract names the
/// result `json_reserialized`.
#[verifier::external_body]
pub(crate) fn json_reserialize(text: &str) -> (r: Option<String>)
    ensures
        match r {
            Some(v) => json_reserialized(text@) == Some(v@),
            None => json_reserialized(text@) is None,
        },
{
    match serde_json::from_str::<serde_json::Value>(text) {
        Ok(value) => match serde_json::to_string(&value) {
            Ok(s) => Some(s),
            Err(_) => None,
        },
        Err(_) => None,
    }
}

} // verus!
