use vstd::prelude::*;
use crate::json::hex_digit;
use crate::octos::{data_payload, line_state, octos_step, opt_chars, split_lines};
use crate::octos::{fresh_session_id, is_fresh_session_id, is_nonblank, nonblank, spec_thread_id, thread_id};
use crate::text::{chars_of, ends_with, is_white_space, range_ends_with, range_equals, range_starts_with, starts_with, string_of_range, sub_vec, trim_bounds, trim_end_char, trim_end_char_bound};

verus! {

/// `char::from_u32`: the character with the code `i`, where `i` is a Unicode
/// scalar value (not a surrogate, at most U+10FFFF).
pub assume_specification[ char::from_u32 ](i: u32) -> (r: Option<char>)
    ensures
        r is Some <==> (i < 0xD800 || (0xE000 <= i && i <= 0x10FFFF)),
        r matches Some(c) ==> c == i as char,
;

// ------------------------------------------------------------------ request text

/// Whether `c` is a control character (general category Cc).
pub open spec fn is_control(c: char) -> bool {
    (c as u32) < 0x20 || (0x7f <= (c as u32) && (c as u32) <= 0x9f)
}

/// How a request body spells `c` inside a JSON string.
pub open spec fn escape_char(c: char) -> Seq<char> {
    if c == '"' {
        seq!['\\', '"']
    } else if c == '\\' {
        seq!['\\', '\\']
    } else if c == '\n' {
        seq!['\\', 'n']
    } else if c == '\r' {
        seq!['\\', 'r']
    } else if c == '\t' {
        seq!['\\', 't']
    } else if is_control(c) {
        seq!['\\', 'u', '0', '0', hex_digit(((c as u32) / 16) as int), hex_digit(((c as u32) % 16) as int)]
    } else {
        seq![c]
    }
}

/// The escaped characters of `s`, in order.
pub open spec fn escape_chars(s: Seq<char>) -> Seq<char>
    decreases s.len(),
{
    if s.len() == 0 {
        seq![]
    } else {
        escape_chars(s.drop_last()) + escape_char(s.last())
    }
}

fn hex_char(n: u32) -> (c: char)
    requires
        n < 16,
    ensures
        c == hex_digit(n as int),
{
    match n {
        0 => '0',
        1 => '1',
        2 => '2',
        3 => '3',
        4 => '4',
        5 => '5',
        6 => '6',
        7 => '7',
        8 => '8',
        9 => '9',
        10 => 'a',
        11 => 'b',
        12 => 'c',
        13 => 'd',
        14 => 'e',
        _ => 'f',
    }
}

/// `s` escaped for a JSON string: `"`, `\`, line feed, carriage return and
/// tab as their short escapes, other control characters as `\u00xx`.
pub fn escape_json_string(s: &str) -> (r: String)
    ensures
        r@ == escape_chars(s@),
{
    let chars = chars_of(s);
    let mut out = String::new();
    let mut i: usize = 0;
    while i < chars.len()
        invariant
            chars@ == s@,
            i <= chars@.len(),
            out@ == escape_chars(chars@.subrange(0, i as int)),
        decreases chars@.len() - i,
    {
        let c = chars[i];
        let ghost before = out@;
        let code = c as u32;
        if c == '"' {
            out.push('\\');
            out.push('"');
        } else if c == '\\' {
            out.push('\\');
            out.push('\\');
        } else if c == '\n' {
            out.push('\\');
            out.push('n');
        } else if c == '\r' {
            out.push('\\');
            out.push('r');
        } else if c == '\t' {
            out.push('\\');
            out.push('t');
        } else if code < 0x20 || (0x7f <= code && code <= 0x9f) {
            out.push('\\');
            out.push('u');
            out.push('0');
            out.push('0');
            out.push(hex_char(code / 16));
            out.push(hex_char(code % 16));
        } else {
            out.push(c);
        }
        proof {
            let p = chars@.subrange(0, i as int + 1);
            assert(p.drop_last() =~= chars@.subrange(0, i as int));
            assert(p.last() == c);
            assert(out@ =~= before + escape_char(c));
        }
        i = i + 1;
    }
    assert(chars@.subrange(0, chars@.len() as int) =~= chars@);
    out
}

// ------------------------------------------------------------------ frame fields

/// The first index at or after `i` where `p` occurs in `s`.
pub open spec fn first_match(s: Seq<char>, p: Seq<char>, i: int) -> Option<int>
    decreases s.len() + 1 - i,
{
    if i < 0 || i + p.len() > s.len() {
        None
    } else if s.subrange(i, i + p.len()) == p {
        Some(i)
    } else {
        first_match(s, p, i + 1)
    }
}

/// The index of the first `:` at or after `i`, or the length of `s`.
pub open spec fn skip_to_colon(s: Seq<char>, i: int) -> int
    decreases s.len() - i,
{
    if i >= s.len() || i < 0 {
        i
    } else if s[i] == ':' {
        i
    } else {
        skip_to_colon(s, i + 1)
    }
}

/// Whether `c` is ASCII white space.
pub open spec fn is_ascii_white_space(c: char) -> bool {
    (c as u32) < 0x80 && is_white_space(c)
}

/// The first index at or after `i` that does not hold ASCII white space.
pub open spec fn skip_ascii_white_space(s: Seq<char>, i: int) -> int
    decreases s.len() - i,
{
    if i < 0 || i >= s.len() {
        i
    } else if is_ascii_white_space(s[i]) {
        skip_ascii_white_space(s, i + 1)
    } else {
        i
    }
}

/// Whether `c` is a hexadecimal digit.
pub open spec fn is_hex(c: char) -> bool {
    ('0' <= c && c <= '9') || ('a' <= c && c <= 'f') || ('A' <= c && c <= 'F')
}

/// The value of the hexadecimal digit `c`.
pub open spec fn hex_value(c: char) -> nat {
    if '0' <= c && c <= '9' {
        ((c as int) - ('0' as int)) as nat
    } else if 'a' <= c && c <= 'f' {
        ((c as int) - ('a' as int) + 10) as nat
    } else {
        ((c as int) - ('A' as int) + 10) as nat
    }
}

/// The number that the hexadecimal digits `s` spell.
pub open spec fn hex_digits_value(s: Seq<char>) -> nat
    decreases s.len(),
{
    if s.len() == 0 {
        0
    } else {
        hex_digits_value(s.drop_last()) * 16 + hex_value(s.last())
    }
}

/// `h` without a leading `+`.
pub open spec fn unsigned_body(h: Seq<char>) -> Seq<char> {
    if h.len() > 0 && h[0] == '+' {
        h.drop_first()
    } else {
        h
    }
}

/// Whether every character of `s` is a hexadecimal digit.
pub open spec fn all_hex(s: Seq<char>) -> bool {
    forall|k: int| 0 <= k < s.len() ==> is_hex(#[trigger] s[k])
}

/// What `u32::from_str_radix(h, 16)` gives for four characters `h`: an
/// optional `+` and then hexadecimal digits only.
pub open spec fn hex4_value(h: Seq<char>) -> Option<nat> {
    if unsigned_body(h).len() > 0 && all_hex(unsigned_body(h)) {
        Some(hex_digits_value(unsigned_body(h)))
    } else {
        None
    }
}

/// The character of code `n`, where `n` is a Unicode scalar value.
pub open spec fn scalar_of(n: nat) -> Option<char> {
    if n < 0xD800 || (0xE000 <= n && n <= 0x10FFFF) {
        Some(n as char)
    } else {
        None
    }
}

/// What a simple escape `\n` stands for.
pub open spec fn escaped(n: char) -> char {
    if n == 'n' {
        '\n'
    } else if n == 'r' {
        '\r'
    } else if n == 't' {
        '\t'
    } else {
        n
    }
}

/// The string whose text starts at `i` after `acc`, up to its closing quote;
/// escapes are resolved, a `\u` escape without a character is dropped;
/// `None` where the quote never closes.
pub open spec fn unescape_from(s: Seq<char>, i: int, acc: Seq<char>) -> Option<Seq<char>>
    decreases s.len() - i,
{
    if i < 0 || i >= s.len() {
        None
    } else if s[i] == '\\' && i + 1 < s.len() {
        if s[i + 1] == 'u' {
            if i + 5 < s.len() {
                let next = match hex4_value(s.subrange(i + 2, i + 6)) {
                    Some(n) => match scalar_of(n) {
                        Some(c) => acc.push(c),
                        None => acc,
                    },
                    None => acc,
                };
                unescape_from(s, i + 6, next)
            } else {
                unescape_from(s, i + 2, acc)
            }
        } else {
            unescape_from(s, i + 2, acc.push(escaped(s[i + 1])))
        }
    } else if s[i] == '"' {
        Some(acc)
    } else {
        unescape_from(s, i + 1, acc.push(s[i]))
    }
}

/// The string value of the top-level key `key` of the flat JSON object `obj`,
/// found by scanning: after the first `"key"`, the next `:`, ASCII white
/// space, and a quoted string.
pub open spec fn scan_str_field(obj: Seq<char>, key: Seq<char>) -> Option<Seq<char>> {
    let needle = seq!['"'] + key + seq!['"'];
    match first_match(obj, needle, 0) {
        Some(p) => {
            let colon = skip_to_colon(obj, p + needle.len());
            let v = skip_ascii_white_space(obj, colon + 1);
            if v >= obj.len() || obj[v] != '"' {
                None
            } else {
                unescape_from(obj, v + 1, seq![])
            }
        },
        None => None,
    }
}

fn hex_digit_value(c: char) -> (r: Option<u32>)
    ensures
        r is Some <==> is_hex(c),
        r matches Some(v) ==> v == hex_value(c) && v < 16,
{
    if '0' <= c && c <= '9' {
        Some(c as u32 - 0x30)
    } else if 'a' <= c && c <= 'f' {
        Some(c as u32 - 0x61 + 10)
    } else if 'A' <= c && c <= 'F' {
        Some(c as u32 - 0x41 + 10)
    } else {
        None
    }
}

/// `u32::from_str_radix(v[from..from + 4], 16)`.
fn parse_hex4(v: &Vec<char>, from: usize) -> (r: Option<u32>)
    requires
        from + 4 <= v@.len(),
    ensures
        match hex4_value(v@.subrange(from as int, from + 4)) {
            Some(n) => r == Some(n as u32),
            None => r is None,
        },
{
    let n = v.len();
    let ghost h = v@.subrange(from as int, from + 4);
    let start = if v[from] == '+' { from + 1 } else { from };
    let ghost body = v@.subrange(start as int, from + 4);
    proof {
        assert(h[0] == v@[from as int]);
        if v@[from as int] == '+' {
            assert(h.drop_first() =~= body);
        } else {
            assert(h =~= body);
        }
    }
    let mut value: u32 = 0;
    let mut i = start;
    while i < from + 4
        invariant
            n == v@.len(),
            from + 4 <= n,
            start <= i <= from + 4,
            start >= from,
            start <= from + 1,
            h == v@.subrange(from as int, from + 4),
            body == v@.subrange(start as int, from + 4),
            body == unsigned_body(h),
            forall|k: int| start <= k < i ==> is_hex(#[trigger] v@[k]),
            value == hex_digits_value(v@.subrange(start as int, i as int)),
            value < pow16((i - start) as nat),
        decreases from + 4 - i,
    {
        match hex_digit_value(v[i]) {
            Some(d) => {
                proof {
                    let p = v@.subrange(start as int, i as int + 1);
                    assert(p.drop_last() =~= v@.subrange(start as int, i as int));
                    assert(p.last() == v@[i as int]);
                    lemma_pow16_bound((i - start) as nat);
                    lemma_pow16_bound((i - start + 1) as nat);
                    assert(value * 16 + d < pow16((i - start + 1) as nat)) by (nonlinear_arith)
                        requires
                            value < pow16((i - start) as nat),
                            d < 16,
                            pow16((i - start + 1) as nat) == pow16((i - start) as nat) * 16,
                    ;
                }
                value = value * 16 + d;
            },
            None => {
                proof {
                    assert(body[i - start] == v@[i as int]);
                    assert(!is_hex(body[i - start]));
                    assert(h.len() == 4);
                    assert(unsigned_body(h) == body);
                    assert(hex4_value(h) is None);
                }
                return None;
            },
        }
        i = i + 1;
    }
    if start == from + 4 {
        return None;
    }
    proof {
        assert forall|k: int| 0 <= k < body.len() implies is_hex(#[trigger] body[k]) by {
            assert(body[k] == v@[start + k]);
        }
    }
    Some(value)
}

/// Sixteen to the power `n`.
pub open spec fn pow16(n: nat) -> nat
    decreases n,
{
    if n == 0 {
        1
    } else {
        pow16((n - 1) as nat) * 16
    }
}

proof fn lemma_pow16_bound(n: nat)
    requires
        n <= 5,
    ensures
        n <= 4 ==> pow16(n) <= 0x1_0000,
        pow16(n + 1) == pow16(n) * 16,
{
    reveal_with_fuel(pow16, 6);
}

pub proof fn lemma_first_match(s: Seq<char>, p: Seq<char>, i: int)
    ensures
        first_match(s, p, i) matches Some(k) ==> i <= k && k + p.len() <= s.len() && s.subrange(k, k + p.len()) == p,
    decreases s.len() + 1 - i,
{
    if !(i < 0 || i + p.len() > s.len()) && s.subrange(i, i + p.len()) != p {
        lemma_first_match(s, p, i + 1);
    }
}

/// The first index at or after `from` where `p` occurs in `v`.
fn find_from(v: &Vec<char>, p: &Vec<char>, from: usize) -> (r: Option<usize>)
    requires
        from <= v@.len(),
    ensures
        r matches Some(k) ==> first_match(v@, p@, from as int) == Some(k as int),
        r is None ==> first_match(v@, p@, from as int) is None,
{
    if p.len() == 0 {
        assert(v@.subrange(from as int, from as int) =~= p@);
        return Some(from);
    }
    if p.len() > v.len() {
        return None;
    }
    let mut j = from;
    while j <= v.len() - p.len()
        invariant
            from <= j,
            p@.len() >= 1,
            p@.len() <= v@.len(),
            j <= v@.len() + 1,
            first_match(v@, p@, from as int) == first_match(v@, p@, j as int),
        decreases v@.len() + 1 - j,
    {
        if range_equals(v, j, j + p.len(), p) {
            return Some(j);
        }
        j = j + 1;
    }
    None
}

/// The string value of the top-level key `key` of the flat JSON object
/// `obj` (see [`scan_str_field`]).
pub fn json_str_field(obj: &str, key: &str) -> (r: Option<String>)
    ensures
        match scan_str_field(obj@, key@) {
            Some(v) => r matches Some(s) && s@ == v,
            None => r is None,
        },
{
    let s = chars_of(obj);
    let mut needle: Vec<char> = Vec::new();
    needle.push('"');
    let k = chars_of(key);
    let mut q: usize = 0;
    while q < k.len()
        invariant
            q <= k@.len(),
            needle@ == seq!['"'] + k@.subrange(0, q as int),
        decreases k@.len() - q,
    {
        needle.push(k[q]);
        assert(needle@ =~= seq!['"'] + k@.subrange(0, q as int + 1));
        q = q + 1;
    }
    needle.push('"');
    assert(k@.subrange(0, k@.len() as int) =~= k@);
    assert(needle@ =~= seq!['"'] + key@ + seq!['"']);
    let p = match find_from(&s, &needle, 0) {
        Some(p) => p,
        None => return None,
    };
    proof {
        lemma_first_match(s@, needle@, 0);
    }
    let mut idx = p + needle.len();
    while idx < s.len() && s[idx] != ':'
        invariant
            idx <= s@.len(),
            skip_to_colon(s@, (p + needle@.len()) as int) == skip_to_colon(s@, idx as int),
        decreases s@.len() - idx,
    {
        idx = idx + 1;
    }
    if idx >= s.len() {
        return None;
    }
    idx = idx + 1;
    while idx < s.len() && is_ascii_ws_char(s[idx])
        invariant
            idx <= s@.len(),
            skip_to_colon(s@, (p + needle@.len()) as int) + 1 <= idx,
            skip_ascii_white_space(s@, skip_to_colon(s@, (p + needle@.len()) as int) + 1)
                == skip_ascii_white_space(s@, idx as int),
        decreases s@.len() - idx,
    {
        idx = idx + 1;
    }
    if idx >= s.len() || s[idx] != '"' {
        return None;
    }
    assert(idx as int == skip_ascii_white_space(s@, skip_to_colon(s@, (p + needle@.len()) as int) + 1));
    let mut i = idx + 1;
    let mut out = String::new();
    while i < s.len()
        invariant
            s@ == obj@,
            needle@ == seq!['"'] + key@ + seq!['"'],
            first_match(s@, needle@, 0) == Some(p as int),
            idx as int == skip_ascii_white_space(s@, skip_to_colon(s@, (p + needle@.len()) as int) + 1),
            idx < s@.len(),
            s@[idx as int] == '"',
            i <= s@.len() + 1,
            unescape_from(s@, idx + 1, seq![]) == unescape_from(s@, i as int, out@),
        decreases s@.len() + 1 - i,
    {
        let c = s[i];
        if c == '\\' && i + 1 < s.len() {
            let n = s[i + 1];
            if n == 'u' {
                if s.len() - i > 5 {
                    match parse_hex4(&s, i + 2) {
                        Some(cp) => {
                            proof {
                                lemma_hex4_small(s@.subrange(i + 2, i + 6));
                            }
                            match char::from_u32(cp) {
                                Some(ch) => out.push(ch),
                                None => {},
                            }
                        },
                        None => {},
                    }
                    i = i + 6;
                } else {
                    i = i + 2;
                }
            } else {
                let e = if n == 'n' {
                    '\n'
                } else if n == 'r' {
                    '\r'
                } else if n == 't' {
                    '\t'
                } else {
                    n
                };
                out.push(e);
                i = i + 2;
            }
        } else if c == '"' {
            return Some(out);
        } else {
            out.push(c);
            i = i + 1;
        }
    }
    None
}

proof fn lemma_hex4_small(h: Seq<char>)
    requires
        h.len() == 4,
    ensures
        hex4_value(h) matches Some(n) ==> n < 0x1_0000,
{
    let b = unsigned_body(h);
    if hex4_value(h) is Some {
        lemma_hex_digits_bound(b);
        lemma_pow16_bound(b.len());
    }
}

proof fn lemma_hex_digits_bound(s: Seq<char>)
    requires
        all_hex(s),
    ensures
        hex_digits_value(s) < pow16(s.len()),
    decreases s.len(),
{
    if s.len() > 0 {
        assert(all_hex(s.drop_last())) by {
            assert forall|k: int| 0 <= k < s.drop_last().len() implies is_hex(#[trigger] s.drop_last()[k]) by {
                assert(s.drop_last()[k] == s[k]);
            }
        }
        lemma_hex_digits_bound(s.drop_last());
        assert(is_hex(s[s.len() - 1]));
        assert(hex_value(s.last()) < 16);
        let a = hex_digits_value(s.drop_last());
        let d = hex_value(s.last());
        assert(a * 16 + d < pow16((s.len() - 1) as nat) * 16) by (nonlinear_arith)
            requires
                a < pow16((s.len() - 1) as nat),
                d < 16,
        ;
    }
}

fn is_ascii_ws_char(c: char) -> (r: bool)
    ensures
        r == is_ascii_white_space(c),
{
    c == ' ' || c == '\t' || c == '\n' || c == '\u{b}' || c == '\u{c}' || c == '\r'
}

// ------------------------------------------------------------------ the reply stream

/// The text and `done` flag after the `data:` lines of `lines`, from `state`;
/// each payload is scanned for its `type` and `text`.
pub open spec fn backend_fold(state: (Seq<char>, bool), lines: Seq<Seq<char>>) -> (Seq<char>, bool)
    decreases lines.len(),
{
    if lines.len() == 0 {
        state
    } else {
        backend_line_step(backend_fold(state, lines.drop_last()), lines.last())
    }
}

/// The state after one line: a `data:` line is scanned for its `type` and
/// `text`; any other line changes nothing.
pub open spec fn backend_line_step(state: (Seq<char>, bool), line: Seq<char>) -> (Seq<char>, bool) {
    match data_payload(line) {
        Some(p) => octos_step(state, scan_str_field(p, "type"@), scan_str_field(p, "text"@)),
        None => state,
    }
}

/// The complete frames of `buf` (each up to and including its blank line,
/// found one after another) and what is left after them.
pub open spec fn sse_frames(buf: Seq<char>) -> (Seq<Seq<char>>, Seq<char>)
    decreases buf.len(),
{
    match first_match(buf, seq!['\n', '\n'], 0) {
        Some(k) => {
            proof {
                lemma_first_match(buf, seq!['\n', '\n'], 0);
            }
            let rest = sse_frames(buf.subrange(k + 2, buf.len() as int));
            (seq![buf.subrange(0, k + 2)] + rest.0, rest.1)
        },
        None => (seq![], buf),
    }
}

/// The state after the lines of each of `frames`, in order.
pub open spec fn frames_fold(state: (Seq<char>, bool), frames: Seq<Seq<char>>) -> (Seq<char>, bool)
    decreases frames.len(),
{
    if frames.len() == 0 {
        state
    } else {
        backend_fold(frames_fold(state, frames.drop_last()), split_lines(frames.last()))
    }
}

/// One octos request in flight: its id, the assistant text so far, whether
/// the turn is done, and the start of a frame not yet complete.
pub struct InFlightRequest {
    pub request_id: u64,
    pub text: String,
    pub saw_done: bool,
    pub sse_buffer: String,
}

impl InFlightRequest {
    /// A request with no reply yet.
    pub fn new(request_id: u64) -> (r: Self)
        ensures
            r.request_id == request_id,
            r.text@.len() == 0,
            !r.saw_done,
            r.sse_buffer@.len() == 0,
    {
        InFlightRequest { request_id, text: String::new(), saw_done: false, sse_buffer: String::new() }
    }

    /// Applies the `data:` line `v[from..to]`, if it is one.
    fn apply_line(&mut self, v: &Vec<char>, from: usize, to: usize)
        requires
            from <= to <= v@.len(),
        ensures
            final(self).request_id == old(self).request_id,
            final(self).sse_buffer == old(self).sse_buffer,
            (final(self).text@, final(self).saw_done) == backend_line_step(
                (old(self).text@, old(self).saw_done),
                v@.subrange(from as int, to as int),
            ),
    {
        proof {
            reveal_strlit("data:");
            reveal_strlit("replace");
            reveal_strlit("token");
            reveal_strlit("done");
            reveal_strlit("");
        }
        let line = sub_vec(v, from, to);
        let (a, b) = trim_bounds(&line);
        let data = chars_of("data:");
        if !range_starts_with(&line, a, b, &data) {
            return;
        }
        let rest = sub_vec(&line, a + 5, b);
        let (c, d) = trim_bounds(&rest);
        proof {
            let t = crate::text::trim(line@);
            assert(t == line@.subrange(a as int, b as int));
            assert(t.subrange(5, t.len() as int) =~= rest@);
        }
        if c == d {
            return;
        }
        let payload = string_of_range(&rest, c, d);
        let kind = json_str_field(payload.as_str(), "type");
        let text = json_str_field(payload.as_str(), "text");
        let kind_ref: Option<&str> = match &kind {
            Some(k) => Some(k.as_str()),
            None => None,
        };
        let text_ref: Option<&str> = match &text {
            Some(t) => Some(t.as_str()),
            None => None,
        };
        self.apply_step(kind_ref, text_ref);
    }

    /// Applies one frame of type `kind` carrying `text`.
    fn apply_step(&mut self, kind: Option<&str>, text: Option<&str>)
        ensures
            final(self).request_id == old(self).request_id,
            final(self).sse_buffer == old(self).sse_buffer,
            (final(self).text@, final(self).saw_done) == octos_step(
                (old(self).text@, old(self).saw_done),
                opt_chars(kind),
                opt_chars(text),
            ),
    {
        proof {
            reveal_strlit("replace");
            reveal_strlit("token");
            reveal_strlit("done");
        }
        match kind {
            Some(k) => {
                if crate::text::str_equal(k, "replace") {
                    if let Some(t) = text {
                        self.text = t.to_owned();
                    }
                } else if crate::text::str_equal(k, "token") {
                    if let Some(t) = text {
                        self.text.append(t);
                    }
                } else if crate::text::str_equal(k, "done") {
                    self.saw_done = true;
                }
            },
            None => {},
        }
    }

    /// Applies the lines of `frame`, in order.
    fn apply_frame(&mut self, frame: &Vec<char>)
        ensures
            final(self).request_id == old(self).request_id,
            final(self).sse_buffer == old(self).sse_buffer,
            (final(self).text@, final(self).saw_done) == backend_fold(
                (old(self).text@, old(self).saw_done),
                split_lines(frame@),
            ),
    {
        let ghost s0 = (self.text@, self.saw_done);
        let mut start: usize = 0;
        let mut i: usize = 0;
        while i < frame.len()
            invariant
                start <= i <= frame@.len(),
                self.request_id == old(self).request_id,
                self.sse_buffer == old(self).sse_buffer,
                s0 == (old(self).text@, old(self).saw_done),
                line_state(frame@.subrange(0, i as int)).1 == frame@.subrange(start as int, i as int),
                (self.text@, self.saw_done) == backend_fold(s0, line_state(frame@.subrange(0, i as int)).0),
            decreases frame@.len() - i,
        {
            proof {
                assert(frame@.subrange(0, i as int + 1).drop_last() =~= frame@.subrange(0, i as int));
            }
            if frame[i] == '\n' {
                let ghost done = line_state(frame@.subrange(0, i as int)).0;
                self.apply_line(frame, start, i);
                proof {
                    let cur = frame@.subrange(start as int, i as int);
                    assert(done.push(cur).drop_last() =~= done);
                    assert(done.push(cur).last() == cur);
                }
                start = i + 1;
                assert(frame@.subrange(start as int, i as int + 1) =~= seq![]);
            } else {
                assert(frame@.subrange(start as int, i as int + 1) =~= frame@.subrange(start as int, i as int).push(
                    frame@[i as int],
                ));
            }
            i = i + 1;
        }
        let ghost done = line_state(frame@).0;
        assert(frame@.subrange(0, frame@.len() as int) =~= frame@);
        self.apply_line(frame, start, frame.len());
        proof {
            let cur = frame@.subrange(start as int, frame@.len() as int);
            assert(split_lines(frame@) == done.push(cur));
            assert(done.push(cur).drop_last() =~= done);
            assert(done.push(cur).last() == cur);
        }
    }

    /// Takes a chunk of the reply: the complete frames of what is buffered
    /// are applied in order and dropped from the buffer, the rest stays for
    /// the next chunk; a complete reply marks the turn done.
    pub fn process_stream_data(&mut self, data: &str, is_complete: bool)
        ensures
            final(self).request_id == old(self).request_id,
            ({
                let (frames, rest) = sse_frames(old(self).sse_buffer@ + data@);
                let after = frames_fold((old(self).text@, old(self).saw_done), frames);
                &&& final(self).text@ == after.0
                &&& final(self).saw_done == (after.1 || is_complete)
                &&& final(self).sse_buffer@ == rest
            }),
    {
        let ghost s0 = (self.text@, self.saw_done);
        let ghost buf0 = self.sse_buffer@ + data@;
        self.sse_buffer.append(data);
        let mut rest = chars_of(self.sse_buffer.as_str());
        let mut sep: Vec<char> = Vec::new();
        sep.push('\n');
        sep.push('\n');
        assert(sep@ =~= seq!['\n', '\n']);
        let ghost mut done: Seq<Seq<char>> = seq![];
        loop
            invariant
                sep@ == seq!['\n', '\n'],
                self.request_id == old(self).request_id,
                sse_frames(buf0).0 == done + sse_frames(rest@).0,
                sse_frames(buf0).1 == sse_frames(rest@).1,
                (self.text@, self.saw_done) == frames_fold(s0, done),
            ensures
                self.request_id == old(self).request_id,
                sse_frames(buf0).0 == done + sse_frames(rest@).0,
                sse_frames(buf0).1 == sse_frames(rest@).1,
                (self.text@, self.saw_done) == frames_fold(s0, done),
                first_match(rest@, seq!['\n', '\n'], 0) is None,
            decreases rest@.len(),
        {
            let k = match find_from(&rest, &sep, 0) {
                Some(k) => k,
                None => break,
            };
            let rest_len = rest.len();
            proof {
                lemma_first_match(rest@, sep@, 0);
                assert(sep@.len() == 2);
                assert(k + 2 <= rest@.len());
            }
            let frame = sub_vec(&rest, 0, k + 2);
            let next = sub_vec(&rest, k + 2, rest.len());
            self.apply_frame(&frame);
            proof {
                let d2 = done.push(frame@);
                assert(d2.drop_last() =~= done);
                assert(seq![frame@] + sse_frames(next@).0 == sse_frames(rest@).0);
                assert(done + sse_frames(rest@).0 =~= d2 + sse_frames(next@).0);
                done = d2;
            }
            rest = next;
        }
        proof {
            assert(sse_frames(rest@).0 =~= Seq::<Seq<char>>::empty());
            assert(done + sse_frames(rest@).0 =~= done);
        }
        self.sse_buffer = crate::text::string_of(&rest);
        if is_complete {
            self.saw_done = true;
        }
    }
}

// ------------------------------------------------------------------ the backend

/// Who wrote a message.
#[derive(Clone, Copy, Debug, PartialEq, Eq, Structural)]
pub enum MessageRole {
    User,
    Assistant,
}

/// A block of message content: text, or something else (an image, a tool
/// call) that this backend does not send.
#[derive(Clone, Debug, PartialEq, Eq)]
pub enum ContentBlock {
    Text { text: String },
    Other,
}

/// One message of a conversation.
#[derive(Clone, Debug, PartialEq, Eq)]
pub struct Message {
    pub role: MessageRole,
    pub content: Vec<ContentBlock>,
}

/// A request for one assistant turn.
#[derive(Clone, Debug, PartialEq, Eq)]
pub struct AiRequest {
    pub messages: Vec<Message>,
}

/// Why a turn ended.
#[derive(Clone, Copy, Debug, PartialEq, Eq, Structural)]
pub enum StopReason {
    EndTurn,
}

/// The reply of a finished turn.
#[derive(Clone, Debug, PartialEq, Eq)]
pub struct AiResponse {
    pub message: Message,
    pub stop_reason: StopReason,
}

/// What the backend reports to the app.
#[derive(Clone, Debug, PartialEq, Eq)]
pub enum AiEvent {
    StreamDelta { request_id: u64, text: String },
    Complete { request_id: u64, response: AiResponse },
    Error { request_id: u64, error: String },
}

/// A network event, as much of it as this backend reads.
#[derive(Clone, Debug, PartialEq, Eq)]
pub enum NetworkResponse {
    HttpResponse { request_id: u64, body: Option<String> },
    HttpStreamChunk { request_id: u64, body: Option<String> },
    HttpStreamComplete { request_id: u64 },
    HttpError { request_id: u64, message: String },
    HttpProgress { request_id: u64 },
    WebSocket,
}

/// Where the octos host is.
#[derive(Clone, Debug, PartialEq, Eq)]
pub struct OctosBackendConfig {
    pub base_url: String,
    pub auth_token: Option<String>,
}

/// A streaming POST request to the host.
#[derive(Clone, Debug, PartialEq, Eq)]
pub struct OctosHttpRequest {
    pub url: String,
    pub is_streaming: bool,
    pub headers: Vec<(String, String)>,
    pub body: String,
}

/// The text of the text blocks of `content`, in order.
pub open spec fn content_text(content: Seq<ContentBlock>) -> Seq<char>
    decreases content.len(),
{
    if content.len() == 0 {
        seq![]
    } else {
        content_text(content.drop_last()) + match content.last() {
            ContentBlock::Text { text } => text@,
            ContentBlock::Other => seq![],
        }
    }
}

/// The text of the latest user message whose text is not blank; empty
/// where there is none.
pub open spec fn spec_latest_user_text(messages: Seq<Message>) -> Seq<char>
    decreases messages.len(),
{
    if messages.len() == 0 {
        seq![]
    } else if messages.last().role == MessageRole::User && nonblank(content_text(messages.last().content@)) {
        content_text(messages.last().content@)
    } else {
        spec_latest_user_text(messages.drop_last())
    }
}

/// The text of the text blocks of `m`.
fn message_text(m: &Message) -> (r: String)
    ensures
        r@ == content_text(m.content@),
{
    let mut text = String::new();
    let mut i: usize = 0;
    while i < m.content.len()
        invariant
            i <= m.content@.len(),
            text@ == content_text(m.content@.subrange(0, i as int)),
        decreases m.content@.len() - i,
    {
        proof {
            let p = m.content@.subrange(0, i as int + 1);
            assert(p.drop_last() =~= m.content@.subrange(0, i as int));
            assert(p.last() == m.content@[i as int]);
        }
        match &m.content[i] {
            ContentBlock::Text { text: t } => {
                text.append(t.as_str());
            },
            ContentBlock::Other => {
                assert(text@ =~= text@ + Seq::<char>::empty());
            },
        }
        i = i + 1;
    }
    assert(m.content@.subrange(0, m.content@.len() as int) =~= m.content@);
    text
}

/// The text of the latest user message that is not blank (the host keeps
/// the conversation, so only that is sent).
pub fn latest_user_text(request: &AiRequest) -> (r: String)
    ensures
        r@ == spec_latest_user_text(request.messages@),
{
    let msgs = &request.messages;
    let mut i: usize = msgs.len();
    assert(msgs@.subrange(0, msgs@.len() as int) =~= msgs@);
    while i > 0
        invariant
            msgs@ == request.messages@,
            i <= msgs@.len(),
            spec_latest_user_text(msgs@) == spec_latest_user_text(msgs@.subrange(0, i as int)),
        decreases i,
    {
        proof {
            assert(msgs@.subrange(0, i as int).drop_last() =~= msgs@.subrange(0, i as int - 1));
        }
        let m = &msgs[i - 1];
        assert(msgs@.subrange(0, i as int).last() == *m);
        if m.role == MessageRole::User {
            let text = message_text(m);
            if is_nonblank(text.as_str()) {
                return text;
            }
        }
        i = i - 1;
    }
    String::new()
}

/// The `/chat` URL of a base URL: kept where it ends in `/chat`, else the
/// base without trailing slashes and `/chat`.
pub open spec fn backend_chat_url(base_url: Seq<char>) -> Seq<char> {
    if ends_with(base_url, "/chat"@) {
        base_url
    } else {
        trim_end_char(base_url, '/') + "/chat"@
    }
}

/// The JSON body of one turn.
pub open spec fn octos_request_body(message: Seq<char>, session_id: Seq<char>, thread_id: Seq<char>) -> Seq<char> {
    "{\"message\":\""@ + escape_chars(message) + "\",\"session_id\":\""@ + escape_chars(session_id)
        + "\",\"thread_id\":\""@ + escape_chars(thread_id) + "\"}"@
}

/// The headers of a turn: JSON content, and the bearer token where it is not blank.
pub open spec fn octos_request_headers(auth_token: Option<Seq<char>>) -> Seq<(Seq<char>, Seq<char>)> {
    let json = seq![("Content-Type"@, "application/json"@)];
    match auth_token {
        Some(t) => if nonblank(t) {
            json.push(("Authorization"@, "Bearer "@ + t))
        } else {
            json
        },
        None => json,
    }
}

/// The headers as plain values.
pub open spec fn headers_view(h: Seq<(String, String)>) -> Seq<(Seq<char>, Seq<char>)> {
    h.map_values(|p: (String, String)| (p.0@, p.1@))
}

/// The token as plain values.
pub open spec fn token_view(t: Option<String>) -> Option<Seq<char>> {
    match t {
        Some(s) => Some(s@),
        None => None,
    }
}

/// The requests in flight as plain values: each id and state.
pub open spec fn flights_view(v: Seq<InFlightRequest>) -> Seq<(u64, (Seq<char>, bool, Seq<char>))> {
    v.map_values(|r: InFlightRequest| (r.request_id, flight_view(r)))
}

/// The index of the first request in flight with id `id`.
pub open spec fn flight_index(v: Seq<(u64, (Seq<char>, bool, Seq<char>))>, id: u64) -> Option<int>
    decreases v.len(),
{
    if v.len() == 0 {
        None
    } else {
        match flight_index(v.drop_last(), id) {
            Some(i) => Some(i),
            None => if v.last().0 == id {
                Some(v.len() - 1)
            } else {
                None
            },
        }
    }
}

proof fn lemma_flight_index(v: Seq<(u64, (Seq<char>, bool, Seq<char>))>, id: u64)
    ensures
        flight_index(v, id) matches Some(i) ==> 0 <= i < v.len() && v[i].0 == id && forall|j: int|
            0 <= j < i ==> (#[trigger] v[j]).0 != id,
        flight_index(v, id) is None ==> forall|j: int| 0 <= j < v.len() ==> (#[trigger] v[j]).0 != id,
    decreases v.len(),
{
    if v.len() > 0 {
        lemma_flight_index(v.drop_last(), id);
        assert forall|j: int| 0 <= j < v.len() - 1 implies v[j] == v.drop_last()[j] by {}
    }
}

/// The requests in flight after `id` is sent: a fresh entry in place of
/// the first one with that id, or at the end.
pub open spec fn register_flight(s: Seq<(u64, (Seq<char>, bool, Seq<char>))>, id: u64) -> Seq<(u64, (Seq<char>, bool, Seq<char>))> {
    match flight_index(s, id) {
        Some(i) => s.update(i, (id, (Seq::<char>::empty(), false, Seq::<char>::empty()))),
        None => s.push((id, (Seq::<char>::empty(), false, Seq::<char>::empty()))),
    }
}

/// The requests in flight without the first one with id `id`.
pub open spec fn forget_flight(s: Seq<(u64, (Seq<char>, bool, Seq<char>))>, id: u64) -> Seq<(u64, (Seq<char>, bool, Seq<char>))> {
    match flight_index(s, id) {
        Some(i) => s.remove(i),
        None => s,
    }
}

/// The state of a request in flight as plain values: its text, whether it is
/// done, and its buffered partial frame.
pub open spec fn flight_view(r: InFlightRequest) -> (Seq<char>, bool, Seq<char>) {
    (r.text@, r.saw_done, r.sse_buffer@)
}

/// The state of a request in flight after the chunk `data` (and, where
/// `complete`, the end of the reply).
pub open spec fn after_chunk(v: (Seq<char>, bool, Seq<char>), data: Seq<char>, complete: bool) -> (Seq<char>, bool, Seq<char>) {
    let (frames, rest) = sse_frames(v.2 + data);
    let after = frames_fold((v.0, v.1), frames);
    (after.0, after.1 || complete, rest)
}

/// The octos agent backend: one session, a fresh thread per request, and
/// the requests whose replies are still coming.
pub struct OctosBackend {
    pub config: OctosBackendConfig,
    pub in_flight: Vec<InFlightRequest>,
    pub session_id: String,
    pub next_thread: u64,
}

impl OctosBackend {
    /// A backend for `config` in the session `session_id`, nothing in flight.
    pub fn new_in_session(config: OctosBackendConfig, session_id: String) -> (r: Self)
        ensures
            r.config == config,
            r.in_flight@.len() == 0,
            r.session_id == session_id,
            r.next_thread == 0,
    {
        OctosBackend { config, in_flight: Vec::new(), session_id, next_thread: 0 }
    }

    /// A backend for `config` in a fresh session.
    pub fn new(config: OctosBackendConfig) -> (r: Self)
        ensures
            r.config == config,
            r.in_flight@.len() == 0,
            is_fresh_session_id(r.session_id@),
            r.next_thread == 0,
    {
        OctosBackend::new_in_session(config, fresh_session_id())
    }

    /// The request of the next turn: a streaming POST to the `/chat` URL of
    /// the host with the latest user text, the session and a fresh thread id.
    pub fn build_http_request(&mut self, request: &AiRequest) -> (r: OctosHttpRequest)
        requires
            old(self).next_thread < u64::MAX,
        ensures
            final(self).next_thread == old(self).next_thread + 1,
            final(self).config == old(self).config,
            final(self).in_flight == old(self).in_flight,
            final(self).session_id == old(self).session_id,
            r.url@ == backend_chat_url(old(self).config.base_url@),
            r.is_streaming,
            headers_view(r.headers@) == octos_request_headers(token_view(old(self).config.auth_token)),
            r.body@ == octos_request_body(
                spec_latest_user_text(request.messages@),
                old(self).session_id@,
                spec_thread_id(old(self).session_id@, old(self).next_thread),
            ),
    {
        proof {
            reveal_strlit("/chat");
        }
        let thread = thread_id(self.session_id.as_str(), self.next_thread);
        self.next_thread = self.next_thread + 1;
        let base = chars_of(self.config.base_url.as_str());
        let chat = chars_of("/chat");
        let url = if range_ends_with(&base, 0, base.len(), &chat) {
            self.config.base_url.clone()
        } else {
            let e = trim_end_char_bound(&base, 0, base.len(), '/');
            let mut u = string_of_range(&base, 0, e);
            u.append("/chat");
            u
        };
        assert(base@.subrange(0, base@.len() as int) =~= base@);
        let message = latest_user_text(request);
        let mut body = String::new();
        body.append("{\"message\":\"");
        let m = escape_json_string(message.as_str());
        body.append(m.as_str());
        body.append("\",\"session_id\":\"");
        let s = escape_json_string(self.session_id.as_str());
        body.append(s.as_str());
        body.append("\",\"thread_id\":\"");
        let t = escape_json_string(thread.as_str());
        body.append(t.as_str());
        body.append("\"}");
        let mut headers: Vec<(String, String)> = Vec::new();
        headers.push(("Content-Type".to_owned(), "application/json".to_owned()));
        let ghost json = headers@;
        assert(headers_view(json) =~= seq![("Content-Type"@, "application/json"@)]);
        if let Some(token) = &self.config.auth_token {
            if is_nonblank(token.as_str()) {
                let mut value = String::new();
                value.append("Bearer ");
                value.append(token.as_str());
                headers.push(("Authorization".to_owned(), value));
                assert(headers_view(headers@) =~= headers_view(json).push(("Authorization"@, "Bearer "@ + token@)));
            }
        }
        OctosHttpRequest { url, is_streaming: true, headers, body }
    }

    /// Starts the turn `request` as the request `request_id`: its HTTP request,
    /// and a fresh entry in flight (replacing one with the same id).
    pub fn send_request(&mut self, request_id: u64, request: &AiRequest) -> (r: OctosHttpRequest)
        requires
            old(self).next_thread < u64::MAX,
        ensures
            final(self).next_thread == old(self).next_thread + 1,
            final(self).config == old(self).config,
            final(self).session_id == old(self).session_id,
            r.url@ == backend_chat_url(old(self).config.base_url@),
            r.is_streaming,
            headers_view(r.headers@) == octos_request_headers(token_view(old(self).config.auth_token)),
            r.body@ == octos_request_body(
                spec_latest_user_text(request.messages@),
                old(self).session_id@,
                spec_thread_id(old(self).session_id@, old(self).next_thread),
            ),
            flights_view(final(self).in_flight@) == register_flight(flights_view(old(self).in_flight@), request_id),
    {
        let http = self.build_http_request(request);
        let fresh = InFlightRequest::new(request_id);
        assert(fresh.text@ =~= Seq::<char>::empty());
        assert(fresh.sse_buffer@ =~= Seq::<char>::empty());
        let ghost before = self.in_flight@;
        let _count = self.in_flight.len();
        proof {
            lemma_flight_index(flights_view(self.in_flight@), request_id);
        }
        match self.find_flight(request_id) {
            Some(i) => {
                self.in_flight.set(i, fresh);
                assert(flights_view(self.in_flight@) =~= flights_view(before).update(
                    i as int,
                    (request_id, (Seq::<char>::empty(), false, Seq::<char>::empty())),
                ));
            },
            None => {
                self.in_flight.push(fresh);
                assert(flights_view(self.in_flight@) =~= flights_view(before).push(
                    (request_id, (Seq::<char>::empty(), false, Seq::<char>::empty())),
                ));
            },
        }
        http
    }

    /// The index of the request `request_id` in flight.
    fn find_flight(&self, request_id: u64) -> (r: Option<usize>)
        ensures
            match flight_index(flights_view(self.in_flight@), request_id) {
                Some(i) => r == Some(i as usize),
                None => r is None,
            },
    {
        proof {
            lemma_flight_index(flights_view(self.in_flight@), request_id);
        }
        let mut i: usize = 0;
        while i < self.in_flight.len()
            invariant
                i <= self.in_flight@.len(),
                forall|j: int| 0 <= j < i ==> (#[trigger] self.in_flight@[j]).request_id != request_id,
            decreases self.in_flight@.len() - i,
        {
            assert(flights_view(self.in_flight@)[i as int].0 == self.in_flight@[i as int].request_id);
            if self.in_flight[i].request_id == request_id {
                proof {
                    lemma_flight_index(flights_view(self.in_flight@), request_id);
                    assert forall|j: int| 0 <= j < i implies (#[trigger] flights_view(self.in_flight@)[j]).0 != request_id by {
                        assert(flights_view(self.in_flight@)[j].0 == self.in_flight@[j].request_id);
                    }
                }
                return Some(i);
            }
            i = i + 1;
        }
        proof {
            lemma_flight_index(flights_view(self.in_flight@), request_id);
            assert forall|j: int| 0 <= j < self.in_flight@.len() implies (#[trigger] flights_view(self.in_flight@)[j]).0 != request_id by {
                assert(flights_view(self.in_flight@)[j].0 == self.in_flight@[j].request_id);
            }
        }
        None
    }

    /// Forgets the request `request_id`; whether it was in flight (its HTTP
    /// request is then to be cancelled).
    pub fn cancel_request(&mut self, request_id: u64) -> (r: bool)
        ensures
            final(self).config == old(self).config,
            final(self).session_id == old(self).session_id,
            final(self).next_thread == old(self).next_thread,
            r == flight_index(flights_view(old(self).in_flight@), request_id) is Some,
            flights_view(final(self).in_flight@) == forget_flight(flights_view(old(self).in_flight@), request_id),
    {
        proof {
            lemma_flight_index(flights_view(self.in_flight@), request_id);
        }
        let ghost before = self.in_flight@;
        let _count = self.in_flight.len();
        match self.find_flight(request_id) {
            Some(i) => {
                let _gone = self.in_flight.remove(i);
                assert(self.in_flight@ == before.remove(i as int));
                assert(flights_view(self.in_flight@) =~= flights_view(before).remove(i as int));
                true
            },
            None => false,
        }
    }
}

/// A content block as plain values.
pub enum ContentBlockView {
    Text(Seq<char>),
    Other,
}

/// An event as plain values.
pub enum AiEventView {
    StreamDelta { request_id: u64, text: Seq<char> },
    Complete { request_id: u64, role: MessageRole, content: Seq<ContentBlockView>, stop_reason: StopReason },
    Error { request_id: u64, error: Seq<char> },
}

/// A content block as plain values.
pub open spec fn block_view(b: ContentBlock) -> ContentBlockView {
    match b {
        ContentBlock::Text { text } => ContentBlockView::Text(text@),
        ContentBlock::Other => ContentBlockView::Other,
    }
}

/// An event as plain values.
pub open spec fn event_view(e: AiEvent) -> AiEventView {
    match e {
        AiEvent::StreamDelta { request_id, text } => AiEventView::StreamDelta { request_id, text: text@ },
        AiEvent::Complete { request_id, response } => AiEventView::Complete {
            request_id,
            role: response.message.role,
            content: response.message.content@.map_values(|b: ContentBlock| block_view(b)),
            stop_reason: response.stop_reason,
        },
        AiEvent::Error { request_id, error } => AiEventView::Error { request_id, error: error@ },
    }
}

/// The events as plain values.
pub open spec fn events_view(v: Seq<AiEvent>) -> Seq<AiEventView> {
    v.map_values(|e: AiEvent| event_view(e))
}

/// The request a network response is about; `None` for a WebSocket one.
pub open spec fn response_request_id(r: NetworkResponse) -> Option<u64> {
    match r {
        NetworkResponse::HttpResponse { request_id, .. } => Some(request_id),
        NetworkResponse::HttpStreamChunk { request_id, .. } => Some(request_id),
        NetworkResponse::HttpStreamComplete { request_id } => Some(request_id),
        NetworkResponse::HttpError { request_id, .. } => Some(request_id),
        NetworkResponse::HttpProgress { request_id } => Some(request_id),
        NetworkResponse::WebSocket => None,
    }
}

/// The events of a finished reply with the text `text`: the whole text as
/// one delta (where there is any), then the completed assistant message.
pub open spec fn complete_events(id: u64, text: Seq<char>) -> Seq<AiEventView> {
    if text.len() == 0 {
        seq![AiEventView::Complete { request_id: id, role: MessageRole::Assistant, content: seq![], stop_reason: StopReason::EndTurn }]
    } else {
        seq![
            AiEventView::StreamDelta { request_id: id, text },
            AiEventView::Complete {
                request_id: id,
                role: MessageRole::Assistant,
                content: seq![ContentBlockView::Text(text)],
                stop_reason: StopReason::EndTurn,
            },
        ]
    }
}

/// The requests in flight and the events after one network response:
/// responses about requests not in flight change nothing; a chunk or a
/// whole body is taken in; the end of a stream finishes the request, and an
/// error fails it.
pub open spec fn respond(s: Seq<(u64, (Seq<char>, bool, Seq<char>))>, resp: NetworkResponse) -> (
    Seq<(u64, (Seq<char>, bool, Seq<char>))>,
    Seq<AiEventView>,
) {
    match response_request_id(resp) {
        None => (s, seq![]),
        Some(id) => match flight_index(s, id) {
            None => (s, seq![]),
            Some(i) => match resp {
                NetworkResponse::HttpStreamChunk { body, .. } => match body {
                    Some(d) => (s.update(i, (id, after_chunk(s[i].1, d@, false))), seq![]),
                    None => (s, seq![]),
                },
                NetworkResponse::HttpResponse { body, .. } => match body {
                    Some(d) => (s.update(i, (id, after_chunk(s[i].1, d@, true))), seq![]),
                    None => (s, seq![]),
                },
                NetworkResponse::HttpStreamComplete { .. } => (
                    s.remove(i),
                    complete_events(id, after_chunk(s[i].1, seq![], true).0),
                ),
                NetworkResponse::HttpError { message, .. } => (
                    s.remove(i),
                    seq![AiEventView::Error { request_id: id, error: message@ }],
                ),
                _ => (s, seq![]),
            },
        },
    }
}

/// The requests in flight and the events after the responses `rs`, in order.
pub open spec fn respond_all(s: Seq<(u64, (Seq<char>, bool, Seq<char>))>, rs: Seq<NetworkResponse>) -> (
    Seq<(u64, (Seq<char>, bool, Seq<char>))>,
    Seq<AiEventView>,
)
    decreases rs.len(),
{
    if rs.len() == 0 {
        (s, seq![])
    } else {
        let prev = respond_all(s, rs.drop_last());
        let step = respond(prev.0, rs.last());
        (step.0, prev.1 + step.1)
    }
}

impl OctosBackend {
    /// Takes one network response (see [`respond`]); the events it yields.
    pub fn handle_response(&mut self, response: &NetworkResponse) -> (r: Vec<AiEvent>)
        ensures
            final(self).config == old(self).config,
            final(self).session_id == old(self).session_id,
            final(self).next_thread == old(self).next_thread,
            (flights_view(final(self).in_flight@), events_view(r@)) == respond(
                flights_view(old(self).in_flight@),
                *response,
            ),
    {
        let mut events: Vec<AiEvent> = Vec::new();
        assert(events_view(events@) =~= Seq::<AiEventView>::empty());
        let request_id = match response {
            NetworkResponse::HttpResponse { request_id, .. } => *request_id,
            NetworkResponse::HttpStreamChunk { request_id, .. } => *request_id,
            NetworkResponse::HttpStreamComplete { request_id } => *request_id,
            NetworkResponse::HttpError { request_id, .. } => *request_id,
            NetworkResponse::HttpProgress { request_id } => *request_id,
            NetworkResponse::WebSocket => return events,
        };
        let ghost before = self.in_flight@;
        let _count = self.in_flight.len();
        proof {
            lemma_flight_index(flights_view(self.in_flight@), request_id);
        }
        let i = match self.find_flight(request_id) {
            Some(i) => i,
            None => return events,
        };
        match response {
            NetworkResponse::HttpStreamChunk { body, .. } => {
                if let Some(data) = body {
                    self.in_flight[i].process_stream_data(data.as_str(), false);
                    assert(flights_view(self.in_flight@) =~= flights_view(before).update(
                        i as int,
                        (request_id, after_chunk(flights_view(before)[i as int].1, data@, false)),
                    ));
                }
            },
            NetworkResponse::HttpResponse { body, .. } => {
                if let Some(data) = body {
                    self.in_flight[i].process_stream_data(data.as_str(), true);
                    assert(flights_view(self.in_flight@) =~= flights_view(before).update(
                        i as int,
                        (request_id, after_chunk(flights_view(before)[i as int].1, data@, true)),
                    ));
                }
            },
            NetworkResponse::HttpStreamComplete { .. } => {
                let mut done = self.in_flight.remove(i);
                assert(flights_view(self.in_flight@) =~= flights_view(before).remove(i as int));
                done.process_stream_data("", true);
                proof {
                    reveal_strlit("");
                    assert(flight_view(before[i as int]).2 + ""@ =~= flight_view(before[i as int]).2);
                }
                let content = if done.text.as_str().is_empty() {
                    Vec::new()
                } else {
                    events.push(AiEvent::StreamDelta { request_id: done.request_id, text: done.text.clone() });
                    let mut blocks: Vec<ContentBlock> = Vec::new();
                    blocks.push(ContentBlock::Text { text: done.text });
                    blocks
                };
                events.push(
                    AiEvent::Complete {
                        request_id: done.request_id,
                        response: AiResponse {
                            message: Message { role: MessageRole::Assistant, content },
                            stop_reason: StopReason::EndTurn,
                        },
                    },
                );
                proof {
                    let text = after_chunk(flight_view(before[i as int]), seq![], true).0;
                    if text.len() == 0 {
                        assert(events_view(events@)[0] == complete_events(request_id, text)[0]) by {
                            if let AiEventView::Complete { content, .. } = events_view(events@)[0] {
                                assert(content =~= Seq::<ContentBlockView>::empty());
                            }
                        }
                        assert(events_view(events@) =~= complete_events(request_id, text));
                    } else {
                        assert(events_view(events@)[1] == complete_events(request_id, text)[1]) by {
                            if let AiEventView::Complete { content, .. } = events_view(events@)[1] {
                                assert(content =~= seq![ContentBlockView::Text(text)]);
                            }
                        }
                        assert(events_view(events@) =~= complete_events(request_id, text));
                    }
                }
            },
            NetworkResponse::HttpError { message, .. } => {
                let gone = self.in_flight.remove(i);
                assert(flights_view(self.in_flight@) =~= flights_view(before).remove(i as int));
                events.push(AiEvent::Error { request_id: gone.request_id, error: message.clone() });
                assert(events_view(events@) =~= seq![AiEventView::Error { request_id: request_id, error: message@ }]);
            },
            _ => {},
        }
        events
    }

    /// Takes the network responses `responses` in order (see [`respond_all`]);
    /// the events they yield.
    pub fn handle_event(&mut self, responses: &Vec<NetworkResponse>) -> (r: Vec<AiEvent>)
        ensures
            final(self).config == old(self).config,
            final(self).session_id == old(self).session_id,
            final(self).next_thread == old(self).next_thread,
            (flights_view(final(self).in_flight@), events_view(r@)) == respond_all(
                flights_view(old(self).in_flight@),
                responses@,
            ),
    {
        let mut events: Vec<AiEvent> = Vec::new();
        let mut k: usize = 0;
        while k < responses.len()
            invariant
                k <= responses@.len(),
                self.config == old(self).config,
                self.session_id == old(self).session_id,
                self.next_thread == old(self).next_thread,
                (flights_view(self.in_flight@), events_view(events@)) == respond_all(
                    flights_view(old(self).in_flight@),
                    responses@.subrange(0, k as int),
                ),
            decreases responses@.len() - k,
        {
            let ghost before = events@;
            let mut more = self.handle_response(&responses[k]);
            let ghost extra = more@;
            events.append(&mut more);
            proof {
                let p = responses@.subrange(0, k as int + 1);
                assert(p.drop_last() =~= responses@.subrange(0, k as int));
                assert(p.last() == responses@[k as int]);
                assert(events@ == before + extra);
                assert(events_view(events@) =~= events_view(before) + events_view(extra));
            }
            k = k + 1;
        }
        assert(responses@.subrange(0, responses@.len() as int) =~= responses@);
        events
    }
}

} // verus!
