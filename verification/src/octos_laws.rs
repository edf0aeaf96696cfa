use vstd::prelude::*;
use crate::json::hex_digit;
use crate::octos::{octos_endpoint, spec_thread_id};
use crate::text::{decimal_digits, digit_char, ends_with, is_white_space, starts_with, trim, trim_end, trim_end_char, trim_start};
use crate::octos_backend::{
    escape_char, escape_chars, escaped, hex4_value, hex_digits_value, hex_value, is_control, is_hex, scalar_of,
    scan_str_field, unescape_from, unsigned_body, all_hex, skip_ascii_white_space, skip_to_colon,
    after_chunk, first_match, flight_index, forget_flight, frames_fold, register_flight, respond,
    response_request_id, sse_frames, NetworkResponse,
};

verus! {

proof fn lemma_first_match_prefix(u: Seq<char>, w: Seq<char>, p: Seq<char>, i: int)
    requires
        first_match(u, p, i) is Some,
    ensures
        first_match(u + w, p, i) == first_match(u, p, i),
    decreases u.len() + 1 - i,
{
    crate::octos_backend::lemma_first_match(u, p, i);
    let k = first_match(u, p, i)->0;
    assert(i + p.len() <= k + p.len() <= u.len());
    assert((u + w).subrange(i, i + p.len()) =~= u.subrange(i, i + p.len()));
    if u.subrange(i, i + p.len()) != p {
        lemma_first_match_prefix(u, w, p, i + 1);
    }
}

proof fn lemma_sse_frames_append(u: Seq<char>, w: Seq<char>)
    ensures
        sse_frames(u + w).0 == sse_frames(u).0 + sse_frames(sse_frames(u).1 + w).0,
        sse_frames(u + w).1 == sse_frames(sse_frames(u).1 + w).1,
    decreases u.len(),
{
    let nn = seq!['\n', '\n'];
    match first_match(u, nn, 0) {
        Some(k) => {
            crate::octos_backend::lemma_first_match(u, nn, 0);
            lemma_first_match_prefix(u, w, nn, 0);
            let rest = u.subrange(k + 2, u.len() as int);
            assert((u + w).subrange(0, k + 2) =~= u.subrange(0, k + 2));
            assert((u + w).subrange(k + 2, (u + w).len() as int) =~= rest + w);
            lemma_sse_frames_append(rest, w);
            assert(sse_frames(u + w).0 =~= seq![u.subrange(0, k + 2)] + sse_frames(rest + w).0);
            assert(sse_frames(u).0 =~= seq![u.subrange(0, k + 2)] + sse_frames(rest).0);
        },
        None => {
            assert(sse_frames(u).0 =~= Seq::<Seq<char>>::empty());
            assert(sse_frames(u).0 + sse_frames(sse_frames(u).1 + w).0 =~= sse_frames(u + w).0);
        },
    }
}

proof fn lemma_frames_fold_append(s: (Seq<char>, bool), a: Seq<Seq<char>>, b: Seq<Seq<char>>)
    ensures
        frames_fold(s, a + b) == frames_fold(frames_fold(s, a), b),
    decreases b.len(),
{
    if b.len() == 0 {
        assert(a + b =~= a);
    } else {
        assert((a + b).drop_last() =~= a + b.drop_last());
        assert((a + b).last() == b.last());
        lemma_frames_fold_append(s, a, b.drop_last());
    }
}

/// A reply fed in two chunks leaves a request in flight as the same reply
/// fed in one: a frame cut in two is completed from the buffer.
pub proof fn law_chunks_compose(v: (Seq<char>, bool, Seq<char>), a: Seq<char>, b: Seq<char>, complete: bool)
    ensures
        after_chunk(after_chunk(v, a, false), b, complete) == after_chunk(v, a + b, complete),
{
    let u = v.2 + a;
    lemma_sse_frames_append(u, b);
    assert(v.2 + (a + b) =~= u + b);
    let f1 = sse_frames(u).0;
    let f2 = sse_frames(sse_frames(u).1 + b).0;
    lemma_frames_fold_append((v.0, v.1), f1, f2);
    let s1 = frames_fold((v.0, v.1), f1);
    assert((s1.0, s1.1 || false) == s1);
}

/// Whether no two requests in flight share an id.
pub open spec fn distinct_ids(s: Seq<(u64, (Seq<char>, bool, Seq<char>))>) -> bool {
    forall|i: int, j: int| 0 <= i < j < s.len() ==> #[trigger] s[i].0 != #[trigger] s[j].0
}

proof fn lemma_flight_index_facts(s: Seq<(u64, (Seq<char>, bool, Seq<char>))>, id: u64)
    ensures
        flight_index(s, id) matches Some(i) ==> 0 <= i < s.len() && s[i].0 == id,
        flight_index(s, id) is None ==> forall|j: int| 0 <= j < s.len() ==> (#[trigger] s[j]).0 != id,
    decreases s.len(),
{
    if s.len() > 0 {
        lemma_flight_index_facts(s.drop_last(), id);
        assert forall|j: int| 0 <= j < s.len() - 1 implies s[j] == s.drop_last()[j] by {}
    }
}

proof fn lemma_remove_keeps_distinct(s: Seq<(u64, (Seq<char>, bool, Seq<char>))>, i: int)
    requires
        distinct_ids(s),
        0 <= i < s.len(),
    ensures
        distinct_ids(s.remove(i)),
        forall|j: int| 0 <= j < s.remove(i).len() ==> (#[trigger] s.remove(i)[j]).0 != s[i].0,
{
    let r = s.remove(i);
    assert forall|a: int, b: int| 0 <= a < b < r.len() implies #[trigger] r[a].0 != #[trigger] r[b].0 by {
        let sa = if a < i { a } else { a + 1 };
        let sb = if b < i { b } else { b + 1 };
        assert(r[a] == s[sa]);
        assert(r[b] == s[sb]);
    }
    assert forall|j: int| 0 <= j < r.len() implies (#[trigger] r[j]).0 != s[i].0 by {
        let sj = if j < i { j } else { j + 1 };
        assert(r[j] == s[sj]);
    }
}

/// Sending a request keeps the ids of the requests in flight distinct.
pub proof fn law_send_keeps_ids_distinct(s: Seq<(u64, (Seq<char>, bool, Seq<char>))>, id: u64)
    requires
        distinct_ids(s),
    ensures
        distinct_ids(register_flight(s, id)),
{
    lemma_flight_index_facts(s, id);
    let r = register_flight(s, id);
    match flight_index(s, id) {
        Some(i) => {
            assert forall|a: int, b: int| 0 <= a < b < r.len() implies #[trigger] r[a].0 != #[trigger] r[b].0 by {
                assert(r[a].0 == s[a].0);
                assert(r[b].0 == s[b].0);
            }
        },
        None => {
            assert forall|a: int, b: int| 0 <= a < b < r.len() implies #[trigger] r[a].0 != #[trigger] r[b].0 by {
                if b == s.len() {
                    assert(r[a] == s[a]);
                } else {
                    assert(r[a] == s[a]);
                    assert(r[b] == s[b]);
                }
            }
        },
    }
}

/// Taking a network response keeps the ids of the requests in flight distinct.
pub proof fn law_respond_keeps_ids_distinct(s: Seq<(u64, (Seq<char>, bool, Seq<char>))>, resp: NetworkResponse)
    requires
        distinct_ids(s),
    ensures
        distinct_ids(respond(s, resp).0),
{
    match response_request_id(resp) {
        None => {},
        Some(id) => {
            lemma_flight_index_facts(s, id);
            match flight_index(s, id) {
                None => {},
                Some(i) => {
                    let r = respond(s, resp).0;
                    if r.len() < s.len() {
                        lemma_remove_keeps_distinct(s, i);
                    } else {
                        assert forall|a: int, b: int| 0 <= a < b < r.len() implies #[trigger] r[a].0 != #[trigger] r[b].0 by {
                            assert(r[a].0 == s[a].0);
                            assert(r[b].0 == s[b].0);
                        }
                    }
                },
            }
        },
    }
}

/// Once a request's stream has completed or failed, it is no longer in flight.
pub proof fn law_finished_request_is_forgotten(s: Seq<(u64, (Seq<char>, bool, Seq<char>))>, resp: NetworkResponse)
    requires
        distinct_ids(s),
        resp is HttpStreamComplete || resp is HttpError,
    ensures
        flight_index(respond(s, resp).0, response_request_id(resp)->0) is None,
{
    let id = response_request_id(resp)->0;
    lemma_flight_index_facts(s, id);
    match flight_index(s, id) {
        None => {},
        Some(i) => {
            lemma_remove_keeps_distinct(s, i);
            lemma_flight_index_facts(s.remove(i), id);
        },
    }
}

/// After a request is cancelled, any response about it that arrives late
/// changes nothing and yields no event.
pub proof fn law_late_responses_after_cancel_are_ignored(
    s: Seq<(u64, (Seq<char>, bool, Seq<char>))>,
    id: u64,
    resp: NetworkResponse,
)
    requires
        distinct_ids(s),
        response_request_id(resp) == Some(id),
    ensures
        respond(forget_flight(s, id), resp) == (forget_flight(s, id), Seq::<crate::octos_backend::AiEventView>::empty()),
{
    lemma_flight_index_facts(s, id);
    match flight_index(s, id) {
        None => {
            assert(flight_index(forget_flight(s, id), id) is None);
        },
        Some(i) => {
            lemma_remove_keeps_distinct(s, i);
            lemma_flight_index_facts(s.remove(i), id);
        },
    }
}

proof fn lemma_trim_keeps_unpadded(s: Seq<char>)
    requires
        s.len() > 0,
        !is_white_space(s[0]),
        !is_white_space(s.last()),
    ensures
        trim(s) == s,
{
    assert(trim_start(s) == s);
    assert(trim_end(s) == s);
}

/// A configured endpoint always ends in `/chat`.
pub proof fn law_endpoint_ends_with_chat(base_url: Seq<char>)
    ensures
        octos_endpoint(base_url) matches Ok(e) ==> ends_with(e, "/chat"@),
{
    reveal_strlit("/chat");
    let t = trim(base_url);
    if t.len() > 0 && (starts_with(t, "http://"@) || starts_with(t, "https://"@)) && !ends_with(t, "/chat"@) {
        let e = trim_end_char(t, '/') + "/chat"@;
        assert(e.subrange(e.len() - 5, e.len() as int) =~= "/chat"@);
    }
}

/// Normalizing a configured endpoint again gives it back, where it still
/// starts with `http://` or `https://`.
pub proof fn law_endpoint_normalization_is_idempotent(base_url: Seq<char>, e: Seq<char>)
    requires
        octos_endpoint(base_url) == Ok::<Seq<char>, Seq<char>>(e),
        starts_with(e, "http://"@) || starts_with(e, "https://"@),
    ensures
        octos_endpoint(e) == Ok::<Seq<char>, Seq<char>>(e),
{
    reveal_strlit("http://");
    reveal_strlit("https://");
    reveal_strlit("/chat");
    law_endpoint_ends_with_chat(base_url);
    assert(e[0] == 'h') by {
        if starts_with(e, "http://"@) {
            assert(e.subrange(0, 7)[0] == e[0]);
        } else {
            assert(e.subrange(0, 8)[0] == e[0]);
        }
    }
    assert(e.last() == 't') by {
        assert(e.subrange(e.len() - 5, e.len() as int)[4] == e.last());
    }
    lemma_trim_keeps_unpadded(e);
}


proof fn lemma_decimal_digits_injective(n: nat, m: nat)
    requires
        decimal_digits(n) == decimal_digits(m),
    ensures
        n == m,
    decreases n,
{
    let dn = decimal_digits(n);
    let dm = decimal_digits(m);
    if n >= 10 {
        assert(decimal_digits(n / 10).len() >= 1) by {
            lemma_decimal_digits_nonempty((n / 10) as nat);
        }
    }
    if m >= 10 {
        assert(decimal_digits(m / 10).len() >= 1) by {
            lemma_decimal_digits_nonempty((m / 10) as nat);
        }
    }
    assert(dn.last() == digit_char((n % 10) as int));
    assert(dm.last() == digit_char((m % 10) as int));
    assert((n % 10) == (m % 10));
    if n < 10 && m < 10 {
    } else if n >= 10 && m >= 10 {
        assert(dn.drop_last() =~= decimal_digits(n / 10));
        assert(dm.drop_last() =~= decimal_digits(m / 10));
        lemma_decimal_digits_injective((n / 10) as nat, (m / 10) as nat);
    } else {
        assert(dn.len() != dm.len());
    }
}

proof fn lemma_decimal_digits_nonempty(n: nat)
    ensures
        decimal_digits(n).len() >= 1,
    decreases n,
{
    if n >= 10 {
        lemma_decimal_digits_nonempty((n / 10) as nat);
    }
}

/// Turns numbered differently get different thread ids in one session: a
/// fresh thread per turn, as the counter only moves forward.
pub proof fn law_thread_ids_are_fresh(session_id: Seq<char>, n: u64, m: u64)
    requires
        n != m,
    ensures
        spec_thread_id(session_id, n) != spec_thread_id(session_id, m),
{
    let a = spec_thread_id(session_id, n);
    let b = spec_thread_id(session_id, m);
    let prefix = session_id + "-t"@;
    if a == b {
        assert(a.subrange(prefix.len() as int, a.len() as int) =~= decimal_digits(n as nat));
        assert(b.subrange(prefix.len() as int, b.len() as int) =~= decimal_digits(m as nat));
        lemma_decimal_digits_injective(n as nat, m as nat);
    }
}


/// How many characters the scheme of `t` takes: `http://` or `https://`.
pub open spec fn scheme_len(t: Seq<char>) -> int {
    if starts_with(t, "http://"@) {
        7
    } else {
        8
    }
}

/// Whether the trimmed `base_url` has something other than `/` after its
/// scheme (a URL that is a scheme and slashes only does not).
pub open spec fn names_more_than_scheme(base_url: Seq<char>) -> bool {
    let t = trim(base_url);
    exists|i: int| scheme_len(t) <= i < t.len() && t[i] != '/'
}

proof fn lemma_trim_end_char_keeps(s: Seq<char>, c: char, i: int)
    requires
        0 <= i < s.len(),
        s[i] != c,
    ensures
        trim_end_char(s, c).len() > i,
        trim_end_char(s, c).len() <= s.len(),
        trim_end_char(s, c) == s.subrange(0, trim_end_char(s, c).len() as int),
    decreases s.len(),
{
    if s.last() == c {
        assert(i < s.len() - 1);
        assert(s.drop_last()[i] == s[i]);
        lemma_trim_end_char_keeps(s.drop_last(), c, i);
        assert(trim_end_char(s, c) == trim_end_char(s.drop_last(), c));
        let k = trim_end_char(s, c).len() as int;
        assert(k <= s.len() - 1);
        assert(s.drop_last().subrange(0, k) =~= s.subrange(0, k));
    } else {
        assert(s.subrange(0, s.len() as int) =~= s);
    }
}

/// A configured endpoint has the shape of one: it starts with `http://` or
/// `https://`, ends in `/chat`, and normalizing it again gives it back. This
/// holds for every base URL that names more than its scheme; one that is a
/// scheme and slashes only, such as `http://`, gives `http:/chat`.
pub proof fn law_endpoint_shape(base_url: Seq<char>, e: Seq<char>)
    requires
        octos_endpoint(base_url) == Ok::<Seq<char>, Seq<char>>(e),
        names_more_than_scheme(base_url),
    ensures
        ends_with(e, "/chat"@),
        starts_with(e, "http://"@) || starts_with(e, "https://"@),
        octos_endpoint(e) == Ok::<Seq<char>, Seq<char>>(e),
{
    reveal_strlit("http://");
    reveal_strlit("https://");
    reveal_strlit("/chat");
    law_endpoint_ends_with_chat(base_url);
    let t = trim(base_url);
    if !ends_with(t, "/chat"@) {
        let i = choose|i: int| scheme_len(t) <= i < t.len() && t[i] != '/';
        lemma_trim_end_char_keeps(t, '/', i);
        let p = trim_end_char(t, '/');
        let n = scheme_len(t);
        assert(e == p + "/chat"@);
        let k = p.len() as int;
        assert(n <= i < k);
        assert(p == t.subrange(0, k));
        assert forall|j: int| 0 <= j < n implies e[j] == t[j] by {
            assert(e[j] == p[j]);
            assert(p[j] == t[j]);
        }
        assert(e.subrange(0, n) =~= t.subrange(0, n));
    }
    law_endpoint_normalization_is_idempotent(base_url, e);
}


proof fn lemma_hex_digit_round_trip(n: int)
    requires
        0 <= n < 16,
    ensures
        is_hex(hex_digit(n)),
        hex_value(hex_digit(n)) == n,
{
}

proof fn lemma_hex_digits_push(p: Seq<char>, d: char)
    ensures
        hex_digits_value(p.push(d)) == hex_digits_value(p) * 16 + hex_value(d),
{
    assert(p.push(d).drop_last() =~= p);
}

/// Reading back one escaped character: at `j`, where `escape_char(c)` is
/// spelled, the scan takes in `c` and moves past its spelling.
proof fn lemma_unescape_char(x: Seq<char>, j: int, c: char, acc: Seq<char>)
    requires
        0 <= j,
        j + escape_char(c).len() < x.len(),
        x.subrange(j, j + escape_char(c).len()) == escape_char(c),
    ensures
        unescape_from(x, j, acc) == unescape_from(x, j + escape_char(c).len(), acc.push(c)),
{
    let e = escape_char(c);
    assert(x[j] == e[0]);
    if e.len() >= 2 {
        assert(x[j + 1] == e[1]);
    }
    if c == '"' || c == '\\' || c == '\n' || c == '\r' || c == '\t' {
    } else if is_control(c) {
        let code = c as u32;
        let hi = (code / 16) as int;
        let lo = (code % 16) as int;
        assert(e =~= seq!['\\', 'u', '0', '0', hex_digit(hi), hex_digit(lo)]);
        let h = x.subrange(j + 2, j + 6);
        assert(h =~= seq!['0', '0', hex_digit(hi), hex_digit(lo)]) by {
            assert forall|k: int| 0 <= k < 4 implies h[k] == e[k + 2] by {
                assert(x[j + 2 + k] == e[k + 2]);
            }
        }
        lemma_hex_digit_round_trip(hi);
        lemma_hex_digit_round_trip(lo);
        assert(unsigned_body(h) == h);
        assert(all_hex(h));
        let h0 = Seq::<char>::empty();
        let h1 = h0.push('0');
        let h2 = h1.push('0');
        let h3 = h2.push(hex_digit(hi));
        assert(h =~= h3.push(hex_digit(lo)));
        lemma_hex_digits_push(h0, '0');
        lemma_hex_digits_push(h1, '0');
        lemma_hex_digits_push(h2, hex_digit(hi));
        lemma_hex_digits_push(h3, hex_digit(lo));
        assert(hex_digits_value(h) == hi * 16 + lo);
        assert(hi * 16 + lo == code);
        assert(hex4_value(h) == Some(code as nat));
        assert(scalar_of(code as nat) == Some(c));
    } else {
        assert(e =~= seq![c]);
    }
}

/// Reading back an escaped string: from `i`, where `escape_chars(s)` is
/// spelled and something follows, the scan takes in `s` and moves past it.
proof fn lemma_unescape_chars(x: Seq<char>, i: int, s: Seq<char>, acc: Seq<char>)
    requires
        0 <= i,
        i + escape_chars(s).len() < x.len(),
        x.subrange(i, i + escape_chars(s).len()) == escape_chars(s),
    ensures
        unescape_from(x, i, acc) == unescape_from(x, i + escape_chars(s).len(), acc + s),
    decreases s.len(),
{
    if s.len() == 0 {
        assert(acc + s =~= acc);
    } else {
        let d = s.drop_last();
        let c = s.last();
        let ed = escape_chars(d);
        let ec = escape_char(c);
        assert(escape_chars(s) == ed + ec);
        assert(x.subrange(i, i + ed.len()) =~= ed) by {
            assert forall|k: int| 0 <= k < ed.len() implies x.subrange(i, i + ed.len())[k] == ed[k] by {
                assert(x.subrange(i, i + escape_chars(s).len())[k] == escape_chars(s)[k]);
            }
        }
        lemma_unescape_chars(x, i, d, acc);
        let j = i + ed.len();
        assert(x.subrange(j, j + ec.len()) =~= ec) by {
            assert forall|k: int| 0 <= k < ec.len() implies x.subrange(j, j + ec.len())[k] == ec[k] by {
                assert(x.subrange(i, i + escape_chars(s).len())[ed.len() + k] == escape_chars(s)[ed.len() + k]);
            }
        }
        lemma_unescape_char(x, j, c, acc + d);
        assert((acc + d).push(c) =~= acc + s);
    }
}

/// Scanning a string field inverts the escaping of request text: a flat
/// object with the member `key` whose string value is `s` escaped as
/// `escape_json_string` writes it reads back as `s`, whatever `key` and `s`
/// are (a tab escape reads back as a tab, a `\u` escape as its character).
pub proof fn law_escaped_field_reads_back(key: Seq<char>, s: Seq<char>)
    ensures
        scan_str_field(seq!['{', '"'] + key + seq!['"', ':', '"'] + escape_chars(s) + seq!['"', '}'], key) == Some(s),
{
    let obj = seq!['{', '"'] + key + seq!['"', ':', '"'] + escape_chars(s) + seq!['"', '}'];
    let needle = seq!['"'] + key + seq!['"'];
    let es = escape_chars(s);
    let n = needle.len() as int;
    assert(obj.len() == 5 + key.len() + es.len() + 2);
    assert(obj.subrange(0, n) != needle) by {
        assert(obj.subrange(0, n)[0] == '{');
    }
    assert(obj.subrange(1, 1 + n) =~= needle) by {
        assert forall|k: int| 0 <= k < n implies obj[1 + k] == needle[k] by {
            if k == 0 {
            } else if k <= key.len() {
                assert(obj[1 + k] == key[k - 1]);
            } else {
            }
        }
    }
    assert(first_match(obj, needle, 1) == Some(1int));
    assert(first_match(obj, needle, 0) == Some(1int));
    let colon = 1 + n;
    assert(obj[colon] == ':');
    assert(skip_to_colon(obj, colon) == colon);
    assert(obj[colon + 1] == '"');
    assert(!crate::octos_backend::is_ascii_white_space('"')) by {
        reveal(crate::text::is_white_space);
    }
    assert(skip_ascii_white_space(obj, colon + 1) == colon + 1);
    let i = colon + 2;
    assert(obj.subrange(i, i + es.len()) =~= es) by {
        assert forall|k: int| 0 <= k < es.len() implies obj[i + k] == es[k] by {}
    }
    lemma_unescape_chars(obj, i, s, seq![]);
    assert(obj[i + es.len()] == '"');
    assert(Seq::<char>::empty() + s =~= s);
}

} // verus!
