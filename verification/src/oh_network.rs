use vstd::prelude::*;
use crate::octos::{line_state, split_lines};
use crate::ids::LiveId;
use crate::text::{chars_of, string_of_range};

verus! {

// ------------------------------------------------------------------ key order

/// Whether `a` comes before `b` character by character (the order in which a
/// `BTreeMap<String, _>` keeps its keys).
pub open spec fn seq_lt(a: Seq<char>, b: Seq<char>) -> bool
    decreases a.len(),
{
    if a.len() == 0 {
        b.len() > 0
    } else if b.len() == 0 {
        false
    } else if a[0] < b[0] {
        true
    } else if a[0] == b[0] {
        seq_lt(a.drop_first(), b.drop_first())
    } else {
        false
    }
}

pub(crate) proof fn lemma_lt_irreflexive(a: Seq<char>)
    ensures
        !seq_lt(a, a),
    decreases a.len(),
{
    if a.len() > 0 {
        lemma_lt_irreflexive(a.drop_first());
    }
}

pub(crate) proof fn lemma_lt_total(a: Seq<char>, b: Seq<char>)
    ensures
        a != b ==> (seq_lt(a, b) || seq_lt(b, a)),
        !(seq_lt(a, b) && seq_lt(b, a)),
    decreases a.len(),
{
    if a.len() > 0 && b.len() > 0 {
        lemma_lt_total(a.drop_first(), b.drop_first());
        if a[0] == b[0] && a != b {
            assert(a.drop_first() != b.drop_first()) by {
                if a.drop_first() == b.drop_first() {
                    assert(a =~= seq![a[0]] + a.drop_first());
                    assert(b =~= seq![b[0]] + b.drop_first());
                }
            }
        }
    } else if a.len() == 0 && b.len() == 0 {
        assert(a =~= b);
    }
}

proof fn lemma_lt_transitive(a: Seq<char>, b: Seq<char>, c: Seq<char>)
    requires
        seq_lt(a, b),
        seq_lt(b, c),
    ensures
        seq_lt(a, c),
    decreases a.len(),
{
    if a.len() > 0 && b.len() > 0 && c.len() > 0 && a[0] == b[0] && b[0] == c[0] {
        lemma_lt_transitive(a.drop_first(), b.drop_first(), c.drop_first());
    }
}

/// `a` before `b`, compared character by character.
fn chars_lt(a: &Vec<char>, b: &Vec<char>) -> (r: bool)
    ensures
        r == seq_lt(a@, b@),
{
    let mut i: usize = 0;
    assert(a@.subrange(0, a@.len() as int) =~= a@);
    assert(b@.subrange(0, b@.len() as int) =~= b@);
    assert(a@.subrange(0, 0) =~= b@.subrange(0, 0));
    while i < a.len() && i < b.len()
        invariant
            i <= a@.len(),
            i <= b@.len(),
            a@.subrange(0, i as int) == b@.subrange(0, i as int),
            seq_lt(a@, b@) == seq_lt(a@.subrange(i as int, a@.len() as int), b@.subrange(i as int, b@.len() as int)),
        decreases a@.len() - i,
    {
        let ghost sa = a@.subrange(i as int, a@.len() as int);
        let ghost sb = b@.subrange(i as int, b@.len() as int);
        assert(sa[0] == a@[i as int]);
        assert(sb[0] == b@[i as int]);
        if a[i] < b[i] {
            return true;
        }
        if a[i] != b[i] {
            return false;
        }
        assert(sa.drop_first() =~= a@.subrange(i as int + 1, a@.len() as int));
        assert(sb.drop_first() =~= b@.subrange(i as int + 1, b@.len() as int));
        assert(a@.subrange(0, i as int + 1) =~= a@.subrange(0, i as int).push(a@[i as int]));
        assert(b@.subrange(0, i as int + 1) =~= b@.subrange(0, i as int).push(b@[i as int]));
        i = i + 1;
    }
    i < b.len()
}

// ------------------------------------------------------------------ header maps

/// Headers as plain values: each key with its values, in key order.
pub open spec fn headers_view(h: Seq<(String, Vec<String>)>) -> Seq<(Seq<char>, Seq<Seq<char>>)> {
    h.map_values(|e: (String, Vec<String>)| (e.0@, e.1@.map_values(|v: String| v@)))
}

/// Whether the keys of `h` strictly increase.
pub open spec fn keys_sorted(h: Seq<(Seq<char>, Seq<Seq<char>>)>) -> bool {
    forall|i: int, j: int| 0 <= i < j < h.len() ==> seq_lt(#[trigger] h[i].0, #[trigger] h[j].0)
}

/// `h` with `v` added to the values of key `k`: the key keeps its place, or
/// comes in before the first larger key.
pub open spec fn insert_header(h: Seq<(Seq<char>, Seq<Seq<char>>)>, k: Seq<char>, v: Seq<char>) -> Seq<(Seq<char>, Seq<Seq<char>>)>
    decreases h.len(),
{
    if h.len() == 0 {
        seq![(k, seq![v])]
    } else if h[0].0 == k {
        h.update(0, (k, h[0].1.push(v)))
    } else if seq_lt(k, h[0].0) {
        seq![(k, seq![v])] + h
    } else {
        seq![h[0]] + insert_header(h.drop_first(), k, v)
    }
}

/// `c` with `A`..`Z` lowered.
pub open spec fn lower_ascii(c: char) -> char {
    if 0x41 <= (c as u32) && (c as u32) <= 0x5a {
        ((c as u32) + 32) as char
    } else {
        c
    }
}

/// `s` with `A`..`Z` lowered (what `str::to_ascii_lowercase` gives).
pub open spec fn lower_ascii_chars(s: Seq<char>) -> Seq<char> {
    s.map_values(|c: char| lower_ascii(c))
}

/// The headers read from `lines` taken in pairs, key then value; pairs with
/// an empty key are skipped, keys are lowered, values kept in order.
pub open spec fn parse_pairs(lines: Seq<Seq<char>>, n: nat) -> Seq<(Seq<char>, Seq<Seq<char>>)>
    decreases n,
{
    if n == 0 || 2 * n > lines.len() {
        seq![]
    } else {
        let prev = parse_pairs(lines, (n - 1) as nat);
        let k = lines[2 * n - 2];
        let v = lines[2 * n - 1];
        if k.len() == 0 {
            prev
        } else {
            insert_header(prev, lower_ascii_chars(k), v)
        }
    }
}

/// The headers of `flat`, newline-separated keys and values (`k1\nv1\nk2\nv2...`).
pub open spec fn spec_parse_flat_headers(flat: Seq<char>) -> Seq<(Seq<char>, Seq<Seq<char>>)> {
    parse_pairs(split_lines(flat), split_lines(flat).len() / 2)
}

/// The flat form of `h`: `key\nvalue\n` for each value of each key, in order.
pub open spec fn spec_flatten_headers(h: Seq<(Seq<char>, Seq<Seq<char>>)>) -> Seq<char>
    decreases h.len(),
{
    if h.len() == 0 {
        seq![]
    } else {
        spec_flatten_headers(h.drop_last()) + flatten_values(h.last().0, h.last().1)
    }
}

/// `key\nvalue\n` for each of `values`.
pub open spec fn flatten_values(key: Seq<char>, values: Seq<Seq<char>>) -> Seq<char>
    decreases values.len(),
{
    if values.len() == 0 {
        seq![]
    } else {
        flatten_values(key, values.drop_last()) + key + seq!['\n'] + values.last() + seq!['\n']
    }
}

fn lower_char(c: char) -> (r: char)
    ensures
        r == lower_ascii(c),
{
    let code = c as u32;
    if 0x41 <= code && code <= 0x5a {
        match char::from_u32(code + 32) {
            Some(l) => l,
            None => c,
        }
    } else {
        c
    }
}

fn lower_ascii_string(s: &Vec<char>, from: usize, to: usize) -> (r: String)
    requires
        from <= to <= s@.len(),
    ensures
        r@ == lower_ascii_chars(s@.subrange(from as int, to as int)),
{
    let mut out = String::new();
    let mut i = from;
    while i < to
        invariant
            from <= i <= to,
            to <= s@.len(),
            out@ == lower_ascii_chars(s@.subrange(from as int, i as int)),
        decreases to - i,
    {
        out.push(lower_char(s[i]));
        assert(out@ =~= lower_ascii_chars(s@.subrange(from as int, i as int + 1)));
        i = i + 1;
    }
    out
}

/// Adds the value `v` to the key `k` (see [`insert_header`]).
fn insert_header_value(h: &mut Vec<(String, Vec<String>)>, k: String, v: String)
    ensures
        headers_view(final(h)@) == insert_header(headers_view(old(h)@), k@, v@),
{
    let kc = chars_of(k.as_str());
    let ghost hv = headers_view(h@);
    let mut j: usize = 0;
    assert(hv.subrange(0, 0) + hv.subrange(0, hv.len() as int) =~= hv);
    while j < h.len()
        invariant
            kc@ == k@,
            h@ == old(h)@,
            hv == headers_view(h@),
            j <= h@.len(),
            insert_header(hv, k@, v@) == hv.subrange(0, j as int) + insert_header(
                hv.subrange(j as int, hv.len() as int),
                k@,
                v@,
            ),
        decreases h@.len() - j,
    {
        let key_j = chars_of(h[j].0.as_str());
        let ghost rest = hv.subrange(j as int, hv.len() as int);
        assert(rest[0] == hv[j as int]);
        proof {
            lemma_lt_total(k@, hv[j as int].0);
            lemma_lt_irreflexive(k@);
        }
        if crate::text::str_equal(h[j].0.as_str(), k.as_str()) {
            let ghost before = h@;
            let (_old_key, mut values) = h.remove(j);
            values.push(v);
            h.insert(j, (k, values));
            proof {
                assert(h@ == before.remove(j as int).insert(j as int, h@[j as int]));
                assert(headers_view(h@) =~= hv.update(j as int, (k@, hv[j as int].1.push(v@)))) by {
                    assert(h@[j as int].1@.map_values(|x: String| x@) =~= before[j as int].1@.map_values(
                        |x: String| x@,
                    ).push(v@));
                }
                assert(hv.subrange(0, j as int) + rest.update(0, (k@, rest[0].1.push(v@))) =~= hv.update(
                    j as int,
                    (k@, hv[j as int].1.push(v@)),
                ));
            }
            return;
        }
        if chars_lt(&kc, &key_j) {
            let mut values: Vec<String> = Vec::new();
            values.push(v);
            let ghost pair = (k@, seq![v@]);
            h.insert(j, (k, values));
            proof {
                assert(values@.map_values(|x: String| x@) =~= seq![v@]);
                assert(headers_view(h@) =~= hv.insert(j as int, pair));
                assert(hv.subrange(0, j as int) + (seq![pair] + rest) =~= hv.insert(j as int, pair));
            }
            return;
        }
        proof {
            assert(rest.drop_first() =~= hv.subrange(j as int + 1, hv.len() as int));
            assert(hv.subrange(0, j as int) + (seq![rest[0]] + rest.drop_first()) =~= hv.subrange(0, j as int + 1)
                + hv.subrange(j as int + 1, hv.len() as int));
        }
        j = j + 1;
    }
    let mut values: Vec<String> = Vec::new();
    values.push(v);
    let ghost pair = (k@, seq![v@]);
    h.push((k, values));
    proof {
        assert(values@.map_values(|x: String| x@) =~= seq![v@]);
        assert(hv.subrange(j as int, hv.len() as int) =~= Seq::<(Seq<char>, Seq<Seq<char>>)>::empty());
        assert(headers_view(h@) =~= hv.push(pair));
        assert(hv.subrange(0, j as int) + seq![pair] =~= hv.push(pair));
    }
}

/// The pieces of `s` between its `\n` characters.
fn split_pieces(s: &Vec<char>) -> (r: Vec<Vec<char>>)
    ensures
        r@.map_values(|p: Vec<char>| p@) == split_lines(s@),
{
    let mut out: Vec<Vec<char>> = Vec::new();
    let mut start: usize = 0;
    let mut i: usize = 0;
    while i < s.len()
        invariant
            start <= i <= s@.len(),
            line_state(s@.subrange(0, i as int)).1 == s@.subrange(start as int, i as int),
            out@.map_values(|p: Vec<char>| p@) == line_state(s@.subrange(0, i as int)).0,
        decreases s@.len() - i,
    {
        proof {
            assert(s@.subrange(0, i as int + 1).drop_last() =~= s@.subrange(0, i as int));
        }
        if s[i] == '\n' {
            let piece = crate::text::sub_vec(s, start, i);
            let ghost before = out@;
            out.push(piece);
            assert(out@.map_values(|p: Vec<char>| p@) =~= before.map_values(|p: Vec<char>| p@).push(piece@));
            start = i + 1;
            assert(s@.subrange(start as int, i as int + 1) =~= seq![]);
        } else {
            assert(s@.subrange(start as int, i as int + 1) =~= s@.subrange(start as int, i as int).push(s@[i as int]));
        }
        i = i + 1;
    }
    let piece = crate::text::sub_vec(s, start, s.len());
    let ghost before = out@;
    out.push(piece);
    assert(out@.map_values(|p: Vec<char>| p@) =~= before.map_values(|p: Vec<char>| p@).push(piece@));
    assert(s@.subrange(0, s@.len() as int) =~= s@);
    out
}

/// The headers of `flat`, sent as `k1\nv1\nk2\nv2...`: keys are lowered,
/// pairs with an empty key skipped, and the values of a key kept in order.
pub fn parse_flat_headers(flat: &str) -> (r: Vec<(String, Vec<String>)>)
    ensures
        headers_view(r@) == spec_parse_flat_headers(flat@),
{
    let s = chars_of(flat);
    let pieces = split_pieces(&s);
    let ghost lines = split_lines(flat@);
    let total = pieces.len();
    let n = total / 2;
    let mut headers: Vec<(String, Vec<String>)> = Vec::new();
    let mut m: usize = 0;
    assert(headers_view(headers@) =~= Seq::<(Seq<char>, Seq<Seq<char>>)>::empty());
    while m < n
        invariant
            lines == pieces@.map_values(|p: Vec<char>| p@),
            total == pieces@.len(),
            n == total / 2,
            m <= n,
            headers_view(headers@) == parse_pairs(lines, m as nat),
        decreases n - m,
    {
        let k = &pieces[2 * m];
        let v = &pieces[2 * m + 1];
        assert(lines[2 * m] == k@);
        assert(lines[2 * m + 1] == v@);
        if k.len() != 0 {
            let key = lower_ascii_string(k, 0, k.len());
            let value = string_of_range(v, 0, v.len());
            assert(k@.subrange(0, k@.len() as int) =~= k@);
            assert(v@.subrange(0, v@.len() as int) =~= v@);
            insert_header_value(&mut headers, key, value);
        }
        m = m + 1;
    }
    headers
}

/// The flat form of `headers`: `key\nvalue\n` for each value of each key, in order.
pub fn flatten_headers(headers: &Vec<(String, Vec<String>)>) -> (r: String)
    ensures
        r@ == spec_flatten_headers(headers_view(headers@)),
{
    let ghost hv = headers_view(headers@);
    let mut flat = String::new();
    let mut i: usize = 0;
    while i < headers.len()
        invariant
            hv == headers_view(headers@),
            i <= headers@.len(),
            flat@ == spec_flatten_headers(hv.subrange(0, i as int)),
        decreases headers@.len() - i,
    {
        let key = &headers[i].0;
        let values = &headers[i].1;
        let ghost start = flat@;
        let ghost vv = values@.map_values(|x: String| x@);
        let mut j: usize = 0;
        while j < values.len()
            invariant
                vv == values@.map_values(|x: String| x@),
                j <= values@.len(),
                flat@ == start + flatten_values(key@, vv.subrange(0, j as int)),
            decreases values@.len() - j,
        {
            flat.append(key.as_str());
            flat.push('\n');
            flat.append(values[j].as_str());
            flat.push('\n');
            proof {
                let q = vv.subrange(0, j as int + 1);
                assert(q.drop_last() =~= vv.subrange(0, j as int));
                assert(q.last() == values@[j as int]@);
            }
            assert(flat@ =~= start + flatten_values(key@, vv.subrange(0, j as int + 1)));
            j = j + 1;
        }
        proof {
            assert(vv.subrange(0, vv.len() as int) =~= vv);
            let q = hv.subrange(0, i as int + 1);
            assert(q.drop_last() =~= hv.subrange(0, i as int));
            assert(q.last() == (key@, vv));
        }
        i = i + 1;
    }
    assert(hv.subrange(0, hv.len() as int) =~= hv);
    flat
}

proof fn lemma_insert_header_sorted(h: Seq<(Seq<char>, Seq<Seq<char>>)>, k: Seq<char>, v: Seq<char>)
    requires
        keys_sorted(h),
    ensures
        keys_sorted(insert_header(h, k, v)),
        forall|i: int| 0 <= i < insert_header(h, k, v).len() ==> (#[trigger] insert_header(h, k, v)[i]).0 == k
            || exists|j: int| 0 <= j < h.len() && h[j].0 == insert_header(h, k, v)[i].0,
    decreases h.len(),
{
    let r = insert_header(h, k, v);
    if h.len() == 0 {
    } else if h[0].0 == k {
        assert forall|i: int, j: int| 0 <= i < j < r.len() implies seq_lt(#[trigger] r[i].0, #[trigger] r[j].0) by {
            assert(r[i].0 == h[i].0);
            assert(r[j].0 == h[j].0);
        }
        assert forall|i: int| 0 <= i < r.len() implies (#[trigger] r[i]).0 == k || exists|j: int| 0 <= j < h.len() && h[j].0 == r[i].0 by {
            assert(r[i].0 == h[i].0);
        }
    } else if seq_lt(k, h[0].0) {
        assert forall|i: int, j: int| 0 <= i < j < r.len() implies seq_lt(#[trigger] r[i].0, #[trigger] r[j].0) by {
            if i == 0 {
                assert(r[j] == h[j - 1]);
                if j > 1 {
                    assert(seq_lt(h[0].0, h[j - 1].0));
                    lemma_lt_transitive(k, h[0].0, h[j - 1].0);
                }
            } else {
                assert(r[i] == h[i - 1]);
                assert(r[j] == h[j - 1]);
            }
        }
        assert forall|i: int| 0 <= i < r.len() implies (#[trigger] r[i]).0 == k || exists|j: int| 0 <= j < h.len() && h[j].0 == r[i].0 by {
            if i > 0 {
                assert(r[i] == h[i - 1]);
            }
        }
    } else {
        let t = h.drop_first();
        assert(keys_sorted(t)) by {
            assert forall|i: int, j: int| 0 <= i < j < t.len() implies seq_lt(#[trigger] t[i].0, #[trigger] t[j].0) by {
                assert(t[i] == h[i + 1]);
                assert(t[j] == h[j + 1]);
            }
        }
        lemma_insert_header_sorted(t, k, v);
        lemma_lt_total(k, h[0].0);
        let rt = insert_header(t, k, v);
        assert(r == seq![h[0]] + rt);
        assert forall|i: int, j: int| 0 <= i < j < r.len() implies seq_lt(#[trigger] r[i].0, #[trigger] r[j].0) by {
            if i == 0 {
                assert(r[j] == rt[j - 1]);
                let x = rt[j - 1].0;
                if x == k {
                } else {
                    let q = choose|q: int| 0 <= q < t.len() && t[q].0 == x;
                    assert(t[q] == h[q + 1]);
                }
            } else {
                assert(r[i] == rt[i - 1]);
                assert(r[j] == rt[j - 1]);
            }
        }
        assert forall|i: int| 0 <= i < r.len() implies (#[trigger] r[i]).0 == k || exists|j: int| 0 <= j < h.len() && h[j].0 == r[i].0 by {
            if i == 0 {
                assert(h[0].0 == r[0].0);
            } else {
                assert(r[i] == rt[i - 1]);
                if rt[i - 1].0 != k {
                    let q = choose|q: int| 0 <= q < t.len() && t[q].0 == rt[i - 1].0;
                    assert(t[q] == h[q + 1]);
                }
            }
        }
    }
}

proof fn lemma_parse_pairs_sorted(lines: Seq<Seq<char>>, n: nat)
    ensures
        keys_sorted(parse_pairs(lines, n)),
    decreases n,
{
    if !(n == 0 || 2 * n > lines.len()) {
        lemma_parse_pairs_sorted(lines, (n - 1) as nat);
        if lines[2 * n - 2].len() != 0 {
            lemma_insert_header_sorted(parse_pairs(lines, (n - 1) as nat), lower_ascii_chars(lines[2 * n - 2]), lines[2 * n - 1]);
        }
    }
}

/// Parsed headers come out with their keys in strictly increasing order,
/// as a `BTreeMap` keeps them: each key once.
pub proof fn law_parsed_headers_are_sorted(flat: Seq<char>)
    ensures
        keys_sorted(spec_parse_flat_headers(flat)),
{
    lemma_parse_pairs_sorted(split_lines(flat), split_lines(flat).len() / 2);
}

// ------------------------------------------------------------------ the request registry

/// A request the OpenHarmony bridge is serving: how to answer it and what
/// has arrived so far.
pub struct LiveHttpRequest {
    pub request_id: u64,
    pub metadata_id: LiveId,
    pub is_streaming: bool,
    pub status_code: u16,
    pub headers: Vec<(String, Vec<String>)>,
    pub body_acc: Vec<u8>,
}

/// A response handed back to the requester.
pub struct OhHttpResponse {
    pub metadata_id: LiveId,
    pub status_code: u16,
    pub headers: Vec<(String, Vec<String>)>,
    pub body: Option<Vec<u8>>,
}

/// What the bridge reports to the requester of `request_id`.
pub enum OhHttpEvent {
    StreamChunk { request_id: u64, response: OhHttpResponse },
    StreamComplete { request_id: u64, response: OhHttpResponse },
    Response { request_id: u64, response: OhHttpResponse },
    Error { request_id: u64, message: String, metadata_id: LiveId },
}

/// A request being served, as plain values: id, metadata id, streaming,
/// status, headers and the body gathered so far.
pub open spec fn live_view(r: LiveHttpRequest) -> (u64, LiveId, bool, u16, Seq<(Seq<char>, Seq<Seq<char>>)>, Seq<u8>) {
    (r.request_id, r.metadata_id, r.is_streaming, r.status_code, headers_view(r.headers@), r.body_acc@)
}

/// The requests being served, as plain values.
pub open spec fn lives_view(v: Seq<LiveHttpRequest>) -> Seq<(u64, LiveId, bool, u16, Seq<(Seq<char>, Seq<Seq<char>>)>, Seq<u8>)> {
    v.map_values(|r: LiveHttpRequest| live_view(r))
}

/// The index of the first request being served with id `id`.
pub open spec fn live_index(v: Seq<(u64, LiveId, bool, u16, Seq<(Seq<char>, Seq<Seq<char>>)>, Seq<u8>)>, id: u64) -> Option<int>
    decreases v.len(),
{
    if v.len() == 0 {
        None
    } else {
        match live_index(v.drop_last(), id) {
            Some(i) => Some(i),
            None => if v.last().0 == id {
                Some(v.len() - 1)
            } else {
                None
            },
        }
    }
}

proof fn lemma_live_index(v: Seq<(u64, LiveId, bool, u16, Seq<(Seq<char>, Seq<Seq<char>>)>, Seq<u8>)>, id: u64)
    ensures
        live_index(v, id) matches Some(i) ==> 0 <= i < v.len() && v[i].0 == id && forall|j: int|
            0 <= j < i ==> (#[trigger] v[j]).0 != id,
        live_index(v, id) is None ==> forall|j: int| 0 <= j < v.len() ==> (#[trigger] v[j]).0 != id,
    decreases v.len(),
{
    if v.len() > 0 {
        lemma_live_index(v.drop_last(), id);
        assert forall|j: int| 0 <= j < v.len() - 1 implies v[j] == v.drop_last()[j] by {}
    }
}

/// The id that the bridge sends as decimal text.
pub open spec fn bridge_id(request_id: Seq<char>) -> Option<u64> {
    crate::text::spec_parse_u64(request_id)
}

/// The id that the bridge sends as decimal text.
fn parse_bridge_id(request_id: &str) -> (r: Option<u64>)
    ensures
        r == bridge_id(request_id@),
{
    let id_chars = chars_of(request_id);
    assert(id_chars@.subrange(0, id_chars@.len() as int) =~= request_id@);
    crate::text::parse_u64_range(&id_chars, 0, id_chars.len())
}

/// The requests the OpenHarmony network bridge is serving.
pub struct OhosNetworkBackend {
    pub live: Vec<LiveHttpRequest>,
}

impl OhosNetworkBackend {
    /// A bridge serving nothing.
    pub fn new() -> (r: Self)
        ensures
            r.live@.len() == 0,
    {
        OhosNetworkBackend { live: Vec::new() }
    }

    fn find_live(&self, request_id: u64) -> (r: Option<usize>)
        ensures
            match live_index(lives_view(self.live@), request_id) {
                Some(i) => r == Some(i as usize),
                None => r is None,
            },
    {
        proof {
            lemma_live_index(lives_view(self.live@), request_id);
        }
        let mut i: usize = 0;
        while i < self.live.len()
            invariant
                i <= self.live@.len(),
                forall|j: int| 0 <= j < i ==> (#[trigger] self.live@[j]).request_id != request_id,
            decreases self.live@.len() - i,
        {
            assert(lives_view(self.live@)[i as int].0 == self.live@[i as int].request_id);
            if self.live[i].request_id == request_id {
                proof {
                    lemma_live_index(lives_view(self.live@), request_id);
                    assert forall|j: int| 0 <= j < i implies (#[trigger] lives_view(self.live@)[j]).0 != request_id by {
                        assert(lives_view(self.live@)[j].0 == self.live@[j].request_id);
                    }
                }
                return Some(i);
            }
            i = i + 1;
        }
        proof {
            lemma_live_index(lives_view(self.live@), request_id);
            assert forall|j: int| 0 <= j < self.live@.len() implies (#[trigger] lives_view(self.live@)[j]).0 != request_id by {
                assert(lives_view(self.live@)[j].0 == self.live@[j].request_id);
            }
        }
        None
    }

    /// Starts serving `request_id`: no status, headers or body yet (an entry
    /// with the same id is replaced).
    pub fn http_start(&mut self, request_id: u64, metadata_id: LiveId, is_streaming: bool)
        ensures
            lives_view(final(self).live@) == ({
                let fresh = (request_id, metadata_id, is_streaming, 0u16, Seq::<(Seq<char>, Seq<Seq<char>>)>::empty(), Seq::<u8>::empty());
                match live_index(lives_view(old(self).live@), request_id) {
                    Some(i) => lives_view(old(self).live@).update(i, fresh),
                    None => lives_view(old(self).live@).push(fresh),
                }
            }),
    {
        let fresh = LiveHttpRequest {
            request_id,
            metadata_id,
            is_streaming,
            status_code: 0,
            headers: Vec::new(),
            body_acc: Vec::new(),
        };
        assert(headers_view(fresh.headers@) =~= Seq::<(Seq<char>, Seq<Seq<char>>)>::empty());
        assert(fresh.body_acc@ =~= Seq::<u8>::empty());
        let ghost before = self.live@;
        let _count = self.live.len();
        proof {
            lemma_live_index(lives_view(self.live@), request_id);
        }
        match self.find_live(request_id) {
            Some(i) => {
                self.live.set(i, fresh);
                assert(lives_view(self.live@) =~= lives_view(before).update(i as int, live_view(fresh)));
            },
            None => {
                self.live.push(fresh);
                assert(lives_view(self.live@) =~= lives_view(before).push(live_view(fresh)));
            },
        }
    }

    /// Stops serving `request_id`; later callbacks about it do nothing.
    pub fn http_cancel(&mut self, request_id: u64)
        ensures
            lives_view(final(self).live@) == cancelled(lives_view(old(self).live@), request_id),
    {
        let ghost before = self.live@;
        let _count = self.live.len();
        proof {
            lemma_live_index(lives_view(self.live@), request_id);
        }
        if let Some(i) = self.find_live(request_id) {
            let _gone = self.live.remove(i);
            assert(lives_view(self.live@) =~= lives_view(before).remove(i as int));
        }
    }

    /// The headers callback: a status other than 0 is kept (as `u16`), and a
    /// non-empty header list replaces the headers; ids not being served are ignored.
    pub fn handle_http_headers(&mut self, request_id: &str, status_code: u32, headers_flat: &str)
        ensures
            lives_view(final(self).live@) == match bridge_id(request_id@) {
                Some(id) => match live_index(lives_view(old(self).live@), id) {
                    Some(i) => {
                        let e = lives_view(old(self).live@)[i];
                        lives_view(old(self).live@).update(
                            i,
                            (
                                e.0,
                                e.1,
                                e.2,
                                if status_code != 0 { status_code as u16 } else { e.3 },
                                if headers_flat@.len() > 0 { spec_parse_flat_headers(headers_flat@) } else { e.4 },
                                e.5,
                            ),
                        )
                    },
                    None => lives_view(old(self).live@),
                },
                None => lives_view(old(self).live@),
            },
    {
        let id = match parse_bridge_id(request_id) {
            Some(id) => id,
            None => {
                return;
            },
        };
        let ghost before = self.live@;
        let _count = self.live.len();
        proof {
            lemma_live_index(lives_view(self.live@), id);
        }
        if let Some(i) = self.find_live(id) {
            let mut e = self.live.remove(i);
            if status_code != 0 {
                e.status_code = status_code as u16;
            }
            if !headers_flat.is_empty() {
                e.headers = parse_flat_headers(headers_flat);
            }
            self.live.insert(i, e);
            assert(lives_view(self.live@) =~= lives_view(before).update(i as int, live_view(e)));
        }
    }
}

/// A response as plain values: metadata id, status, headers and body.
pub open spec fn response_view(r: OhHttpResponse) -> (LiveId, u16, Seq<(Seq<char>, Seq<Seq<char>>)>, Option<Seq<u8>>) {
    (r.metadata_id, r.status_code, headers_view(r.headers@), match r.body {
        Some(b) => Some(b@),
        None => None,
    })
}

/// What the bridge reports, as plain values.
pub enum OhEventView {
    StreamChunk { request_id: u64, response: (LiveId, u16, Seq<(Seq<char>, Seq<Seq<char>>)>, Option<Seq<u8>>) },
    StreamComplete { request_id: u64, response: (LiveId, u16, Seq<(Seq<char>, Seq<Seq<char>>)>, Option<Seq<u8>>) },
    Response { request_id: u64, response: (LiveId, u16, Seq<(Seq<char>, Seq<Seq<char>>)>, Option<Seq<u8>>) },
    Error { request_id: u64, message: Seq<char>, metadata_id: LiveId },
}

/// An optional event as plain values.
pub open spec fn event_view(e: Option<OhHttpEvent>) -> Option<OhEventView> {
    match e {
        Some(OhHttpEvent::StreamChunk { request_id, response }) => Some(
            OhEventView::StreamChunk { request_id, response: response_view(response) },
        ),
        Some(OhHttpEvent::StreamComplete { request_id, response }) => Some(
            OhEventView::StreamComplete { request_id, response: response_view(response) },
        ),
        Some(OhHttpEvent::Response { request_id, response }) => Some(
            OhEventView::Response { request_id, response: response_view(response) },
        ),
        Some(OhHttpEvent::Error { request_id, message, metadata_id }) => Some(
            OhEventView::Error { request_id, message: message@, metadata_id },
        ),
        None => None,
    }
}

/// The requests being served, as plain values.
pub type LivesView = Seq<(u64, LiveId, bool, u16, Seq<(Seq<char>, Seq<Seq<char>>)>, Seq<u8>)>;

/// The bridge after a body chunk for the request `id`, and what it reports:
/// a streaming request passes the chunk on at once, another gathers it.
pub open spec fn chunk_step(s: LivesView, id: Option<u64>, bytes: Seq<u8>) -> (LivesView, Option<OhEventView>) {
    match id {
        Some(id) => match live_index(s, id) {
            Some(i) => {
                let e = s[i];
                if e.2 {
                    (s, Some(OhEventView::StreamChunk { request_id: id, response: (e.1, e.3, seq![], Some(bytes)) }))
                } else {
                    (s.update(i, (e.0, e.1, e.2, e.3, e.4, e.5 + bytes)), None)
                }
            },
            None => (s, None),
        },
        None => (s, None),
    }
}

/// The bridge after the request `id` completed, and what it reports: the
/// request is no longer served; a streaming one ends its stream, another
/// answers with its gathered body.
pub open spec fn complete_step(s: LivesView, id: Option<u64>) -> (LivesView, Option<OhEventView>) {
    match id {
        Some(id) => match live_index(s, id) {
            Some(i) => {
                let e = s[i];
                if e.2 {
                    (s.remove(i), Some(OhEventView::StreamComplete { request_id: id, response: (e.1, e.3, e.4, None) }))
                } else {
                    (s.remove(i), Some(OhEventView::Response { request_id: id, response: (e.1, e.3, e.4, Some(e.5)) }))
                }
            },
            None => (s, None),
        },
        None => (s, None),
    }
}

/// The bridge after the request `id` failed with `message`, and what it reports.
pub open spec fn error_step(s: LivesView, id: Option<u64>, message: Seq<char>) -> (LivesView, Option<OhEventView>) {
    match id {
        Some(id) => match live_index(s, id) {
            Some(i) => (s.remove(i), Some(OhEventView::Error { request_id: id, message, metadata_id: s[i].1 })),
            None => (s, None),
        },
        None => (s, None),
    }
}

impl OhosNetworkBackend {
    /// The body chunk callback (see [`chunk_step`]).
    pub fn handle_http_chunk(&mut self, request_id: &str, bytes: &[u8]) -> (r: Option<OhHttpEvent>)
        ensures
            (lives_view(final(self).live@), event_view(r)) == chunk_step(
                lives_view(old(self).live@),
                bridge_id(request_id@),
                bytes@,
            ),
    {
        let id = match parse_bridge_id(request_id) {
            Some(id) => id,
            None => return None,
        };
        let ghost before = self.live@;
        let _count = self.live.len();
        proof {
            lemma_live_index(lives_view(self.live@), id);
        }
        let i = match self.find_live(id) {
            Some(i) => i,
            None => return None,
        };
        if self.live[i].is_streaming {
            let response = OhHttpResponse {
                metadata_id: self.live[i].metadata_id,
                status_code: self.live[i].status_code,
                headers: Vec::new(),
                body: Some(vstd::slice::slice_to_vec(bytes)),
            };
            assert(headers_view(response.headers@) =~= Seq::<(Seq<char>, Seq<Seq<char>>)>::empty());
            return Some(OhHttpEvent::StreamChunk { request_id: id, response });
        }
        let mut e = self.live.remove(i);
        let ghost acc0 = e.body_acc@;
        let ghost e0 = live_view(e);
        let ghost after_remove = self.live@;
        let mut k: usize = 0;
        while k < bytes.len()
            invariant
                k <= bytes@.len(),
                self.live@ == after_remove,
                e.request_id == e0.0,
                e.metadata_id == e0.1,
                e.is_streaming == e0.2,
                e.status_code == e0.3,
                headers_view(e.headers@) == e0.4,
                e.body_acc@ == acc0 + bytes@.subrange(0, k as int),
            decreases bytes@.len() - k,
        {
            e.body_acc.push(bytes[k]);
            assert(e.body_acc@ =~= acc0 + bytes@.subrange(0, k as int + 1));
            k = k + 1;
        }
        assert(bytes@.subrange(0, bytes@.len() as int) =~= bytes@);
        self.live.insert(i, e);
        assert(lives_view(self.live@) =~= lives_view(before).update(i as int, live_view(e)));
        None
    }

    /// The completion callback (see [`complete_step`]).
    pub fn handle_http_complete(&mut self, request_id: &str) -> (r: Option<OhHttpEvent>)
        ensures
            (lives_view(final(self).live@), event_view(r)) == complete_step(
                lives_view(old(self).live@),
                bridge_id(request_id@),
            ),
    {
        let id = match parse_bridge_id(request_id) {
            Some(id) => id,
            None => return None,
        };
        let ghost before = self.live@;
        let _count = self.live.len();
        proof {
            lemma_live_index(lives_view(self.live@), id);
        }
        let i = match self.find_live(id) {
            Some(i) => i,
            None => return None,
        };
        let e = self.live.remove(i);
        assert(lives_view(self.live@) =~= lives_view(before).remove(i as int));
        if e.is_streaming {
            Some(
                OhHttpEvent::StreamComplete {
                    request_id: id,
                    response: OhHttpResponse {
                        metadata_id: e.metadata_id,
                        status_code: e.status_code,
                        headers: e.headers,
                        body: None,
                    },
                },
            )
        } else {
            Some(
                OhHttpEvent::Response {
                    request_id: id,
                    response: OhHttpResponse {
                        metadata_id: e.metadata_id,
                        status_code: e.status_code,
                        headers: e.headers,
                        body: Some(e.body_acc),
                    },
                },
            )
        }
    }

    /// The error callback (see [`error_step`]).
    pub fn handle_http_error(&mut self, request_id: &str, message: String) -> (r: Option<OhHttpEvent>)
        ensures
            (lives_view(final(self).live@), event_view(r)) == error_step(
                lives_view(old(self).live@),
                bridge_id(request_id@),
                message@,
            ),
    {
        let id = match parse_bridge_id(request_id) {
            Some(id) => id,
            None => return None,
        };
        let ghost before = self.live@;
        let _count = self.live.len();
        proof {
            lemma_live_index(lives_view(self.live@), id);
        }
        let i = match self.find_live(id) {
            Some(i) => i,
            None => return None,
        };
        let e = self.live.remove(i);
        assert(lives_view(self.live@) =~= lives_view(before).remove(i as int));
        Some(OhHttpEvent::Error { request_id: id, message, metadata_id: e.metadata_id })
    }
}

/// Whether no two requests being served share an id.
pub open spec fn distinct_live_ids(s: LivesView) -> bool {
    forall|i: int, j: int| 0 <= i < j < s.len() ==> #[trigger] s[i].0 != #[trigger] s[j].0
}

/// The requests being served after `id` is cancelled.
pub open spec fn cancelled(s: LivesView, id: u64) -> LivesView {
    match live_index(s, id) {
        Some(i) => s.remove(i),
        None => s,
    }
}

proof fn lemma_cancelled_has_no_id(s: LivesView, id: u64)
    requires
        distinct_live_ids(s),
    ensures
        live_index(cancelled(s, id), id) is None,
{
    lemma_live_index(s, id);
    let c = cancelled(s, id);
    match live_index(s, id) {
        Some(i) => {
            assert forall|j: int| 0 <= j < c.len() implies (#[trigger] c[j]).0 != id by {
                let sj = if j < i { j } else { j + 1 };
                assert(c[j] == s[sj]);
            }
        },
        None => {},
    }
    lemma_live_index(c, id);
    if live_index(c, id) is Some {
        let k = live_index(c, id)->0;
        assert(c[k].0 == id);
    }
}

/// Once a request is cancelled, its chunks, completion and error callbacks,
/// racing the cancel, change nothing and report nothing.
pub proof fn law_callbacks_after_cancel_do_nothing(s: LivesView, id: u64, bytes: Seq<u8>, message: Seq<char>)
    requires
        distinct_live_ids(s),
    ensures
        chunk_step(cancelled(s, id), Some(id), bytes) == (cancelled(s, id), None::<OhEventView>),
        complete_step(cancelled(s, id), Some(id)) == (cancelled(s, id), None::<OhEventView>),
        error_step(cancelled(s, id), Some(id), message) == (cancelled(s, id), None::<OhEventView>),
{
    lemma_cancelled_has_no_id(s, id);
}

} // verus!
