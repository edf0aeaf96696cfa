use vstd::prelude::*;
use crate::octos::{line_state, split_lines};
use crate::oh_network::{
    flatten_values, insert_header, keys_sorted, lower_ascii_chars, parse_pairs, seq_lt,
    spec_flatten_headers, spec_parse_flat_headers, lemma_lt_irreflexive, lemma_lt_total,
};

verus! {

/// Whether `s` holds no `\n`.
pub open spec fn no_newline(s: Seq<char>) -> bool {
    forall|j: int| 0 <= j < s.len() ==> s[j] != '\n'
}

/// Headers that survive the flat form unchanged: keys in increasing order,
/// each key non-empty and already in lower case, each key with at least one
/// value, and no `\n` in any key or value.
pub open spec fn flat_form_safe(h: Seq<(Seq<char>, Seq<Seq<char>>)>) -> bool {
    &&& keys_sorted(h)
    &&& forall|i: int| 0 <= i < h.len() ==> {
        &&& (#[trigger] h[i]).0.len() > 0
        &&& lower_ascii_chars(h[i].0) == h[i].0
        &&& h[i].1.len() > 0
        &&& no_newline(h[i].0)
        &&& forall|j: int| 0 <= j < h[i].1.len() ==> no_newline(#[trigger] h[i].1[j])
    }
}

spec fn no_newlines(lines: Seq<Seq<char>>) -> bool {
    forall|i: int| 0 <= i < lines.len() ==> no_newline(#[trigger] lines[i])
}

/// The lines `key, value, key, value, ...` for each of `values`.
spec fn value_lines(key: Seq<char>, values: Seq<Seq<char>>) -> Seq<Seq<char>>
    decreases values.len(),
{
    if values.len() == 0 {
        seq![]
    } else {
        value_lines(key, values.drop_last()) + seq![key, values.last()]
    }
}

/// The lines of all of `h`, key by key.
spec fn header_lines(h: Seq<(Seq<char>, Seq<Seq<char>>)>) -> Seq<Seq<char>>
    decreases h.len(),
{
    if h.len() == 0 {
        seq![]
    } else {
        header_lines(h.drop_last()) + value_lines(h.last().0, h.last().1)
    }
}

/// How many values `h` holds in all.
spec fn value_count(h: Seq<(Seq<char>, Seq<Seq<char>>)>) -> nat
    decreases h.len(),
{
    if h.len() == 0 {
        0
    } else {
        value_count(h.drop_last()) + h.last().1.len()
    }
}

/// Each of `lines` followed by `\n`.
spec fn join_lines(lines: Seq<Seq<char>>) -> Seq<char>
    decreases lines.len(),
{
    if lines.len() == 0 {
        seq![]
    } else {
        join_lines(lines.drop_last()) + lines.last() + seq!['\n']
    }
}

proof fn lemma_join_append(a: Seq<Seq<char>>, b: Seq<Seq<char>>)
    ensures
        join_lines(a + b) == join_lines(a) + join_lines(b),
    decreases b.len(),
{
    if b.len() == 0 {
        assert(a + b =~= a);
        assert(join_lines(a) + join_lines(b) =~= join_lines(a));
    } else {
        lemma_join_append(a, b.drop_last());
        assert((a + b).drop_last() =~= a + b.drop_last());
        assert((a + b).last() == b.last());
        assert(join_lines(a + b) =~= join_lines(a) + join_lines(b));
    }
}

proof fn lemma_join_pair(k: Seq<char>, v: Seq<char>)
    ensures
        join_lines(seq![k, v]) == k + seq!['\n'] + v + seq!['\n'],
{
    assert(seq![k, v].drop_last() =~= seq![k]);
    assert(seq![k].drop_last() =~= Seq::<Seq<char>>::empty());
    assert(join_lines(Seq::<Seq<char>>::empty()) == Seq::<char>::empty());
    assert(join_lines(seq![k]) =~= k + seq!['\n']);
}

proof fn lemma_flatten_values_join(k: Seq<char>, vs: Seq<Seq<char>>)
    ensures
        flatten_values(k, vs) == join_lines(value_lines(k, vs)),
    decreases vs.len(),
{
    if vs.len() > 0 {
        lemma_flatten_values_join(k, vs.drop_last());
        lemma_join_append(value_lines(k, vs.drop_last()), seq![k, vs.last()]);
        lemma_join_pair(k, vs.last());
        assert(flatten_values(k, vs) =~= join_lines(value_lines(k, vs)));
    }
}

proof fn lemma_flatten_join(h: Seq<(Seq<char>, Seq<Seq<char>>)>)
    ensures
        spec_flatten_headers(h) == join_lines(header_lines(h)),
    decreases h.len(),
{
    if h.len() > 0 {
        lemma_flatten_join(h.drop_last());
        lemma_flatten_values_join(h.last().0, h.last().1);
        lemma_join_append(header_lines(h.drop_last()), value_lines(h.last().0, h.last().1));
    }
}

proof fn lemma_line_state_append(s: Seq<char>, t: Seq<char>)
    requires
        no_newline(t),
    ensures
        line_state(s + t) == (line_state(s).0, line_state(s).1 + t),
    decreases t.len(),
{
    if t.len() == 0 {
        assert(s + t =~= s);
        assert(line_state(s).1 + t =~= line_state(s).1);
    } else {
        lemma_line_state_append(s, t.drop_last());
        assert((s + t).drop_last() =~= s + t.drop_last());
        assert((s + t).last() == t.last());
        assert((line_state(s).1 + t.drop_last()).push(t.last()) =~= line_state(s).1 + t);
    }
}

proof fn lemma_line_state_join(lines: Seq<Seq<char>>)
    requires
        no_newlines(lines),
    ensures
        line_state(join_lines(lines)) == (lines, Seq::<char>::empty()),
    decreases lines.len(),
{
    if lines.len() == 0 {
        assert(line_state(join_lines(lines)).0 =~= lines);
    } else {
        let init = lines.drop_last();
        lemma_line_state_join(init);
        let s = join_lines(init) + lines.last();
        assert(no_newline(lines[lines.len() - 1]));
        lemma_line_state_append(join_lines(init), lines.last());
        assert(Seq::<char>::empty() + lines.last() =~= lines.last());
        assert((s + seq!['\n']).drop_last() =~= s);
        assert(init.push(lines.last()) =~= lines);
    }
}

proof fn lemma_parse_prefix(a: Seq<Seq<char>>, b: Seq<Seq<char>>, n: nat)
    requires
        2 * n <= a.len(),
    ensures
        parse_pairs(a + b, n) == parse_pairs(a, n),
    decreases n,
{
    if n > 0 {
        lemma_parse_prefix(a, b, (n - 1) as nat);
        assert((a + b)[2 * n - 2] == a[2 * n - 2]);
        assert((a + b)[2 * n - 1] == a[2 * n - 1]);
    }
}

proof fn lemma_value_lines(k: Seq<char>, vs: Seq<Seq<char>>)
    ensures
        value_lines(k, vs).len() == 2 * vs.len(),
    decreases vs.len(),
{
    if vs.len() > 0 {
        lemma_value_lines(k, vs.drop_last());
    }
}

proof fn lemma_value_line_at(k: Seq<char>, vs: Seq<Seq<char>>, i: int)
    requires
        0 <= i < vs.len(),
    ensures
        value_lines(k, vs)[2 * i] == k,
        value_lines(k, vs)[2 * i + 1] == vs[i],
    decreases vs.len(),
{
    let p = value_lines(k, vs.drop_last());
    lemma_value_lines(k, vs.drop_last());
    let q = value_lines(k, vs);
    assert(q == p + seq![k, vs.last()]);
    if i < vs.len() - 1 {
        lemma_value_line_at(k, vs.drop_last(), i);
        assert(vs.drop_last()[i] == vs[i]);
        assert(q[2 * i] == p[2 * i]);
        assert(q[2 * i + 1] == p[2 * i + 1]);
    } else {
        assert(q[2 * i] == k);
        assert(q[2 * i + 1] == vs.last());
    }
}

proof fn lemma_header_lines(h: Seq<(Seq<char>, Seq<Seq<char>>)>)
    requires
        flat_form_safe(h),
    ensures
        header_lines(h).len() == 2 * value_count(h),
        no_newlines(header_lines(h)),
    decreases h.len(),
{
    if h.len() > 0 {
        let hp = h.drop_last();
        assert(flat_form_safe(hp)) by {
            assert forall|i: int| 0 <= i < hp.len() implies #[trigger] hp[i] == h[i] by {}
        }
        lemma_header_lines(hp);
        let k = h.last().0;
        let vs = h.last().1;
        lemma_value_lines(k, vs);
        assert(h[h.len() - 1] == h.last());
        let hl = header_lines(h);
        assert(hl =~= header_lines(hp) + value_lines(k, vs));
        assert forall|i: int| 0 <= i < hl.len() implies no_newline(#[trigger] hl[i]) by {
            if i < header_lines(hp).len() {
                assert(hl[i] == header_lines(hp)[i]);
            } else {
                let j = i - header_lines(hp).len();
                assert(hl[i] == value_lines(k, vs)[j]);
                let q = j / 2;
                lemma_value_line_at(k, vs, q);
                if j % 2 == 0 {
                    assert(j == 2 * q);
                    assert(no_newline(h[h.len() - 1].0));
                } else {
                    assert(j == 2 * q + 1);
                    assert(no_newline(h[h.len() - 1].1[q]));
                }
            }
        }
    }
}

/// Adding `v` under a key larger than every key of `h` appends the key.
proof fn lemma_insert_new_last(h: Seq<(Seq<char>, Seq<Seq<char>>)>, k: Seq<char>, v: Seq<char>)
    requires
        forall|i: int| 0 <= i < h.len() ==> seq_lt(#[trigger] h[i].0, k),
    ensures
        insert_header(h, k, v) == h.push((k, seq![v])),
    decreases h.len(),
{
    if h.len() == 0 {
        assert(seq![(k, seq![v])] =~= h.push((k, seq![v])));
    } else {
        assert(seq_lt(h[0].0, k));
        lemma_lt_irreflexive(k);
        lemma_lt_total(h[0].0, k);
        let t = h.drop_first();
        assert forall|i: int| 0 <= i < t.len() implies seq_lt(#[trigger] t[i].0, k) by {
            assert(t[i] == h[i + 1]);
        }
        lemma_insert_new_last(t, k, v);
        assert(seq![h[0]] + t.push((k, seq![v])) =~= h.push((k, seq![v])));
    }
}

/// Adding `v` under the last key, larger than every other, extends its values.
proof fn lemma_insert_last_key(h: Seq<(Seq<char>, Seq<Seq<char>>)>, k: Seq<char>, vs: Seq<Seq<char>>, v: Seq<char>)
    requires
        forall|i: int| 0 <= i < h.len() ==> seq_lt(#[trigger] h[i].0, k),
    ensures
        insert_header(h.push((k, vs)), k, v) == h.push((k, vs.push(v))),
    decreases h.len(),
{
    let g = h.push((k, vs));
    if h.len() == 0 {
        assert(g[0].0 == k);
        assert(g.update(0, (k, g[0].1.push(v))) =~= h.push((k, vs.push(v))));
    } else {
        assert(g[0] == h[0]);
        assert(seq_lt(h[0].0, k));
        lemma_lt_irreflexive(k);
        lemma_lt_total(h[0].0, k);
        let t = h.drop_first();
        assert forall|i: int| 0 <= i < t.len() implies seq_lt(#[trigger] t[i].0, k) by {
            assert(t[i] == h[i + 1]);
        }
        assert(g.drop_first() =~= t.push((k, vs)));
        lemma_insert_last_key(t, k, vs, v);
        assert(seq![h[0]] + t.push((k, vs.push(v))) =~= h.push((k, vs.push(v))));
    }
}

/// Reading the first `m` values of the last key `k` after the lines of `hp`.
proof fn lemma_parse_key_block(
    hp: Seq<(Seq<char>, Seq<Seq<char>>)>,
    k: Seq<char>,
    vs: Seq<Seq<char>>,
    extra: Seq<Seq<char>>,
    m: nat,
)
    requires
        1 <= m <= vs.len(),
        k.len() > 0,
        lower_ascii_chars(k) == k,
        forall|i: int| 0 <= i < hp.len() ==> seq_lt(#[trigger] hp[i].0, k),
        header_lines(hp).len() == 2 * value_count(hp),
        parse_pairs(header_lines(hp) + (value_lines(k, vs) + extra), value_count(hp)) == hp,
    ensures
        parse_pairs(header_lines(hp) + value_lines(k, vs) + extra, value_count(hp) + m) == hp.push(
            (k, vs.take(m as int)),
        ),
    decreases m,
{
    let lines = header_lines(hp) + value_lines(k, vs) + extra;
    assert(lines =~= header_lines(hp) + (value_lines(k, vs) + extra));
    lemma_value_lines(k, vs);
    let c = value_count(hp);
    let n = c + m;
    let hl = header_lines(hp).len();
    lemma_value_line_at(k, vs, m - 1);
    assert(lines[2 * n - 2] == value_lines(k, vs)[2 * (m - 1)]);
    assert(lines[2 * n - 1] == value_lines(k, vs)[2 * (m - 1) + 1]);
    assert(lines[2 * n - 2] == k);
    assert(lines[2 * n - 1] == vs[m - 1]);
    if m == 1 {
        lemma_insert_new_last(hp, k, vs[0]);
        assert(vs.take(1) =~= seq![vs[0]]);
    } else {
        lemma_parse_key_block(hp, k, vs, extra, (m - 1) as nat);
        lemma_insert_last_key(hp, k, vs.take(m - 1), vs[m - 1]);
        assert(vs.take(m - 1).push(vs[m - 1]) =~= vs.take(m as int));
    }
}

proof fn lemma_parse_header_lines(h: Seq<(Seq<char>, Seq<Seq<char>>)>, extra: Seq<Seq<char>>)
    requires
        flat_form_safe(h),
    ensures
        parse_pairs(header_lines(h) + extra, value_count(h)) == h,
    decreases h.len(),
{
    if h.len() == 0 {
        assert(parse_pairs(header_lines(h) + extra, 0) =~= h);
    } else {
        let hp = h.drop_last();
        let k = h.last().0;
        let vs = h.last().1;
        assert(h[h.len() - 1] == h.last());
        assert(flat_form_safe(hp)) by {
            assert forall|i: int| 0 <= i < hp.len() implies #[trigger] hp[i] == h[i] by {}
        }
        assert forall|i: int| 0 <= i < hp.len() implies seq_lt(#[trigger] hp[i].0, k) by {
            assert(hp[i] == h[i]);
        }
        lemma_header_lines(hp);
        lemma_parse_header_lines(hp, value_lines(k, vs) + extra);
        lemma_parse_key_block(hp, k, vs, extra, vs.len());
        assert(header_lines(h) + extra =~= header_lines(hp) + value_lines(k, vs) + extra);
        assert(vs.take(vs.len() as int) =~= vs);
        assert(hp.push((k, vs)) =~= h);
    }
}

/// Headers sent across the bridge in the flat form read back as they were:
/// parsing the flat form of `h` gives `h`, for headers whose keys are
/// non-empty, in lower case and in increasing order, each with at least one
/// value, with no `\n` in any key or value.
pub proof fn law_flat_headers_round_trip(h: Seq<(Seq<char>, Seq<Seq<char>>)>)
    requires
        flat_form_safe(h),
    ensures
        spec_parse_flat_headers(spec_flatten_headers(h)) == h,
{
    lemma_flatten_join(h);
    lemma_header_lines(h);
    lemma_line_state_join(header_lines(h));
    let flat = spec_flatten_headers(h);
    let lines = split_lines(flat);
    assert(lines =~= header_lines(h) + seq![Seq::<char>::empty()]);
    assert(lines.len() / 2 == value_count(h));
    lemma_parse_header_lines(h, seq![Seq::<char>::empty()]);
}

} // verus!
