use vstd::prelude::*;
use crate::ids::LiveId;
use crate::native_host::{
    coalesce_spec, coalesce_step, detach_slot, has_create, layout_slot, prop_slot, without_id,
    without_id_but_closes, NativeHostPropUpdateKind, NativeMountMutation,
};

verus! {

/// The entries of view `x` in `s`, in order.
pub open spec fn only_id(s: Seq<NativeMountMutation>, x: LiveId) -> Seq<NativeMountMutation>
    decreases s.len(),
{
    if s.len() == 0 {
        s
    } else {
        let rest = only_id(s.drop_last(), x);
        if s.last().spec_id() == x {
            rest.push(s.last())
        } else {
            rest
        }
    }
}

/// The Command entries of `s`, in order.
pub open spec fn only_commands(s: Seq<NativeMountMutation>) -> Seq<NativeMountMutation>
    decreases s.len(),
{
    if s.len() == 0 {
        s
    } else {
        let rest = only_commands(s.drop_last());
        if s.last() is Command {
            rest.push(s.last())
        } else {
            rest
        }
    }
}

/// Whether the latest Create or Close of view `id` in `s` is a Create.
pub open spec fn created_since_close(s: Seq<NativeMountMutation>, id: LiveId) -> bool
    decreases s.len(),
{
    if s.len() == 0 {
        false
    } else if s.last().spec_id() == id && s.last() is Create {
        true
    } else if s.last().spec_id() == id && s.last() is Close {
        false
    } else {
        created_since_close(s.drop_last(), id)
    }
}

/// Whether `s` holds a Close.
pub open spec fn has_close(s: Seq<NativeMountMutation>) -> bool {
    exists|i: int| 0 <= i < s.len() && (#[trigger] s[i]) is Close
}

proof fn lemma_push_parts(s: Seq<NativeMountMutation>, m: NativeMountMutation)
    ensures
        s.push(m).drop_last() == s,
        s.push(m).last() == m,
        s.push(m).len() == s.len() + 1,
{
    assert(s.push(m).drop_last() =~= s);
}

proof fn lemma_layout_slot_kind(acc: Seq<NativeMountMutation>, id: LiveId, n: int)
    requires
        n <= acc.len(),
    ensures
        layout_slot(acc, id, n) matches Some(i) ==> 0 <= i < n && acc[i] is Layout && acc[i].spec_id() == id,
    decreases n,
{
    if n > 0 {
        lemma_layout_slot_kind(acc, id, n - 1);
    }
}

proof fn lemma_prop_slot_kind(acc: Seq<NativeMountMutation>, id: LiveId, kind: NativeHostPropUpdateKind, n: int)
    requires
        n <= acc.len(),
    ensures
        prop_slot(acc, id, kind, n) matches Some(i) ==> 0 <= i < n && acc[i] is Props && acc[i].spec_id() == id,
    decreases n,
{
    if n > 0 {
        lemma_prop_slot_kind(acc, id, kind, n - 1);
    }
}

proof fn lemma_detach_slot_kind(acc: Seq<NativeMountMutation>, id: LiveId, n: int)
    requires
        n <= acc.len(),
    ensures
        detach_slot(acc, id, n) matches Some(i) ==> 0 <= i < n && acc[i] is Detach && acc[i].spec_id() == id,
    decreases n,
{
    if n > 0 {
        lemma_detach_slot_kind(acc, id, n - 1);
    }
}

proof fn lemma_only_id_without_other(a: Seq<NativeMountMutation>, id: LiveId, other: LiveId)
    requires
        other != id,
    ensures
        only_id(without_id(a, id), other) == only_id(a, other),
    decreases a.len(),
{
    if a.len() > 0 {
        lemma_only_id_without_other(a.drop_last(), id, other);
        let w = without_id(a.drop_last(), id);
        if a.last().spec_id() != id {
            lemma_push_parts(w, a.last());
        }
    }
}

proof fn lemma_only_id_without_same(a: Seq<NativeMountMutation>, id: LiveId)
    ensures
        only_id(without_id(a, id), id).len() == 0,
    decreases a.len(),
{
    if a.len() > 0 {
        lemma_only_id_without_same(a.drop_last(), id);
        let w = without_id(a.drop_last(), id);
        if a.last().spec_id() != id {
            lemma_push_parts(w, a.last());
        }
    }
}

proof fn lemma_has_create_push(a: Seq<NativeMountMutation>, m: NativeMountMutation, id: LiveId)
    ensures
        has_create(a.push(m), id) == (has_create(a, id) || (m is Create && m.spec_id() == id)),
{
    let b = a.push(m);
    if has_create(a, id) {
        let i = choose|i: int| 0 <= i < a.len() && (#[trigger] a[i]) is Create && a[i].spec_id() == id;
        assert(b[i] == a[i]);
    }
    if m is Create && m.spec_id() == id {
        assert(b[a.len() as int] == m);
    }
    if has_create(b, id) {
        let i = choose|i: int| 0 <= i < b.len() && (#[trigger] b[i]) is Create && b[i].spec_id() == id;
        if i < a.len() {
            assert(a[i] == b[i]);
        }
    }
}

proof fn lemma_has_create_update(a: Seq<NativeMountMutation>, i: int, m: NativeMountMutation, id: LiveId)
    requires
        0 <= i < a.len(),
        !(a[i] is Create),
        !(m is Create),
    ensures
        has_create(a.update(i, m), id) == has_create(a, id),
{
    let b = a.update(i, m);
    if has_create(a, id) {
        let j = choose|j: int| 0 <= j < a.len() && (#[trigger] a[j]) is Create && a[j].spec_id() == id;
        assert(b[j] == a[j]);
    }
    if has_create(b, id) {
        let j = choose|j: int| 0 <= j < b.len() && (#[trigger] b[j]) is Create && b[j].spec_id() == id;
        assert(a[j] == b[j]);
    }
}

proof fn lemma_has_create_without(a: Seq<NativeMountMutation>, x: LiveId, id: LiveId)
    ensures
        has_create(without_id(a, x), id) == (x != id && has_create(a, id)),
    decreases a.len(),
{
    if a.len() == 0 {
    } else {
        let d = a.drop_last();
        lemma_has_create_without(d, x, id);
        lemma_push_parts(d, a.last());
        assert(d.push(a.last()) =~= a);
        lemma_has_create_push(d, a.last(), id);
        let w = without_id(d, x);
        if a.last().spec_id() != x {
            lemma_has_create_push(w, a.last(), id);
        }
    }
}

proof fn lemma_has_create_without_but_closes(a: Seq<NativeMountMutation>, x: LiveId, id: LiveId)
    ensures
        has_create(without_id_but_closes(a, x), id) == (x != id && has_create(a, id)),
    decreases a.len(),
{
    if a.len() == 0 {
    } else {
        let d = a.drop_last();
        lemma_has_create_without_but_closes(d, x, id);
        lemma_push_parts(d, a.last());
        assert(d.push(a.last()) =~= a);
        lemma_has_create_push(d, a.last(), id);
        let w = without_id_but_closes(d, x);
        if a.last().spec_id() != x || a.last() is Close {
            lemma_has_create_push(w, a.last(), id);
        }
    }
}

proof fn lemma_only_id_without_but_closes_other(a: Seq<NativeMountMutation>, id: LiveId, other: LiveId)
    requires
        other != id,
    ensures
        only_id(without_id_but_closes(a, id), other) == only_id(a, other),
    decreases a.len(),
{
    if a.len() > 0 {
        lemma_only_id_without_but_closes_other(a.drop_last(), id, other);
        let w = without_id_but_closes(a.drop_last(), id);
        if a.last().spec_id() != id || a.last() is Close {
            lemma_push_parts(w, a.last());
        }
    }
}

/// The Close entries of `s`, in order.
pub open spec fn only_closes(s: Seq<NativeMountMutation>) -> Seq<NativeMountMutation>
    decreases s.len(),
{
    if s.len() == 0 {
        s
    } else {
        let rest = only_closes(s.drop_last());
        if s.last() is Close {
            rest.push(s.last())
        } else {
            rest
        }
    }
}

proof fn lemma_only_id_without_but_closes_same(a: Seq<NativeMountMutation>, id: LiveId)
    ensures
        only_id(without_id_but_closes(a, id), id) == only_closes(only_id(a, id)),
    decreases a.len(),
{
    if a.len() > 0 {
        let d = a.drop_last();
        lemma_only_id_without_but_closes_same(d, id);
        let w = without_id_but_closes(d, id);
        let o = only_id(d, id);
        if a.last().spec_id() != id || a.last() is Close {
            lemma_push_parts(w, a.last());
        }
        if a.last().spec_id() == id {
            lemma_push_parts(o, a.last());
        }
    }
}

proof fn lemma_only_closes_all_close(s: Seq<NativeMountMutation>, k: int)
    requires
        0 <= k < only_closes(s).len(),
    ensures
        only_closes(s)[k] is Close,
        s.contains(only_closes(s)[k]),
    decreases s.len(),
{
    let d = s.drop_last();
    lemma_push_parts(only_closes(d), s.last());
    if k < only_closes(d).len() {
        lemma_only_closes_all_close(d, k);
        let e = only_closes(d)[k];
        let j = choose|j: int| 0 <= j < d.len() && d[j] == e;
        assert(s[j] == e);
    } else {
        assert(s[s.len() - 1] == s.last());
    }
}

proof fn lemma_only_closes_first(s: Seq<NativeMountMutation>)
    requires
        s.len() > 0,
        s[0] is Close,
    ensures
        only_closes(s).len() > 0,
        only_closes(s)[0] == s[0],
    decreases s.len(),
{
    let d = s.drop_last();
    if d.len() > 0 {
        assert(d[0] == s[0]);
        lemma_only_closes_first(d);
        lemma_push_parts(only_closes(d), s.last());
    } else {
        assert(only_closes(d) =~= Seq::<NativeMountMutation>::empty());
        lemma_push_parts(only_closes(d), s.last());
    }
}

proof fn lemma_only_id_update(a: Seq<NativeMountMutation>, i: int, m: NativeMountMutation, x: LiveId)
    requires
        0 <= i < a.len(),
        a[i].spec_id() == m.spec_id(),
    ensures
        a[i].spec_id() != x ==> only_id(a.update(i, m), x) == only_id(a, x),
        a[i].spec_id() == x ==> exists|p: int|
            0 <= p < only_id(a, x).len() && only_id(a, x)[p] == a[i] && only_id(a.update(i, m), x) == only_id(
                a,
                x,
            ).update(p, m),
    decreases a.len(),
{
    let d = a.drop_last();
    let b = a.update(i, m);
    let o = only_id(d, x);
    lemma_push_parts(d, a.last());
    assert(d.push(a.last()) =~= a);
    if i == a.len() - 1 {
        assert(b.drop_last() =~= d);
        assert(b.last() == m);
        if a[i].spec_id() == x {
            lemma_push_parts(o, a.last());
            lemma_push_parts(o, m);
            let p = o.len() as int;
            assert(only_id(b, x) == o.push(m));
            assert(only_id(a, x) == o.push(a.last()));
            assert(o.push(m) =~= o.push(a.last()).update(p, m));
            assert(only_id(a, x)[p] == a[i]);
            assert(0 <= p < only_id(a, x).len() && only_id(a, x)[p] == a[i] && only_id(b, x) == only_id(a, x).update(p, m));
        }
    } else {
        assert(b.drop_last() =~= d.update(i, m));
        assert(b.last() == a.last());
        assert(d[i] == a[i]);
        lemma_only_id_update(d, i, m, x);
        if a[i].spec_id() == x {
            let p = choose|p: int|
                0 <= p < only_id(d, x).len() && only_id(d, x)[p] == d[i] && only_id(d.update(i, m), x) == only_id(
                    d,
                    x,
                ).update(p, m);
            let od = only_id(d.update(i, m), x);
            if a.last().spec_id() == x {
                lemma_push_parts(o, a.last());
                lemma_push_parts(od, a.last());
                assert(only_id(b, x) == od.push(a.last()));
                assert(only_id(a, x) == o.push(a.last()));
                assert(o.update(p, m).push(a.last()) =~= o.push(a.last()).update(p, m));
                assert(only_id(a, x)[p] == a[i]);
            } else {
                assert(only_id(b, x) == od);
                assert(only_id(a, x) == o);
            }
            assert(0 <= p < only_id(a, x).len() && only_id(a, x)[p] == a[i] && only_id(b, x) == only_id(a, x).update(p, m));
        } else {
            if a.last().spec_id() == x {
                assert(only_id(b, x) == only_id(d.update(i, m), x).push(a.last()));
            }
        }
    }
}

proof fn lemma_coalesce_push(s: Seq<NativeMountMutation>, m: NativeMountMutation)
    ensures
        coalesce_spec(s.push(m)) == coalesce_step(coalesce_spec(s), m),
{
    lemma_push_parts(s, m);
}

/// A Create of a view survives in a coalesced batch exactly when no Close of
/// that view comes after it in the queued mutations.
pub proof fn law_batch_keeps_create_iff_not_closed_since(s: Seq<NativeMountMutation>, id: LiveId)
    ensures
        has_create(coalesce_spec(s), id) == created_since_close(s, id),
    decreases s.len(),
{
    if s.len() > 0 {
        let d = s.drop_last();
        let m = s.last();
        law_batch_keeps_create_iff_not_closed_since(d, id);
        let co = coalesce_spec(d);
        lemma_push_parts(d, m);
        match m {
            NativeMountMutation::Layout { id: x, .. } => {
                lemma_layout_slot_kind(co, x, co.len() as int);
                match layout_slot(co, x, co.len() as int) {
                    Some(i) => lemma_has_create_update(co, i, m, id),
                    None => lemma_has_create_push(co, m, id),
                }
            },
            NativeMountMutation::Props { id: x, update } => {
                lemma_prop_slot_kind(co, x, update.spec_kind(), co.len() as int);
                match prop_slot(co, x, update.spec_kind(), co.len() as int) {
                    Some(i) => lemma_has_create_update(co, i, m, id),
                    None => lemma_has_create_push(co, m, id),
                }
            },
            NativeMountMutation::Detach { id: x } => {
                lemma_detach_slot_kind(co, x, co.len() as int);
                match detach_slot(co, x, co.len() as int) {
                    Some(i) => lemma_has_create_update(co, i, m, id),
                    None => lemma_has_create_push(co, m, id),
                }
            },
            NativeMountMutation::Close { id: x } => {
                lemma_has_create_without(co, x, id);
                lemma_has_create_without_but_closes(co, x, id);
                lemma_has_create_push(without_id(co, x), m, id);
            },
            _ => {
                lemma_has_create_push(co, m, id);
            },
        }
    }
}

/// Closing a view drops its pending mutations and leaves every other view's
/// pending mutations as they were.
pub proof fn law_close_keeps_other_views(s: Seq<NativeMountMutation>, id: LiveId, other: LiveId)
    requires
        other != id,
    ensures
        only_id(coalesce_spec(s.push(NativeMountMutation::Close { id })), other) == only_id(
            coalesce_spec(s),
            other,
        ),
{
    let m = NativeMountMutation::Close { id };
    let co = coalesce_spec(s);
    lemma_coalesce_push(s, m);
    lemma_only_id_without_other(co, id, other);
    lemma_only_id_without_but_closes_other(co, id, other);
    lemma_push_parts(without_id(co, id), m);
}

/// Closing a view leaves nothing of it in the batch but Closes: the new
/// Close alone where the view was not created since its last Close (it was
/// created in an earlier flush), and otherwise only a Close that came before
/// that Create, if there is one.
pub proof fn law_close_outcome(s: Seq<NativeMountMutation>, id: LiveId)
    ensures
        created_since_close(s, id) ==> only_id(coalesce_spec(s.push(NativeMountMutation::Close { id })), id)
            == only_closes(only_id(coalesce_spec(s), id)),
        !created_since_close(s, id) ==> only_id(
            coalesce_spec(s.push(NativeMountMutation::Close { id })),
            id,
        ) == seq![NativeMountMutation::Close { id }],
        forall|k: int|
            0 <= k < only_id(coalesce_spec(s.push(NativeMountMutation::Close { id })), id).len() ==> (#[trigger] only_id(
                coalesce_spec(s.push(NativeMountMutation::Close { id })),
                id,
            )[k]) == (NativeMountMutation::Close { id }),
{
    let m = NativeMountMutation::Close { id };
    let co = coalesce_spec(s);
    lemma_coalesce_push(s, m);
    law_batch_keeps_create_iff_not_closed_since(s, id);
    lemma_only_id_without_same(co, id);
    let w = without_id(co, id);
    lemma_push_parts(w, m);
    if !created_since_close(s, id) {
        assert(only_id(w, id) =~= Seq::<NativeMountMutation>::empty());
        assert(only_id(w.push(m), id) =~= seq![m]);
    } else {
        lemma_only_id_without_but_closes_same(co, id);
        let r = only_id(coalesce_spec(s.push(m)), id);
        assert forall|k: int| 0 <= k < r.len() implies #[trigger] r[k] == m by {
            lemma_only_closes_all_close(only_id(co, id), k);
            lemma_only_id_members(co, id, r[k]);
        }
    }
}

proof fn lemma_only_id_members(a: Seq<NativeMountMutation>, x: LiveId, e: NativeMountMutation)
    requires
        only_id(a, x).contains(e),
    ensures
        e.spec_id() == x,
    decreases a.len(),
{
    let d = a.drop_last();
    let o = only_id(d, x);
    let j = choose|j: int| 0 <= j < only_id(a, x).len() && only_id(a, x)[j] == e;
    if a.last().spec_id() == x {
        lemma_push_parts(o, a.last());
        if j < o.len() {
            lemma_only_id_members(d, x, e);
        }
    } else {
        lemma_only_id_members(d, x, e);
    }
}

/// Whether the first entry of view `x` in `s` is a Close of it.
pub open spec fn begins_with_close(s: Seq<NativeMountMutation>, x: LiveId) -> bool {
    only_id(s, x).len() > 0 && only_id(s, x)[0] == (NativeMountMutation::Close { id: x })
}

proof fn lemma_created_has_create(s: Seq<NativeMountMutation>, x: LiveId)
    requires
        created_since_close(s, x),
    ensures
        exists|j: int| 0 <= j < s.len() && (#[trigger] s[j]) is Create && s[j].spec_id() == x,
    decreases s.len(),
{
    if !(s.last().spec_id() == x && s.last() is Create) {
        lemma_created_has_create(s.drop_last(), x);
        let j = choose|j: int| 0 <= j < s.drop_last().len() && (#[trigger] s.drop_last()[j]) is Create
            && s.drop_last()[j].spec_id() == x;
        assert(s[j] == s.drop_last()[j]);
    } else {
        assert(s[s.len() - 1] == s.last());
    }
}

proof fn lemma_step_keeps_leading_close(acc: Seq<NativeMountMutation>, m: NativeMountMutation, x: LiveId)
    requires
        begins_with_close(acc, x),
    ensures
        begins_with_close(coalesce_step(acc, m), x),
{
    let o = only_id(acc, x);
    match m {
        NativeMountMutation::Layout { id: y, .. } => {
            lemma_layout_slot_kind(acc, y, acc.len() as int);
            lemma_slot_or_push(acc, layout_slot(acc, y, acc.len() as int), m, x);
        },
        NativeMountMutation::Props { id: y, update } => {
            lemma_prop_slot_kind(acc, y, update.spec_kind(), acc.len() as int);
            lemma_slot_or_push(acc, prop_slot(acc, y, update.spec_kind(), acc.len() as int), m, x);
        },
        NativeMountMutation::Detach { id: y } => {
            lemma_detach_slot_kind(acc, y, acc.len() as int);
            lemma_slot_or_push(acc, detach_slot(acc, y, acc.len() as int), m, x);
        },
        NativeMountMutation::Close { id: y } => {
            if y == x {
                if has_create(acc, x) {
                    lemma_only_id_without_but_closes_same(acc, x);
                    lemma_only_closes_first(o);
                } else {
                    lemma_only_id_without_same(acc, x);
                    let w = without_id(acc, x);
                    lemma_push_parts(w, m);
                    assert(only_id(w, x) =~= Seq::<NativeMountMutation>::empty());
                    assert(only_id(w.push(m), x) =~= seq![m]);
                }
            } else {
                lemma_only_id_without_other(acc, y, x);
                lemma_only_id_without_but_closes_other(acc, y, x);
                lemma_push_parts(without_id(acc, y), m);
            }
        },
        _ => {
            lemma_push_parts(acc, m);
            if m.spec_id() == x {
                lemma_push_parts(o, m);
            }
        },
    }
}

proof fn lemma_slot_or_push(acc: Seq<NativeMountMutation>, slot: Option<int>, m: NativeMountMutation, x: LiveId)
    requires
        begins_with_close(acc, x),
        !(m is Close),
        slot matches Some(i) ==> 0 <= i < acc.len() && !(acc[i] is Close) && acc[i].spec_id() == m.spec_id(),
    ensures
        begins_with_close(
            match slot {
                Some(i) => acc.update(i, m),
                None => acc.push(m),
            },
            x,
        ),
{
    let o = only_id(acc, x);
    match slot {
        Some(i) => {
            lemma_only_id_update(acc, i, m, x);
            if acc[i].spec_id() == x {
                let p = choose|p: int|
                    0 <= p < o.len() && o[p] == acc[i] && only_id(acc.update(i, m), x) == o.update(p, m);
                assert(p != 0);
            }
        },
        None => {
            lemma_push_parts(acc, m);
            if m.spec_id() == x {
                lemma_push_parts(o, m);
            }
        },
    }
}

/// A Close of a view queued before any Create of it (the view was created in
/// an earlier flush) reaches the host: in the batch, the first entry of that
/// view is its Close.
pub proof fn law_close_before_create_reaches_host(s: Seq<NativeMountMutation>, x: LiveId, i: int)
    requires
        0 <= i < s.len(),
        s[i] == (NativeMountMutation::Close { id: x }),
        forall|j: int| 0 <= j < i ==> !((#[trigger] s[j]) is Create && s[j].spec_id() == x),
    ensures
        begins_with_close(coalesce_spec(s), x),
    decreases s.len(),
{
    let d = s.drop_last();
    let m = s.last();
    lemma_push_parts(d, m);
    assert(d.push(m) =~= s);
    let co = coalesce_spec(d);
    if i == s.len() - 1 {
        law_batch_keeps_create_iff_not_closed_since(d, x);
        if created_since_close(d, x) {
            lemma_created_has_create(d, x);
            let j = choose|j: int| 0 <= j < d.len() && (#[trigger] d[j]) is Create && d[j].spec_id() == x;
            assert(s[j] == d[j]);
        }
        lemma_only_id_without_same(co, x);
        let w = without_id(co, x);
        lemma_push_parts(w, m);
        assert(only_id(w, x) =~= Seq::<NativeMountMutation>::empty());
        assert(only_id(w.push(m), x) =~= seq![m]);
    } else {
        assert forall|j: int| 0 <= j < i implies !((#[trigger] d[j]) is Create && d[j].spec_id() == x) by {
            assert(s[j] == d[j]);
        }
        assert(d[i] == s[i]);
        law_close_before_create_reaches_host(d, x, i);
        lemma_step_keeps_leading_close(co, m, x);
    }
}

proof fn lemma_only_commands_update(a: Seq<NativeMountMutation>, i: int, m: NativeMountMutation)
    requires
        0 <= i < a.len(),
        !(a[i] is Command),
        !(m is Command),
    ensures
        only_commands(a.update(i, m)) == only_commands(a),
    decreases a.len(),
{
    let b = a.update(i, m);
    if i == a.len() - 1 {
        assert(b.drop_last() =~= a.drop_last());
    } else {
        assert(b.drop_last() =~= a.drop_last().update(i, m));
        lemma_only_commands_update(a.drop_last(), i, m);
    }
}

/// Coalescing never lengthens a batch.
pub proof fn law_coalesce_never_grows(s: Seq<NativeMountMutation>)
    ensures
        coalesce_spec(s).len() <= s.len(),
    decreases s.len(),
{
    if s.len() > 0 {
        let d = s.drop_last();
        law_coalesce_never_grows(d);
        let co = coalesce_spec(d);
        match s.last() {
            NativeMountMutation::Close { id } => {
                lemma_without_id_len(co, id);
                lemma_without_id_but_closes_len(co, id);
            },
            NativeMountMutation::Layout { id, .. } => lemma_layout_slot_kind(co, id, co.len() as int),
            NativeMountMutation::Props { id, update } => lemma_prop_slot_kind(
                co,
                id,
                update.spec_kind(),
                co.len() as int,
            ),
            NativeMountMutation::Detach { id } => lemma_detach_slot_kind(co, id, co.len() as int),
            _ => {},
        }
    }
}

proof fn lemma_without_id_len(a: Seq<NativeMountMutation>, id: LiveId)
    ensures
        without_id(a, id).len() <= a.len(),
    decreases a.len(),
{
    if a.len() > 0 {
        lemma_without_id_len(a.drop_last(), id);
    }
}

proof fn lemma_without_id_but_closes_len(a: Seq<NativeMountMutation>, id: LiveId)
    ensures
        without_id_but_closes(a, id).len() <= a.len(),
    decreases a.len(),
{
    if a.len() > 0 {
        lemma_without_id_but_closes_len(a.drop_last(), id);
    }
}

/// Without a Close in the queue, every Command reaches the platform, in the
/// order it was queued.
pub proof fn law_commands_preserved(s: Seq<NativeMountMutation>)
    requires
        !has_close(s),
    ensures
        only_commands(coalesce_spec(s)) == only_commands(s),
    decreases s.len(),
{
    if s.len() > 0 {
        let d = s.drop_last();
        let m = s.last();
        assert(!has_close(d)) by {
            if has_close(d) {
                let i = choose|i: int| 0 <= i < d.len() && (#[trigger] d[i]) is Close;
                assert(s[i] == d[i]);
            }
        }
        assert(!(m is Close)) by {
            assert(s[s.len() - 1] == m);
        }
        law_commands_preserved(d);
        let co = coalesce_spec(d);
        match m {
            NativeMountMutation::Layout { id: x, .. } => {
                lemma_layout_slot_kind(co, x, co.len() as int);
                match layout_slot(co, x, co.len() as int) {
                    Some(i) => lemma_only_commands_update(co, i, m),
                    None => lemma_push_parts(co, m),
                }
            },
            NativeMountMutation::Props { id: x, update } => {
                lemma_prop_slot_kind(co, x, update.spec_kind(), co.len() as int);
                match prop_slot(co, x, update.spec_kind(), co.len() as int) {
                    Some(i) => lemma_only_commands_update(co, i, m),
                    None => lemma_push_parts(co, m),
                }
            },
            NativeMountMutation::Detach { id: x } => {
                lemma_detach_slot_kind(co, x, co.len() as int);
                match detach_slot(co, x, co.len() as int) {
                    Some(i) => lemma_only_commands_update(co, i, m),
                    None => lemma_push_parts(co, m),
                }
            },
            _ => {
                lemma_push_parts(co, m);
            },
        }
    }
}

} // verus!
