use vstd::prelude::*;
use crate::cx::{Cx, CxDrawPass, CxDrawPassParent, CxPart};
use crate::cx_api::holds_draw_list;
use crate::ids::{DrawListId, DrawPassId, WindowId};

verus! {

// ------------------------------------------------------------------ the pass tree

/// What each pass renders into, by pass index.
pub open spec fn pass_parents(passes: Seq<CxDrawPass>) -> Seq<CxDrawPassParent> {
    passes.map_values(|p: CxDrawPass| p.parent)
}

/// Whether pass `c` renders into pass `p`.
pub open spec fn is_child(parents: Seq<CxDrawPassParent>, c: int, p: int) -> bool {
    parents[c] == CxDrawPassParent::DrawPass(DrawPassId(p as usize))
}

/// Whether walking `steps` times from pass `i` to the pass it renders into
/// stays on passes that exist.
pub open spec fn walk_ok(parents: Seq<CxDrawPassParent>, i: int, steps: nat) -> bool
    decreases steps,
{
    steps == 0 || (0 <= i < parents.len() && match parents[i] {
        CxDrawPassParent::DrawPass(p) => walk_ok(parents, p.0 as int, (steps - 1) as nat),
        _ => true,
    })
}

/// The window reached from pass `i` in at most `steps` steps up the pass tree.
pub open spec fn window_walk(parents: Seq<CxDrawPassParent>, i: int, steps: nat) -> Option<WindowId>
    decreases steps,
{
    if steps == 0 {
        None
    } else {
        match parents[i] {
            CxDrawPassParent::Window(w) => Some(w),
            CxDrawPassParent::DrawPass(p) => window_walk(parents, p.0 as int, (steps - 1) as nat),
            CxDrawPassParent::Unattached => None,
        }
    }
}

/// Whether the walk up the pass tree from `i` reaches a pass that renders
/// into no other pass within `n` steps, on passes that exist.
pub open spec fn chain_ok(parents: Seq<CxDrawPassParent>, i: int, n: nat) -> bool
    decreases n,
{
    0 <= i < parents.len() && match parents[i] {
        CxDrawPassParent::DrawPass(p) => n > 0 && chain_ok(parents, p.0 as int, (n - 1) as nat),
        _ => true,
    }
}

/// The passes met walking up the pass tree from `i`, `i` first.
pub open spec fn parent_chain(parents: Seq<CxDrawPassParent>, i: int, n: nat) -> Seq<int>
    decreases n,
{
    match parents[i] {
        CxDrawPassParent::DrawPass(p) => if n > 0 {
            seq![i] + parent_chain(parents, p.0 as int, (n - 1) as nat)
        } else {
            seq![i]
        },
        _ => seq![i],
    }
}

/// A number of steps within which the walk up from `i` ends.
pub open spec fn chain_fuel(parents: Seq<CxDrawPassParent>, i: int) -> nat {
    choose|n: nat| chain_ok(parents, i, n)
}

/// Whether every chain of passes rendering into pass `i` has at most `h` links.
pub open spec fn height_le(parents: Seq<CxDrawPassParent>, i: int, h: nat) -> bool
    decreases h,
{
    forall|c: int|
        0 <= c < parents.len() && #[trigger] is_child(parents, c, i) ==> h > 0 && height_le(
            parents,
            c,
            (h - 1) as nat,
        )
}

/// A bound on the height of the passes rendering into `i`.
pub open spec fn subtree_fuel(parents: Seq<CxDrawPassParent>, i: int) -> nat {
    choose|h: nat| height_le(parents, i, h)
}

/// Pass `i` and the passes rendering into it, depth first, children in index order.
pub open spec fn dfs(parents: Seq<CxDrawPassParent>, i: int, h: nat) -> Seq<int>
    decreases h, parents.len() + 1,
{
    seq![i] + children_dfs(parents, i, parents.len(), h)
}

/// The depth-first orders of the first `k` passes that render into `p`.
pub open spec fn children_dfs(parents: Seq<CxDrawPassParent>, p: int, k: nat, h: nat) -> Seq<int>
    decreases h, k,
{
    if k == 0 {
        seq![]
    } else {
        children_dfs(parents, p, (k - 1) as nat, h) + if is_child(parents, k - 1, p) && h > 0 {
            dfs(parents, k - 1, (h - 1) as nat)
        } else {
            seq![]
        }
    }
}

// ------------------------------------------------------------------ redraw lists

/// `acc` with `id` added at the end unless it is already there.
pub open spec fn add_list(acc: Seq<DrawListId>, id: DrawListId) -> Seq<DrawListId> {
    if holds_draw_list(acc, id) {
        acc
    } else {
        acc.push(id)
    }
}

/// `acc` with the main draw lists of the passes `order` added, in order.
pub open spec fn add_main_lists(acc: Seq<DrawListId>, passes: Seq<CxDrawPass>, order: Seq<int>) -> Seq<
    DrawListId,
>
    decreases order.len(),
{
    if order.len() == 0 {
        acc
    } else {
        let prev = add_main_lists(acc, passes, order.drop_last());
        match passes[order.last()].main_draw_list_id {
            Some(l) => add_list(prev, l),
            None => prev,
        }
    }
}

proof fn lemma_add_main_lists_append(acc: Seq<DrawListId>, passes: Seq<CxDrawPass>, a: Seq<int>, b: Seq<int>)
    ensures
        add_main_lists(acc, passes, a + b) == add_main_lists(add_main_lists(acc, passes, a), passes, b),
    decreases b.len(),
{
    if b.len() == 0 {
        assert(a + b =~= a);
    } else {
        assert((a + b).drop_last() =~= a + b.drop_last());
        lemma_add_main_lists_append(acc, passes, a, b.drop_last());
    }
}

/// The redraw lists after marking the main lists of `order`: unchanged while
/// drawing, else each missing one added in order.
pub open spec fn redrawn_lists(cx: Cx, passes: Seq<CxDrawPass>, order: Seq<int>) -> Seq<DrawListId> {
    if cx.state.in_draw_event {
        cx.new_draw_event.draw_lists_and_children@
    } else {
        add_main_lists(cx.new_draw_event.draw_lists_and_children@, passes, order)
    }
}

impl Cx {
    /// The window that pass `draw_pass_id` ends up in, looking at most 25
    /// passes up; `None` for a pass that is not attached.
    pub fn get_pass_window_id(&self, draw_pass_id: DrawPassId) -> (r: Option<WindowId>)
        requires
            walk_ok(pass_parents(self.passes@), draw_pass_id.0 as int, 25),
        ensures
            r == window_walk(pass_parents(self.passes@), draw_pass_id.0 as int, 25),
    {
        let ghost parents = pass_parents(self.passes@);
        let mut walk = draw_pass_id.0;
        let mut k: usize = 0;
        while k < 25
            invariant
                parents == pass_parents(self.passes@),
                k <= 25,
                walk_ok(parents, walk as int, (25 - k) as nat),
                window_walk(parents, draw_pass_id.0 as int, 25) == window_walk(parents, walk as int, (25 - k) as nat),
            decreases 25 - k,
        {
            assert(parents[walk as int] == self.passes@[walk as int].parent);
            match self.passes[walk].parent {
                CxDrawPassParent::Window(window_id) => {
                    return Some(window_id);
                },
                CxDrawPassParent::DrawPass(next) => {
                    walk = next.0;
                },
                CxDrawPassParent::Unattached => {
                    return None;
                },
            }
            k = k + 1;
        }
        None
    }

    /// The debug name of pass `draw_pass_id`.
    pub fn get_pass_name(&self, draw_pass_id: DrawPassId) -> (r: &str)
        requires
            draw_pass_id.0 < self.passes@.len(),
        ensures
            r@ == self.passes@[draw_pass_id.0 as int].debug_name@,
    {
        self.passes[draw_pass_id.0].debug_name.as_str()
    }

    /// Marks pass `draw_pass_id` for repainting.
    pub fn repaint_pass(&mut self, draw_pass_id: DrawPassId)
        requires
            draw_pass_id.0 < old(self).passes@.len(),
        ensures
            final(self).passes@ == old(self).passes@.update(
                draw_pass_id.0 as int,
                CxDrawPass { paint_dirty: true, ..old(self).passes@[draw_pass_id.0 as int] },
            ),
            final(self).unchanged_except(*old(self), set![CxPart::Passes]),
    {
        self.passes[draw_pass_id.0].paint_dirty = true;
    }

    /// Marks pass `id` and the passes rendering into it for repainting.
    fn repaint_subtree(&mut self, id: usize, Ghost(h): Ghost<nat>)
        requires
            id < old(self).passes@.len(),
            height_le(pass_parents(old(self).passes@), id as int, h),
        ensures
            final(self).passes@.len() == old(self).passes@.len(),
            forall|i: int|
                0 <= i < old(self).passes@.len() ==> #[trigger] final(self).passes@[i] == (CxDrawPass {
                    paint_dirty: old(self).passes@[i].paint_dirty || dfs(
                        pass_parents(old(self).passes@),
                        id as int,
                        h,
                    ).contains(i),
                    ..old(self).passes@[i]
                }),
            final(self).unchanged_except(*old(self), set![CxPart::Passes]),
        decreases h,
    {
        let ghost parents = pass_parents(self.passes@);
        let ghost start = self.passes@;
        self.passes[id].paint_dirty = true;
        assert(pass_parents(self.passes@) =~= parents);
        let n = self.passes.len();
        let mut c: usize = 0;
        while c < n
            invariant
                n == start.len(),
                id < n,
                parents == pass_parents(start),
                self.passes@.len() == n,
                pass_parents(self.passes@) == parents,
                height_le(parents, id as int, h),
                c <= n,
                forall|i: int|
                    0 <= i < n ==> #[trigger] self.passes@[i] == (CxDrawPass {
                        paint_dirty: start[i].paint_dirty || i == id || children_dfs(
                            parents,
                            id as int,
                            c as nat,
                            h,
                        ).contains(i),
                        ..start[i]
                    }),
                self.unchanged_except(*old(self), set![CxPart::Passes]),
            decreases n - c,
        {
            assert(parents[c as int] == self.passes@[c as int].parent);
            let ghost before = self.passes@;
            if self.passes[c].parent == CxDrawPassParent::DrawPass(DrawPassId(id)) {
                assert(is_child(parents, c as int, id as int));
                self.repaint_subtree(c, Ghost((h - 1) as nat));
                assert(pass_parents(self.passes@) =~= parents) by {
                    assert forall|i: int| 0 <= i < n implies #[trigger] pass_parents(self.passes@)[i] == parents[i] by {
                        assert(self.passes@[i] == (CxDrawPass { paint_dirty: self.passes@[i].paint_dirty, ..before[i] }));
                    }
                }
            }
            proof {
                let a = children_dfs(parents, id as int, c as nat, h);
                let b = children_dfs(parents, id as int, (c + 1) as nat, h);
                assert forall|i: int| 0 <= i < n implies b.contains(i) == (a.contains(i) || (is_child(parents, c as int, id as int) && h > 0 && dfs(parents, c as int, (h - 1) as nat).contains(i))) by {
                    if is_child(parents, c as int, id as int) && h > 0 {
                        let d = dfs(parents, c as int, (h - 1) as nat);
                        assert(b == a + d);
                        if a.contains(i) {
                            let j = choose|j: int| 0 <= j < a.len() && a[j] == i;
                            assert(b[j] == i);
                        }
                        if d.contains(i) {
                            let j = choose|j: int| 0 <= j < d.len() && d[j] == i;
                            assert(b[a.len() + j] == i);
                        }
                    } else {
                        assert(b =~= a);
                    }
                }
            }
            c = c + 1;
        }
        proof {
            assert forall|i: int| 0 <= i < n implies dfs(parents, id as int, h).contains(i) == (i == id || children_dfs(parents, id as int, n as nat, h).contains(i)) by {
                let d = dfs(parents, id as int, h);
                let ch = children_dfs(parents, id as int, n as nat, h);
                assert(d == seq![id as int] + ch);
                if ch.contains(i) {
                    let j = choose|j: int| 0 <= j < ch.len() && ch[j] == i;
                    assert(d[1 + j] == i);
                }
                if i == id {
                    assert(d[0] == i);
                }
                if d.contains(i) && i != id {
                    let j = choose|j: int| 0 <= j < d.len() && d[j] == i;
                    assert(ch[j - 1] == i);
                }
            }
        }
    }

    /// Marks pass `draw_pass_id` and every pass rendering into it, directly
    /// or through others, for repainting.
    pub fn repaint_pass_and_child_passes(&mut self, draw_pass_id: DrawPassId)
        requires
            draw_pass_id.0 < old(self).passes@.len(),
            exists|h: nat| height_le(pass_parents(old(self).passes@), draw_pass_id.0 as int, h),
        ensures
            final(self).passes@.len() == old(self).passes@.len(),
            forall|i: int|
                0 <= i < old(self).passes@.len() ==> #[trigger] final(self).passes@[i] == (CxDrawPass {
                    paint_dirty: old(self).passes@[i].paint_dirty || dfs(
                        pass_parents(old(self).passes@),
                        draw_pass_id.0 as int,
                        subtree_fuel(pass_parents(old(self).passes@), draw_pass_id.0 as int),
                    ).contains(i),
                    ..old(self).passes@[i]
                }),
            final(self).unchanged_except(*old(self), set![CxPart::Passes]),
    {
        let ghost h = subtree_fuel(pass_parents(self.passes@), draw_pass_id.0 as int);
        self.repaint_subtree(draw_pass_id.0, Ghost(h));
    }

    /// Marks for redraw the main lists of pass `id` and the passes rendering into it.
    fn redraw_subtree(&mut self, id: usize, Ghost(h): Ghost<nat>)
        requires
            id < old(self).passes@.len(),
            height_le(pass_parents(old(self).passes@), id as int, h),
        ensures
            final(self).new_draw_event.draw_lists_and_children@ == redrawn_lists(
                *old(self),
                old(self).passes@,
                dfs(pass_parents(old(self).passes@), id as int, h),
            ),
            final(self).new_draw_event.redraw_all == old(self).new_draw_event.redraw_all,
            final(self).new_draw_event.draw_lists == old(self).new_draw_event.draw_lists,
            final(self).unchanged_except(*old(self), set![CxPart::DrawEvent]),
        decreases h,
    {
        let ghost passes = self.passes@;
        let ghost parents = pass_parents(passes);
        let ghost acc0 = self.new_draw_event.draw_lists_and_children@;
        if let Some(main_list_id) = self.passes[id].main_draw_list_id {
            self.redraw_list_and_children(main_list_id);
        }
        proof {
            let o = seq![id as int];
            assert(o.drop_last() =~= Seq::<int>::empty());
            assert(add_main_lists(acc0, passes, o.drop_last()) == acc0);
            assert(o.last() == id as int);
            if !old(self).state.in_draw_event {
                assert(self.new_draw_event.draw_lists_and_children@ == add_main_lists(acc0, passes, o));
            }
        }
        let n = self.passes.len();
        let mut c: usize = 0;
        while c < n
            invariant
                n == passes.len(),
                id < n,
                self.passes@ == passes,
                parents == pass_parents(passes),
                height_le(parents, id as int, h),
                c <= n,
                self.new_draw_event.draw_lists_and_children@ == redrawn_lists(
                    *old(self),
                    passes,
                    seq![id as int] + children_dfs(parents, id as int, c as nat, h),
                ),
                self.new_draw_event.redraw_all == old(self).new_draw_event.redraw_all,
                self.new_draw_event.draw_lists == old(self).new_draw_event.draw_lists,
                self.unchanged_except(*old(self), set![CxPart::DrawEvent]),
            decreases n - c,
        {
            assert(parents[c as int] == self.passes@[c as int].parent);
            let ghost mid = *self;
            let ghost done = seq![id as int] + children_dfs(parents, id as int, c as nat, h);
            if self.passes[c].parent == CxDrawPassParent::DrawPass(DrawPassId(id)) {
                assert(is_child(parents, c as int, id as int));
                self.redraw_subtree(c, Ghost((h - 1) as nat));
                proof {
                    let d = dfs(parents, c as int, (h - 1) as nat);
                    assert(children_dfs(parents, id as int, (c + 1) as nat, h) == children_dfs(
                        parents,
                        id as int,
                        c as nat,
                        h,
                    ) + d);
                    assert(seq![id as int] + children_dfs(parents, id as int, (c + 1) as nat, h) =~= done + d);
                    if !old(self).state.in_draw_event {
                        lemma_add_main_lists_append(
                            old(self).new_draw_event.draw_lists_and_children@,
                            passes,
                            done,
                            d,
                        );
                    }
                }
            } else {
                assert(children_dfs(parents, id as int, (c + 1) as nat, h) =~= children_dfs(
                    parents,
                    id as int,
                    c as nat,
                    h,
                ));
            }
            c = c + 1;
        }
    }

    /// Marks for redraw the main draw lists (and their children) of pass
    /// `draw_pass_id` and of every pass rendering into it, directly or
    /// through others, depth first.
    pub fn redraw_pass_and_child_passes(&mut self, draw_pass_id: DrawPassId)
        requires
            draw_pass_id.0 < old(self).passes@.len(),
            exists|h: nat| height_le(pass_parents(old(self).passes@), draw_pass_id.0 as int, h),
        ensures
            final(self).new_draw_event.draw_lists_and_children@ == redrawn_lists(
                *old(self),
                old(self).passes@,
                dfs(
                    pass_parents(old(self).passes@),
                    draw_pass_id.0 as int,
                    subtree_fuel(pass_parents(old(self).passes@), draw_pass_id.0 as int),
                ),
            ),
            final(self).new_draw_event.redraw_all == old(self).new_draw_event.redraw_all,
            final(self).new_draw_event.draw_lists == old(self).new_draw_event.draw_lists,
            final(self).unchanged_except(*old(self), set![CxPart::DrawEvent]),
    {
        let ghost h = subtree_fuel(pass_parents(self.passes@), draw_pass_id.0 as int);
        self.redraw_subtree(draw_pass_id.0, Ghost(h));
    }

    /// Marks for redraw the main draw lists (and their children) of pass
    /// `draw_pass_id` and of every pass it renders into, up to the top.
    pub fn redraw_pass_and_parent_passes(&mut self, draw_pass_id: DrawPassId)
        requires
            exists|n: nat| chain_ok(pass_parents(old(self).passes@), draw_pass_id.0 as int, n),
        ensures
            final(self).new_draw_event.draw_lists_and_children@ == redrawn_lists(
                *old(self),
                old(self).passes@,
                parent_chain(
                    pass_parents(old(self).passes@),
                    draw_pass_id.0 as int,
                    chain_fuel(pass_parents(old(self).passes@), draw_pass_id.0 as int),
                ),
            ),
            final(self).new_draw_event.redraw_all == old(self).new_draw_event.redraw_all,
            final(self).new_draw_event.draw_lists == old(self).new_draw_event.draw_lists,
            final(self).unchanged_except(*old(self), set![CxPart::DrawEvent]),
    {
        let ghost passes = self.passes@;
        let ghost parents = pass_parents(passes);
        let ghost n0 = chain_fuel(parents, draw_pass_id.0 as int);
        let ghost mut fuel: nat = n0;
        let ghost mut done: Seq<int> = seq![];
        let mut walk = draw_pass_id.0;
        loop
            invariant_except_break
                chain_ok(parents, walk as int, fuel),
                parent_chain(parents, draw_pass_id.0 as int, n0) == done + parent_chain(parents, walk as int, fuel),
            invariant
                self.passes@ == passes,
                parents == pass_parents(passes),
                self.new_draw_event.draw_lists_and_children@ == redrawn_lists(*old(self), passes, done),
                self.new_draw_event.redraw_all == old(self).new_draw_event.redraw_all,
                self.new_draw_event.draw_lists == old(self).new_draw_event.draw_lists,
                self.unchanged_except(*old(self), set![CxPart::DrawEvent]),
            ensures
                self.new_draw_event.draw_lists_and_children@ == redrawn_lists(
                    *old(self),
                    passes,
                    parent_chain(parents, draw_pass_id.0 as int, n0),
                ),
                self.new_draw_event.redraw_all == old(self).new_draw_event.redraw_all,
                self.new_draw_event.draw_lists == old(self).new_draw_event.draw_lists,
                self.unchanged_except(*old(self), set![CxPart::DrawEvent]),
            decreases fuel,
        {
            let ghost before = self.new_draw_event.draw_lists_and_children@;
            if let Some(main_list_id) = self.passes[walk].main_draw_list_id {
                self.redraw_list_and_children(main_list_id);
            }
            proof {
                let d2 = done.push(walk as int);
                assert(d2.drop_last() =~= done);
                assert(d2.last() == walk as int);
                if !old(self).state.in_draw_event {
                    assert(self.new_draw_event.draw_lists_and_children@ == add_main_lists(
                        old(self).new_draw_event.draw_lists_and_children@,
                        passes,
                        d2,
                    ));
                }
            }
            assert(parents[walk as int] == self.passes@[walk as int].parent);
            match self.passes[walk].parent {
                CxDrawPassParent::DrawPass(next) => {
                    proof {
                        assert(done + parent_chain(parents, walk as int, fuel) =~= done.push(walk as int)
                            + parent_chain(parents, next.0 as int, (fuel - 1) as nat));
                        done = done.push(walk as int);
                        fuel = (fuel - 1) as nat;
                    }
                    walk = next.0;
                },
                _ => {
                    proof {
                        assert(done + parent_chain(parents, walk as int, fuel) =~= done.push(walk as int));
                        done = done.push(walk as int);
                    }
                    break ;
                },
            }
        }
    }
}

// ------------------------------------------------------------------ what the walks cover

/// Whether walking at most `n` steps up the pass tree from pass `i` reaches pass `a`.
pub open spec fn reaches(parents: Seq<CxDrawPassParent>, i: int, a: int, n: nat) -> bool
    decreases n,
{
    0 <= i < parents.len() && (i == a || (n > 0 && match parents[i] {
        CxDrawPassParent::DrawPass(p) => reaches(parents, p.0 as int, a, (n - 1) as nat),
        _ => false,
    }))
}

proof fn lemma_reaches_extend(parents: Seq<CxDrawPassParent>, i: int, c: int, a: int, n: nat)
    requires
        reaches(parents, i, c, n),
        0 <= c < parents.len(),
        0 <= a < parents.len(),
        parents.len() <= usize::MAX,
        is_child(parents, c, a),
    ensures
        reaches(parents, i, a, n + 1),
    decreases n,
{
    if i == c {
        assert(reaches(parents, a, a, n));
        if let CxDrawPassParent::DrawPass(p) = parents[i] {
            assert(p.0 as int == a);
        }
    } else {
        if let CxDrawPassParent::DrawPass(p) = parents[i] {
            lemma_reaches_extend(parents, p.0 as int, c, a, (n - 1) as nat);
        }
    }
}

proof fn lemma_reaches_last_step(parents: Seq<CxDrawPassParent>, i: int, a: int, n: nat) -> (c: int)
    requires
        reaches(parents, i, a, n),
        i != a,
        0 <= a < parents.len(),
        parents.len() <= usize::MAX,
    ensures
        n > 0,
        0 <= c < parents.len(),
        is_child(parents, c, a),
        reaches(parents, i, c, (n - 1) as nat),
    decreases n,
{
    if let CxDrawPassParent::DrawPass(p) = parents[i] {
        let q = p.0 as int;
        if q == a {
            assert(p == DrawPassId(a as usize));
            assert(reaches(parents, i, i, (n - 1) as nat));
            i
        } else {
            let c = lemma_reaches_last_step(parents, q, a, (n - 1) as nat);
            assert(reaches(parents, i, c, (n - 1) as nat));
            c
        }
    } else {
        i
    }
}

proof fn lemma_children_dfs_contains(parents: Seq<CxDrawPassParent>, p: int, k: nat, h: nat, x: int)
    ensures
        children_dfs(parents, p, k, h).contains(x) <==> exists|c: int|
            0 <= c < k && is_child(parents, c, p) && h > 0 && #[trigger] dfs(parents, c, (h - 1) as nat).contains(x),
    decreases k,
{
    if k > 0 {
        lemma_children_dfs_contains(parents, p, (k - 1) as nat, h, x);
        let a = children_dfs(parents, p, (k - 1) as nat, h);
        let c = k - 1;
        if is_child(parents, c, p) && h > 0 {
            let d = dfs(parents, c, (h - 1) as nat);
            assert(children_dfs(parents, p, k, h) == a + d);
            if (a + d).contains(x) {
                let j = choose|j: int| 0 <= j < (a + d).len() && (a + d)[j] == x;
                if j >= a.len() {
                    assert(d[j - a.len()] == x);
                }
            }
            if a.contains(x) {
                let j = choose|j: int| 0 <= j < a.len() && a[j] == x;
                assert((a + d)[j] == x);
            }
            if d.contains(x) {
                let j = choose|j: int| 0 <= j < d.len() && d[j] == x;
                assert((a + d)[a.len() + j] == x);
            }
        } else {
            assert(children_dfs(parents, p, k, h) =~= a);
        }
    }
}

/// The passes met by the depth-first walk from pass `id` are exactly the
/// passes rendering into it, directly or through others, and `id` itself.
pub proof fn law_child_passes_are_descendants(parents: Seq<CxDrawPassParent>, id: int, h: nat, i: int)
    requires
        parents.len() <= usize::MAX,
        0 <= id < parents.len(),
        0 <= i < parents.len(),
        height_le(parents, id, h),
    ensures
        dfs(parents, id, h).contains(i) <==> exists|n: nat| reaches(parents, i, id, n),
    decreases h,
{
    let d = dfs(parents, id, h);
    let ch = children_dfs(parents, id, parents.len(), h);
    assert(d == seq![id] + ch);
    lemma_children_dfs_contains(parents, id, parents.len(), h, i);
    if d.contains(i) {
        if i == id {
            assert(reaches(parents, i, id, 0));
        } else {
            let j = choose|j: int| 0 <= j < d.len() && d[j] == i;
            assert(ch[j - 1] == i);
            let c = choose|c: int|
                0 <= c < parents.len() && is_child(parents, c, id) && h > 0 && #[trigger] dfs(
                    parents,
                    c,
                    (h - 1) as nat,
                ).contains(i);
            assert(height_le(parents, c, (h - 1) as nat));
            law_child_passes_are_descendants(parents, c, (h - 1) as nat, i);
            let n = choose|n: nat| reaches(parents, i, c, n);
            lemma_reaches_extend(parents, i, c, id, n);
            assert(reaches(parents, i, id, n + 1));
        }
    }
    if exists|n: nat| reaches(parents, i, id, n) {
        if i == id {
            assert(d[0] == i);
        } else {
            let n = choose|n: nat| reaches(parents, i, id, n);
            let c = lemma_reaches_last_step(parents, i, id, n);
            assert(height_le(parents, c, (h - 1) as nat));
            law_child_passes_are_descendants(parents, c, (h - 1) as nat, i);
            assert(dfs(parents, c, (h - 1) as nat).contains(i));
            assert(ch.contains(i));
            let j = choose|j: int| 0 <= j < ch.len() && ch[j] == i;
            assert(d[j + 1] == i);
        }
    }
}

} // verus!
