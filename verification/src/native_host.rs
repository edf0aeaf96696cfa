use vstd::prelude::*;
use crate::ids::{Area, LiveId};
use crate::os_op::CxOsOp;

verus! {

/// The kinds of native view the platform can host.
#[derive(Clone, Copy, Debug, PartialEq, Eq, Structural)]
pub enum NativeHostKind {
    TextInput,
    Label,
}

/// The properties a native view is created with.
#[derive(Clone, Debug, PartialEq)]
pub enum NativeHostProps {
    TextInput { text: String, placeholder: String, editable: bool },
    Label { text: String },
}

/// A change of one property of a live native view.
#[derive(Clone, Debug, PartialEq)]
pub enum NativeHostPropUpdate {
    TextInputText { text: String, programmatic: bool },
    TextInputPlaceholder { placeholder: String },
    TextInputEditable { editable: bool },
    LabelText { text: String },
}

/// Commands a native text input understands.
#[derive(Clone, Copy, Debug, PartialEq, Eq, Structural)]
pub enum NativeTextInputCommand {
    Focus,
    Blur,
    SelectAll,
    Copy,
    Cut,
    Paste,
}

/// A command sent to a native view.
#[derive(Clone, Copy, Debug, PartialEq, Eq, Structural)]
pub enum NativeHostCommand {
    TextInput(NativeTextInputCommand),
}

/// Which property a [`NativeHostPropUpdate`] changes; two updates of the same
/// kind on one view supersede each other.
#[derive(Clone, Copy, Debug, PartialEq, Eq, Structural)]
pub enum NativeHostPropUpdateKind {
    TextInputText,
    TextInputPlaceholder,
    TextInputEditable,
    LabelText,
}

impl NativeHostPropUpdate {
    pub open spec fn spec_kind(&self) -> NativeHostPropUpdateKind {
        match *self {
            NativeHostPropUpdate::TextInputText { .. } => NativeHostPropUpdateKind::TextInputText,
            NativeHostPropUpdate::TextInputPlaceholder { .. } => NativeHostPropUpdateKind::TextInputPlaceholder,
            NativeHostPropUpdate::TextInputEditable { .. } => NativeHostPropUpdateKind::TextInputEditable,
            NativeHostPropUpdate::LabelText { .. } => NativeHostPropUpdateKind::LabelText,
        }
    }

    /// The property this update changes.
    #[verifier::when_used_as_spec(spec_kind)]
    pub fn kind(&self) -> (r: NativeHostPropUpdateKind)
        ensures
            r == self.spec_kind(),
    {
        match self {
            NativeHostPropUpdate::TextInputText { .. } => NativeHostPropUpdateKind::TextInputText,
            NativeHostPropUpdate::TextInputPlaceholder { .. } => NativeHostPropUpdateKind::TextInputPlaceholder,
            NativeHostPropUpdate::TextInputEditable { .. } => NativeHostPropUpdateKind::TextInputEditable,
            NativeHostPropUpdate::LabelText { .. } => NativeHostPropUpdateKind::LabelText,
        }
    }
}

/// One queued change to the set of native views, applied at the next flush.
#[derive(Clone, Debug, PartialEq)]
pub enum NativeMountMutation {
    Create { id: LiveId, kind: NativeHostKind, props: NativeHostProps },
    Layout { id: LiveId, area: Area, visible: bool },
    Props { id: LiveId, update: NativeHostPropUpdate },
    Command { id: LiveId, command: NativeHostCommand },
    Detach { id: LiveId },
    Close { id: LiveId },
}

impl NativeMountMutation {
    pub open spec fn spec_id(&self) -> LiveId {
        match *self {
            NativeMountMutation::Create { id, .. } => id,
            NativeMountMutation::Layout { id, .. } => id,
            NativeMountMutation::Props { id, .. } => id,
            NativeMountMutation::Command { id, .. } => id,
            NativeMountMutation::Detach { id } => id,
            NativeMountMutation::Close { id } => id,
        }
    }

    /// The view this mutation is about.
    #[verifier::when_used_as_spec(spec_id)]
    pub fn id(&self) -> (r: LiveId)
        ensures
            r == self.spec_id(),
    {
        match self {
            NativeMountMutation::Create { id, .. } => *id,
            NativeMountMutation::Layout { id, .. } => *id,
            NativeMountMutation::Props { id, .. } => *id,
            NativeMountMutation::Command { id, .. } => *id,
            NativeMountMutation::Detach { id } => *id,
            NativeMountMutation::Close { id } => *id,
        }
    }

    /// The platform operation that carries out this mutation.
    pub open spec fn spec_os_op(self) -> CxOsOp {
        match self {
            NativeMountMutation::Create { id, kind, props } => CxOsOp::CreateNativeView { id, kind, props },
            NativeMountMutation::Layout { id, area, visible } => CxOsOp::UpdateNativeViewLayout { id, area, visible },
            NativeMountMutation::Props { id, update } => CxOsOp::UpdateNativeViewProps { id, update },
            NativeMountMutation::Command { id, command } => CxOsOp::CommandNativeView { id, command },
            NativeMountMutation::Detach { id } => CxOsOp::DetachNativeView { id },
            NativeMountMutation::Close { id } => CxOsOp::CloseNativeView { id },
        }
    }

    /// Turns the mutation into the platform operation that carries it out.
    pub fn into_os_op(self) -> (r: CxOsOp)
        ensures
            r == self.spec_os_op(),
    {
        match self {
            NativeMountMutation::Create { id, kind, props } => CxOsOp::CreateNativeView { id, kind, props },
            NativeMountMutation::Layout { id, area, visible } => CxOsOp::UpdateNativeViewLayout { id, area, visible },
            NativeMountMutation::Props { id, update } => CxOsOp::UpdateNativeViewProps { id, update },
            NativeMountMutation::Command { id, command } => CxOsOp::CommandNativeView { id, command },
            NativeMountMutation::Detach { id } => CxOsOp::DetachNativeView { id },
            NativeMountMutation::Close { id } => CxOsOp::CloseNativeView { id },
        }
    }
}

// ------------------------------------------------------------------ coalescing model

/// Scanning `acc[..n]` from the back over the entries of view `id`: the index of
/// a Layout that a new Layout may replace. Props entries are stepped over; any
/// other entry of the view is a barrier.
pub open spec fn layout_slot(acc: Seq<NativeMountMutation>, id: LiveId, n: int) -> Option<int>
    decreases n,
{
    if n <= 0 {
        None
    } else if acc[n - 1].spec_id() != id {
        layout_slot(acc, id, n - 1)
    } else {
        match acc[n - 1] {
            NativeMountMutation::Layout { .. } => Some(n - 1),
            NativeMountMutation::Props { .. } => layout_slot(acc, id, n - 1),
            _ => None,
        }
    }
}

/// Like [`layout_slot`], for a Props entry of the same property kind; Layout and
/// Props entries of other kinds are stepped over.
pub open spec fn prop_slot(
    acc: Seq<NativeMountMutation>,
    id: LiveId,
    kind: NativeHostPropUpdateKind,
    n: int,
) -> Option<int>
    decreases n,
{
    if n <= 0 {
        None
    } else if acc[n - 1].spec_id() != id {
        prop_slot(acc, id, kind, n - 1)
    } else {
        match acc[n - 1] {
            NativeMountMutation::Props { update, .. } => if update.spec_kind() == kind {
                Some(n - 1)
            } else {
                prop_slot(acc, id, kind, n - 1)
            },
            NativeMountMutation::Layout { .. } => prop_slot(acc, id, kind, n - 1),
            _ => None,
        }
    }
}

/// Like [`layout_slot`], for a Detach entry.
pub open spec fn detach_slot(acc: Seq<NativeMountMutation>, id: LiveId, n: int) -> Option<int>
    decreases n,
{
    if n <= 0 {
        None
    } else if acc[n - 1].spec_id() != id {
        detach_slot(acc, id, n - 1)
    } else {
        match acc[n - 1] {
            NativeMountMutation::Detach { .. } => Some(n - 1),
            NativeMountMutation::Layout { .. } => detach_slot(acc, id, n - 1),
            NativeMountMutation::Props { .. } => detach_slot(acc, id, n - 1),
            _ => None,
        }
    }
}

/// Whether `s` holds a Create for view `id`.
pub open spec fn has_create(s: Seq<NativeMountMutation>, id: LiveId) -> bool {
    exists|i: int| 0 <= i < s.len() && (#[trigger] s[i]) is Create && s[i].spec_id() == id
}

/// `s` without the entries of view `id`, in order.
pub open spec fn without_id(s: Seq<NativeMountMutation>, id: LiveId) -> Seq<NativeMountMutation>
    decreases s.len(),
{
    if s.len() == 0 {
        s
    } else {
        let rest = without_id(s.drop_last(), id);
        if s.last().spec_id() != id {
            rest.push(s.last())
        } else {
            rest
        }
    }
}

/// `s` without the entries of view `id` other than its Closes, in order.
pub open spec fn without_id_but_closes(s: Seq<NativeMountMutation>, id: LiveId) -> Seq<NativeMountMutation>
    decreases s.len(),
{
    if s.len() == 0 {
        s
    } else {
        let rest = without_id_but_closes(s.drop_last(), id);
        if s.last().spec_id() != id || s.last() is Close {
            rest.push(s.last())
        } else {
            rest
        }
    }
}

/// Puts `m` in place of the entry at `slot`, or appends it when there is none.
pub open spec fn replace_or_push(
    acc: Seq<NativeMountMutation>,
    slot: Option<int>,
    m: NativeMountMutation,
) -> Seq<NativeMountMutation> {
    match slot {
        Some(i) => acc.update(i, m),
        None => acc.push(m),
    }
}

/// Adds one mutation to an already coalesced batch.
pub open spec fn coalesce_step(acc: Seq<NativeMountMutation>, m: NativeMountMutation) -> Seq<NativeMountMutation> {
    match m {
        NativeMountMutation::Layout { id, .. } => replace_or_push(acc, layout_slot(acc, id, acc.len() as int), m),
        NativeMountMutation::Props { id, update } => replace_or_push(
            acc,
            prop_slot(acc, id, update.spec_kind(), acc.len() as int),
            m,
        ),
        NativeMountMutation::Detach { id } => replace_or_push(acc, detach_slot(acc, id, acc.len() as int), m),
        NativeMountMutation::Close { id } => if has_create(acc, id) {
            without_id_but_closes(acc, id)
        } else {
            without_id(acc, id).push(m)
        },
        _ => acc.push(m),
    }
}

/// The batch that a flush hands to the platform for the queued mutations `s`.
pub open spec fn coalesce_spec(s: Seq<NativeMountMutation>) -> Seq<NativeMountMutation>
    decreases s.len(),
{
    if s.len() == 0 {
        s
    } else {
        coalesce_step(coalesce_spec(s.drop_last()), s.last())
    }
}

/// The platform operations for the batch `co`, in the order a flush pushes them:
/// last mutation first, so that popping the operations yields the batch in order.
pub open spec fn ops_in_pop_order(co: Seq<NativeMountMutation>) -> Seq<CxOsOp> {
    Seq::new(co.len(), |j: int| co[co.len() - 1 - j].spec_os_op())
}

// ------------------------------------------------------------------ the queue

/// Native view mutations queued during an event, coalesced and handed to the
/// platform in one flush.
pub struct NativeMountQueue {
    pub in_flush: bool,
    pub mutations: Vec<NativeMountMutation>,
}

impl Default for NativeMountQueue {
    /// An empty queue that is not flushing.
    fn default() -> (r: NativeMountQueue)
        ensures
            r.mutations@.len() == 0,
            !r.in_flush,
    {
        NativeMountQueue::new()
    }
}

impl NativeMountQueue {
    /// An empty queue that is not flushing.
    pub fn new() -> (r: NativeMountQueue)
        ensures
            r.mutations@.len() == 0,
            !r.in_flush,
    {
        NativeMountQueue { in_flush: false, mutations: Vec::new() }
    }

    /// Queues a mutation for the next flush.
    pub fn push(&mut self, mutation: NativeMountMutation)
        ensures
            final(self).mutations@ == old(self).mutations@.push(mutation),
            final(self).in_flush == old(self).in_flush,
    {
        self.mutations.push(mutation);
    }

    /// Coalesces the queued mutations and pushes their platform operations onto
    /// `platform_ops`, last one first. Does nothing while a flush is already
    /// running or when nothing is queued.
    pub fn flush_into(&mut self, platform_ops: &mut Vec<CxOsOp>)
        ensures
            old(self).in_flush || old(self).mutations@.len() == 0 ==> {
                &&& final(self).mutations@ == old(self).mutations@
                &&& final(self).in_flush == old(self).in_flush
                &&& final(platform_ops)@ == old(platform_ops)@
            },
            !(old(self).in_flush || old(self).mutations@.len() == 0) ==> {
                &&& final(self).mutations@.len() == 0
                &&& !final(self).in_flush
                &&& final(platform_ops)@ == old(platform_ops)@ + ops_in_pop_order(
                    coalesce_spec(old(self).mutations@),
                )
            },
    {
        if self.in_flush || self.mutations.len() == 0 {
            return;
        }
        self.in_flush = true;
        let mut mutations: Vec<NativeMountMutation> = Vec::new();
        std::mem::swap(&mut mutations, &mut self.mutations);
        let mut coalesced = Self::coalesce(mutations);
        let ghost co = coalesced@;
        let ghost ops0 = platform_ops@;
        let n = coalesced.len();
        while coalesced.len() > 0
            invariant
                coalesced@ == co.subrange(0, coalesced@.len() as int),
                coalesced@.len() <= n,
                n == co.len(),
                platform_ops@ == ops0 + Seq::new(
                    (n - coalesced@.len()) as nat,
                    |j: int| co[n - 1 - j].spec_os_op(),
                ),
            decreases coalesced.len(),
        {
            let mutation = coalesced.pop().unwrap();
            let op = mutation.into_os_op();
            platform_ops.push(op);
            assert(platform_ops@ =~= ops0 + Seq::new(
                (n - coalesced@.len()) as nat,
                |j: int| co[n - 1 - j].spec_os_op(),
            ));
        }
        assert(platform_ops@ =~= ops0 + ops_in_pop_order(co));
        self.in_flush = false;
    }

    /// Merges a batch of mutations: a Layout, Props or Detach replaces the
    /// previous one of its kind for the same view unless a Create, Command,
    /// Detach or Close of that view lies between them. A Close drops every
    /// earlier mutation of its view; when the batch created the view, it drops
    /// itself too but keeps a Close that came before that Create, so a view
    /// created in an earlier flush is still closed on the host.
    pub fn coalesce(mutations: Vec<NativeMountMutation>) -> (r: Vec<NativeMountMutation>)
        ensures
            r@ == coalesce_spec(mutations@),
    {
        let ghost input = mutations@;
        let mut rest = mutations;
        let mut coalesced: Vec<NativeMountMutation> = Vec::new();
        let total = rest.len();
        let mut k: usize = 0;
        while k < total
            invariant
                k <= total,
                total == input.len(),
                rest@ == input.subrange(k as int, total as int),
                coalesced@ == coalesce_spec(input.subrange(0, k as int)),
            decreases total - k,
        {
            let mutation = rest.remove(0);
            let ghost acc = coalesced@;
            proof {
                let pre = input.subrange(0, k as int + 1);
                assert(pre.drop_last() =~= input.subrange(0, k as int));
                assert(pre.last() == mutation);
            }
            match &mutation {
                NativeMountMutation::Layout { id, .. } => {
                    let id = *id;
                    match Self::replaceable_layout_index(&coalesced, id) {
                        Some(index) => coalesced.set(index, mutation),
                        None => coalesced.push(mutation),
                    }
                },
                NativeMountMutation::Props { id, update } => {
                    let id = *id;
                    let kind = update.kind();
                    match Self::replaceable_prop_index(&coalesced, id, kind) {
                        Some(index) => coalesced.set(index, mutation),
                        None => coalesced.push(mutation),
                    }
                },
                NativeMountMutation::Detach { id } => {
                    let id = *id;
                    match Self::replaceable_detach_index(&coalesced, id) {
                        Some(index) => coalesced.set(index, mutation),
                        None => coalesced.push(mutation),
                    }
                },
                NativeMountMutation::Close { id } => {
                    let id = *id;
                    let had_create = Self::contains_create(&coalesced, id);
                    coalesced = Self::retain_other_views(coalesced, id, had_create);
                    if !had_create {
                        coalesced.push(mutation);
                    }
                },
                NativeMountMutation::Create { .. } => {
                    coalesced.push(mutation);
                },
                NativeMountMutation::Command { .. } => {
                    coalesced.push(mutation);
                },
            }
            assert(coalesced@ == coalesce_step(acc, mutation));
            k = k + 1;
        }
        assert(input.subrange(0, total as int) =~= input);
        coalesced
    }

    /// Whether the batch holds a Create for view `id`.
    fn contains_create(coalesced: &Vec<NativeMountMutation>, id: LiveId) -> (r: bool)
        ensures
            r == has_create(coalesced@, id),
    {
        let mut i: usize = 0;
        while i < coalesced.len()
            invariant
                i <= coalesced@.len(),
                forall|j: int| 0 <= j < i ==> !((#[trigger] coalesced@[j]) is Create && coalesced@[j].spec_id() == id),
            decreases coalesced.len() - i,
        {
            match &coalesced[i] {
                NativeMountMutation::Create { id: cid, .. } => {
                    if *cid == id {
                        assert(coalesced@[i as int] is Create && coalesced@[i as int].spec_id() == id);
                        return true;
                    }
                },
                _ => {},
            }
            i = i + 1;
        }
        false
    }

    /// The batch without the entries of view `id` (but for its Closes, where
    /// `keep_closes`), order kept.
    fn retain_other_views(coalesced: Vec<NativeMountMutation>, id: LiveId, keep_closes: bool) -> (r: Vec<
        NativeMountMutation,
    >)
        ensures
            keep_closes ==> r@ == without_id_but_closes(coalesced@, id),
            !keep_closes ==> r@ == without_id(coalesced@, id),
    {
        let ghost input = coalesced@;
        let mut rest = coalesced;
        let mut kept: Vec<NativeMountMutation> = Vec::new();
        let total = rest.len();
        let mut k: usize = 0;
        while k < total
            invariant
                k <= total,
                total == input.len(),
                rest@ == input.subrange(k as int, total as int),
                keep_closes ==> kept@ == without_id_but_closes(input.subrange(0, k as int), id),
                !keep_closes ==> kept@ == without_id(input.subrange(0, k as int), id),
            decreases total - k,
        {
            let m = rest.remove(0);
            proof {
                let pre = input.subrange(0, k as int + 1);
                assert(pre.drop_last() =~= input.subrange(0, k as int));
                assert(pre.last() == m);
            }
            let is_close = match &m {
                NativeMountMutation::Close { .. } => true,
                _ => false,
            };
            if m.id() != id || (keep_closes && is_close) {
                kept.push(m);
            }
            k = k + 1;
        }
        assert(input.subrange(0, total as int) =~= input);
        kept
    }

    /// The index of the Layout of view `id` that a new Layout replaces, if any.
    fn replaceable_layout_index(coalesced: &Vec<NativeMountMutation>, id: LiveId) -> (r: Option<usize>)
        ensures
            r matches Some(i) ==> i < coalesced@.len(),
            match r {
                Some(i) => layout_slot(coalesced@, id, coalesced@.len() as int) == Some(i as int),
                None => layout_slot(coalesced@, id, coalesced@.len() as int) is None,
            },
    {
        let mut n = coalesced.len();
        while n > 0
            invariant
                n <= coalesced@.len(),
                layout_slot(coalesced@, id, coalesced@.len() as int) == layout_slot(coalesced@, id, n as int),
            decreases n,
        {
            let existing = &coalesced[n - 1];
            if existing.id() == id {
                match existing {
                    NativeMountMutation::Layout { .. } => return Some(n - 1),
                    NativeMountMutation::Props { .. } => {},
                    _ => return None,
                }
            }
            n = n - 1;
        }
        None
    }

    /// The index of the Props entry of view `id` and property `kind` that a new
    /// one replaces, if any.
    fn replaceable_prop_index(
        coalesced: &Vec<NativeMountMutation>,
        id: LiveId,
        kind: NativeHostPropUpdateKind,
    ) -> (r: Option<usize>)
        ensures
            r matches Some(i) ==> i < coalesced@.len(),
            match r {
                Some(i) => prop_slot(coalesced@, id, kind, coalesced@.len() as int) == Some(i as int),
                None => prop_slot(coalesced@, id, kind, coalesced@.len() as int) is None,
            },
    {
        let mut n = coalesced.len();
        while n > 0
            invariant
                n <= coalesced@.len(),
                prop_slot(coalesced@, id, kind, coalesced@.len() as int) == prop_slot(coalesced@, id, kind, n as int),
            decreases n,
        {
            let existing = &coalesced[n - 1];
            if existing.id() == id {
                match existing {
                    NativeMountMutation::Props { update, .. } => {
                        if update.kind() == kind {
                            return Some(n - 1);
                        }
                    },
                    NativeMountMutation::Layout { .. } => {},
                    _ => return None,
                }
            }
            n = n - 1;
        }
        None
    }

    /// The index of the Detach of view `id` that a new Detach replaces, if any.
    fn replaceable_detach_index(coalesced: &Vec<NativeMountMutation>, id: LiveId) -> (r: Option<usize>)
        ensures
            r matches Some(i) ==> i < coalesced@.len(),
            match r {
                Some(i) => detach_slot(coalesced@, id, coalesced@.len() as int) == Some(i as int),
                None => detach_slot(coalesced@, id, coalesced@.len() as int) is None,
            },
    {
        let mut n = coalesced.len();
        while n > 0
            invariant
                n <= coalesced@.len(),
                detach_slot(coalesced@, id, coalesced@.len() as int) == detach_slot(coalesced@, id, n as int),
            decreases n,
        {
            let existing = &coalesced[n - 1];
            if existing.id() == id {
                match existing {
                    NativeMountMutation::Detach { .. } => return Some(n - 1),
                    NativeMountMutation::Layout { .. } => {},
                    NativeMountMutation::Props { .. } => {},
                    _ => return None,
                }
            }
            n = n - 1;
        }
        None
    }
}

} // verus!
