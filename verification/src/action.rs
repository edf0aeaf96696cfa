use vstd::prelude::*;
use crate::cx::{Cx, CxPart};
use crate::ids::{LiveId, NativeLabelId, NativeTextInputId};
use crate::os_op::CxOsOp;

verus! {

/// A native text input's text changed (typed by the user).
#[derive(Clone, Debug)]
pub struct NativeTextInputChanged {
    pub text_input_id: LiveId,
    pub text: String,
}

impl NativeTextInputChanged {
    /// The event for input `id` now holding `text`.
    pub fn new(id: NativeTextInputId, text: String) -> (r: NativeTextInputChanged)
        ensures
            r.text_input_id == id.0,
            r.text == text,
    {
        NativeTextInputChanged { text_input_id: id.0, text }
    }
}

/// A native text input gained or lost keyboard focus.
#[derive(Clone, Copy, Debug, PartialEq, Eq, Structural)]
pub struct NativeTextInputFocusChanged {
    pub text_input_id: LiveId,
    pub has_focus: bool,
}

impl NativeTextInputFocusChanged {
    /// The event for input `id` now having focus or not.
    pub fn new(id: NativeTextInputId, has_focus: bool) -> (r: NativeTextInputFocusChanged)
        ensures
            r == (NativeTextInputFocusChanged { text_input_id: id.0, has_focus }),
    {
        NativeTextInputFocusChanged { text_input_id: id.0, has_focus }
    }
}

/// A native text input's selection moved; `start <= end` always.
#[derive(Clone, Copy, Debug, PartialEq, Eq, Structural)]
pub struct NativeTextInputSelectionChanged {
    pub text_input_id: LiveId,
    pub start: usize,
    pub end: usize,
}

impl NativeTextInputSelectionChanged {
    /// The event for a selection between `start` and `end`, given in either order.
    pub fn new(id: NativeTextInputId, start: usize, end: usize) -> (r: NativeTextInputSelectionChanged)
        ensures
            r.text_input_id == id.0,
            r.start == if start <= end { start } else { end },
            r.end == if start <= end { end } else { start },
    {
        NativeTextInputSelectionChanged {
            text_input_id: id.0,
            start: if start <= end { start } else { end },
            end: if start <= end { end } else { start },
        }
    }
}

/// The platform asks to close a native text input.
#[derive(Clone, Copy, Debug, PartialEq, Eq, Structural)]
pub struct NativeTextInputCloseRequested {
    pub text_input_id: LiveId,
}

impl NativeTextInputCloseRequested {
    /// The close request for input `id`.
    pub fn new(id: NativeTextInputId) -> (r: NativeTextInputCloseRequested)
        ensures
            r.text_input_id == id.0,
    {
        NativeTextInputCloseRequested { text_input_id: id.0 }
    }
}

/// The platform asks to close a native label.
#[derive(Clone, Copy, Debug, PartialEq, Eq, Structural)]
pub struct NativeLabelCloseRequested {
    pub label_id: LiveId,
}

impl NativeLabelCloseRequested {
    /// The close request for label `id`.
    pub fn new(id: NativeLabelId) -> (r: NativeLabelCloseRequested)
        ensures
            r.label_id == id.0,
    {
        NativeLabelCloseRequested { label_id: id.0 }
    }
}

/// Which kind of action a value is.
#[derive(Clone, Copy, Debug, PartialEq, Eq, Structural)]
pub enum ActionKind {
    NativeTextInputChanged,
    NativeTextInputFocusChanged,
    NativeTextInputSelectionChanged,
    NativeTextInputCloseRequested,
    NativeLabelCloseRequested,
    App,
}

/// An action raised during event handling, for the app or for the platform.
#[derive(Clone, Debug)]
pub enum Action {
    NativeTextInputChanged(NativeTextInputChanged),
    NativeTextInputFocusChanged(NativeTextInputFocusChanged),
    NativeTextInputSelectionChanged(NativeTextInputSelectionChanged),
    NativeTextInputCloseRequested(NativeTextInputCloseRequested),
    NativeLabelCloseRequested(NativeLabelCloseRequested),
    /// An action of the app, named by its type and carrying its data as text.
    App { name: String, payload: String },
}

impl Action {
    pub open spec fn spec_kind(&self) -> ActionKind {
        match *self {
            Action::NativeTextInputChanged(_) => ActionKind::NativeTextInputChanged,
            Action::NativeTextInputFocusChanged(_) => ActionKind::NativeTextInputFocusChanged,
            Action::NativeTextInputSelectionChanged(_) => ActionKind::NativeTextInputSelectionChanged,
            Action::NativeTextInputCloseRequested(_) => ActionKind::NativeTextInputCloseRequested,
            Action::NativeLabelCloseRequested(_) => ActionKind::NativeLabelCloseRequested,
            Action::App { .. } => ActionKind::App,
        }
    }

    /// Whether this action is of kind `kind`.
    pub fn is(&self, kind: ActionKind) -> (r: bool)
        ensures
            r == (self.spec_kind() == kind),
    {
        let mine = match self {
            Action::NativeTextInputChanged(_) => ActionKind::NativeTextInputChanged,
            Action::NativeTextInputFocusChanged(_) => ActionKind::NativeTextInputFocusChanged,
            Action::NativeTextInputSelectionChanged(_) => ActionKind::NativeTextInputSelectionChanged,
            Action::NativeTextInputCloseRequested(_) => ActionKind::NativeTextInputCloseRequested,
            Action::NativeLabelCloseRequested(_) => ActionKind::NativeLabelCloseRequested,
            Action::App { .. } => ActionKind::App,
        };
        mine == kind
    }
}

/// The platform operations and app actions after one received action: a
/// close request for a native view adds the operation that closes it, and
/// any other action is queued for the app.
pub open spec fn receive_one(state: (Seq<CxOsOp>, Seq<Action>), action: Action) -> (Seq<CxOsOp>, Seq<Action>) {
    match action {
        Action::NativeTextInputCloseRequested(close) => (
            state.0.push(CxOsOp::CloseNativeView { id: close.text_input_id }),
            state.1,
        ),
        Action::NativeLabelCloseRequested(close) => (state.0.push(CxOsOp::CloseNativeView { id: close.label_id }), state.1),
        _ => (state.0, state.1.push(action)),
    }
}

/// The platform operations and app actions after `actions`, taken in order.
pub open spec fn receive_all(state: (Seq<CxOsOp>, Seq<Action>), actions: Seq<Action>) -> (Seq<CxOsOp>, Seq<Action>)
    decreases actions.len(),
{
    if actions.len() == 0 {
        state
    } else {
        receive_all(receive_one(state, actions[0]), actions.drop_first())
    }
}

impl Cx {
    /// Takes one action that arrived from a background thread: a close request
    /// for a native view becomes a platform operation that closes it; any other
    /// action is queued for the app.
    pub fn handle_received_action(&mut self, action: Action)
        ensures
            match action {
                Action::NativeTextInputCloseRequested(close) => {
                    &&& final(self).platform_ops@ == old(self).platform_ops@.push(
                        CxOsOp::CloseNativeView { id: close.text_input_id },
                    )
                    &&& final(self).new_actions@ == old(self).new_actions@
                },
                Action::NativeLabelCloseRequested(close) => {
                    &&& final(self).platform_ops@ == old(self).platform_ops@.push(
                        CxOsOp::CloseNativeView { id: close.label_id },
                    )
                    &&& final(self).new_actions@ == old(self).new_actions@
                },
                _ => {
                    &&& final(self).platform_ops@ == old(self).platform_ops@
                    &&& final(self).new_actions@ == old(self).new_actions@.push(action)
                },
            },
            final(self).rest_unchanged(*old(self)),
    {
        match action {
            Action::NativeTextInputCloseRequested(close) => {
                self.platform_ops.push(CxOsOp::CloseNativeView { id: close.text_input_id });
            },
            Action::NativeLabelCloseRequested(close) => {
                self.platform_ops.push(CxOsOp::CloseNativeView { id: close.label_id });
            },
            other => {
                self.new_actions.push(other);
            },
        }
    }

    /// Takes, in order, the actions that arrived from background threads, each
    /// as [`Cx::handle_received_action`] does.
    pub fn handle_received_actions(&mut self, actions: Vec<Action>)
        ensures
            final(self).rest_unchanged(*old(self)),
            (final(self).platform_ops@, final(self).new_actions@) == receive_all(
                (old(self).platform_ops@, old(self).new_actions@),
                actions@,
            ),
    {
        let mut rest = actions;
        while rest.len() > 0
            invariant
                self.rest_unchanged(*old(self)),
                receive_all((self.platform_ops@, self.new_actions@), rest@) == receive_all(
                    (old(self).platform_ops@, old(self).new_actions@),
                    actions@,
                ),
            decreases rest.len(),
        {
            let ghost before = rest@;
            let action = rest.remove(0);
            assert(before.drop_first() =~= rest@);
            self.handle_received_action(action);
        }
    }

    /// Queues an action for the app.
    pub fn action(&mut self, action: Action)
        ensures
            final(self).new_actions@ == old(self).new_actions@.push(action),
            final(self).platform_ops@ == old(self).platform_ops@,
            final(self).rest_unchanged(*old(self)),
    {
        self.new_actions.push(action);
    }

    /// Puts `actions` back after the queued actions, so that the rest of the UI
    /// tree receives them too.
    pub fn extend_actions(&mut self, actions: Vec<Action>)
        ensures
            final(self).new_actions@ == old(self).new_actions@ + actions@,
            final(self).platform_ops@ == old(self).platform_ops@,
            final(self).rest_unchanged(*old(self)),
    {
        let mut rest = actions;
        let ghost start = self.new_actions@;
        let ghost all = actions@;
        let mut k: usize = 0;
        let total = rest.len();
        while k < total
            invariant
                k <= total,
                total == all.len(),
                rest@ == all.subrange(k as int, total as int),
                self.new_actions@ == start + all.subrange(0, k as int),
                self.platform_ops@ == old(self).platform_ops@,
                self.rest_unchanged(*old(self)),
            decreases total - k,
        {
            let a = rest.remove(0);
            self.new_actions.push(a);
            assert(self.new_actions@ =~= start + all.subrange(0, k as int + 1));
            k = k + 1;
        }
        assert(all.subrange(0, total as int) =~= all);
    }
}

} // verus!

verus! {

impl Cx {
    /// Runs `f` and hands back the actions it raised; the actions queued
    /// before it stay queued, and the ones it raised are not delivered. `f`
    /// runs on this context with no actions queued; whatever else it changes
    /// stays changed.
    pub fn capture_actions<F>(&mut self, f: F) -> (r: Vec<Action>)
        where
            F: FnOnce(&mut Cx),
        requires
            forall|c: &mut Cx| f.requires((c,)),
        ensures
            final(self).new_actions@ == old(self).new_actions@,
            exists|c: &mut Cx|
                {
                    &&& c.unchanged_except(*old(self), set![CxPart::NewActions])
                    &&& c.new_actions@.len() == 0
                    &&& f.ensures((c,), ())
                    &&& r@ == final(c).new_actions@
                    &&& final(self).unchanged_except(*final(c), set![CxPart::NewActions])
                },
    {
        let mut actions: Vec<Action> = Vec::new();
        std::mem::swap(&mut self.new_actions, &mut actions);
        let ghost before = *self;
        f(self);
        let ghost after = *self;
        proof {
            assert(exists|c: &mut Cx| *c == before && *final(c) == after && f.ensures((c,), ()));
        }
        let ghost c = choose|c: &mut Cx| *c == before && *final(c) == after && f.ensures((c,), ());
        std::mem::swap(&mut self.new_actions, &mut actions);
        proof {
            assert(c.unchanged_except(*old(self), set![CxPart::NewActions]));
            assert(actions@ == final(c).new_actions@);
            assert(self.unchanged_except(*final(c), set![CxPart::NewActions]));
        }
        actions
    }

    /// Runs `f`, then hands the actions it queued after the ones already
    /// there to `g` and queues what `g` gives back in their place; returns
    /// what `f` returned; `g` runs only where `f` queued some. `f` may not
    /// take queued actions away.
    pub fn map_actions<F, G, R>(&mut self, f: F, g: G) -> (r: R)
        where
            F: FnOnce(&mut Cx) -> R,
            G: FnOnce(&mut Cx, Vec<Action>) -> Vec<Action>,
        requires
            forall|c: &mut Cx| f.requires((c,)),
            forall|c: &mut Cx, res: R| #[trigger] f.ensures((c,), res) ==> final(c).new_actions@.len()
                >= c.new_actions@.len(),
            forall|c: &mut Cx, buf: Vec<Action>| g.requires((c, buf)),
        ensures
            exists|c: &mut Cx|
                {
                    let start = old(self).new_actions@.len();
                    let raised = final(c).new_actions@;
                    &&& *c == *old(self)
                    &&& #[trigger] f.ensures((c,), r)
                    &&& if start < raised.len() {
                        exists|d: &mut Cx, buf: Vec<Action>, mapped: Vec<Action>|
                            {
                                &&& d.unchanged_except(*final(c), set![CxPart::NewActions])
                                &&& d.new_actions@ == raised.subrange(0, start as int)
                                &&& buf@ == raised.subrange(start as int, raised.len() as int)
                                &&& #[trigger] g.ensures((d, buf), mapped)
                                &&& final(self).unchanged_except(*final(d), set![CxPart::NewActions])
                                &&& final(self).new_actions@ == final(d).new_actions@ + mapped@
                            }
                    } else {
                        *final(self) == *final(c)
                    }
                },
    {
        let start = self.new_actions.len();
        let ghost before = *self;
        let r = f(self);
        let ghost after = *self;
        proof {
            assert(exists|c: &mut Cx| *c == before && *final(c) == after && f.ensures((c,), r));
        }
        let ghost c = choose|c: &mut Cx| *c == before && *final(c) == after && f.ensures((c,), r);
        let end = self.new_actions.len();
        if start != end {
            let buf = self.new_actions.split_off(start);
            let ghost d_before = *self;
            let ghost buf_view = buf;
            let mut mapped = g(self, buf);
            let ghost d_after = *self;
            proof {
                assert(exists|d: &mut Cx| *d == d_before && *final(d) == d_after && g.ensures((d, buf_view), mapped));
            }
            let ghost d = choose|d: &mut Cx| *d == d_before && *final(d) == d_after && g.ensures((d, buf_view), mapped);
            let ghost m = mapped;
            self.new_actions.append(&mut mapped);
            proof {
                assert(d.unchanged_except(*final(c), set![CxPart::NewActions]));
                assert(self.unchanged_except(*final(d), set![CxPart::NewActions]));
                assert(self.new_actions@ == final(d).new_actions@ + m@);
            }
        }
        r
    }

    /// Runs `f`, then lets `g` change in place the actions it queued after
    /// the ones already there; returns what `f` returned; `g` runs only where
    /// `f` queued some. `f` may not take queued actions away.
    pub fn mutate_actions<F, G, R>(&mut self, f: F, g: G) -> (r: R)
        where
            F: FnOnce(&mut Cx) -> R,
            G: FnOnce(&mut [Action]),
        requires
            forall|c: &mut Cx| f.requires((c,)),
            forall|c: &mut Cx, res: R| #[trigger] f.ensures((c,), res) ==> final(c).new_actions@.len()
                >= c.new_actions@.len(),
            forall|s: &mut [Action]| g.requires((s,)),
        ensures
            exists|c: &mut Cx|
                {
                    let start = old(self).new_actions@.len();
                    let raised = final(c).new_actions@;
                    &&& *c == *old(self)
                    &&& #[trigger] f.ensures((c,), r)
                    &&& if start < raised.len() {
                        exists|s: &mut [Action]|
                            {
                                &&& s@ == raised.subrange(start as int, raised.len() as int)
                                &&& #[trigger] g.ensures((s,), ())
                                &&& final(self).unchanged_except(*final(c), set![CxPart::NewActions])
                                &&& final(self).new_actions@ == raised.subrange(0, start as int) + final(s)@
                            }
                    } else {
                        *final(self) == *final(c)
                    }
                },
    {
        let start = self.new_actions.len();
        let ghost before = *self;
        let r = f(self);
        let ghost after = *self;
        proof {
            assert(exists|c: &mut Cx| *c == before && *final(c) == after && f.ensures((c,), r));
        }
        let ghost c = choose|c: &mut Cx| *c == before && *final(c) == after && f.ensures((c,), r);
        let end = self.new_actions.len();
        if start != end {
            let mut tail = self.new_actions.split_off(start);
            let ghost tail_before = tail@;
            let slice = tail.as_mut_slice();
            g(slice);
            proof {
                assert(exists|s: &mut [Action]| s@ == tail_before && final(s)@ == tail@ && g.ensures((s,), ()));
            }
            let ghost s = choose|s: &mut [Action]| s@ == tail_before && final(s)@ == tail@ && g.ensures((s,), ());
            let ghost prefix = self.new_actions@;
            self.new_actions.append(&mut tail);
            proof {
                assert(self.new_actions@ == prefix + final(s)@);
            }
        }
        r
    }
}

} // verus!
