use vstd::prelude::*;
use crate::cx::{Cx, CxPart};
use crate::ids::{spec_live_id_from_name, Area, LiveId, NativeLabelId, NativeTextInputId, SystemBrowserId};
use crate::native_host::{
    coalesce_spec, ops_in_pop_order, NativeHostCommand, NativeHostKind, NativeHostPropUpdate,
    NativeHostProps, NativeMountMutation, NativeTextInputCommand,
};
use crate::os_op::CxOsOp;

verus! {

/// Whether queue `new` is queue `old` with one more mutation, `new.mutations@.last()`.
pub open spec fn queued_one(new: Cx, old: Cx) -> bool {
    &&& new.native_mount_queue.in_flush == old.native_mount_queue.in_flush
    &&& new.native_mount_queue.mutations@.len() == old.native_mount_queue.mutations@.len() + 1
    &&& new.native_mount_queue.mutations@.drop_last() == old.native_mount_queue.mutations@
    &&& new.unchanged_except(old, set![CxPart::MountQueue])
}

/// The most recently queued native view mutation.
pub open spec fn last_mutation(cx: Cx) -> NativeMountMutation {
    cx.native_mount_queue.mutations@.last()
}

/// The text input command that a command name stands for, if any.
pub open spec fn text_input_command_for(command: LiveId) -> Option<NativeTextInputCommand> {
    if command == spec_live_id_from_name("focus"@) {
        Some(NativeTextInputCommand::Focus)
    } else if command == spec_live_id_from_name("blur"@) {
        Some(NativeTextInputCommand::Blur)
    } else if command == spec_live_id_from_name("select_all"@) {
        Some(NativeTextInputCommand::SelectAll)
    } else if command == spec_live_id_from_name("copy"@) {
        Some(NativeTextInputCommand::Copy)
    } else if command == spec_live_id_from_name("cut"@) {
        Some(NativeTextInputCommand::Cut)
    } else if command == spec_live_id_from_name("paste"@) {
        Some(NativeTextInputCommand::Paste)
    } else {
        None
    }
}

impl Cx {
    /// Queues a native view mutation for the next flush.
    pub fn queue_native_mount_mutation(&mut self, mutation: NativeMountMutation)
        ensures
            final(self).native_mount_queue.mutations@ == old(self).native_mount_queue.mutations@.push(mutation),
            final(self).native_mount_queue.in_flush == old(self).native_mount_queue.in_flush,
            final(self).unchanged_except(*old(self), set![CxPart::MountQueue]),
    {
        self.native_mount_queue.push(mutation);
    }

    /// Coalesces the queued native view mutations into platform operations.
    pub fn flush_native_mount_queue(&mut self)
        ensures
            final(self).unchanged_except(*old(self), set![CxPart::MountQueue, CxPart::PlatformOps]),
            old(self).native_mount_queue.in_flush || old(self).native_mount_queue.mutations@.len() == 0 ==> {
                &&& final(self).native_mount_queue.mutations@ == old(self).native_mount_queue.mutations@
                &&& final(self).native_mount_queue.in_flush == old(self).native_mount_queue.in_flush
                &&& final(self).platform_ops@ == old(self).platform_ops@
            },
            !(old(self).native_mount_queue.in_flush || old(self).native_mount_queue.mutations@.len() == 0)
                ==> {
                &&& final(self).native_mount_queue.mutations@.len() == 0
                &&& !final(self).native_mount_queue.in_flush
                &&& final(self).platform_ops@ == old(self).platform_ops@ + ops_in_pop_order(
                    coalesce_spec(old(self).native_mount_queue.mutations@),
                )
            },
    {
        self.native_mount_queue.flush_into(&mut self.platform_ops);
    }

    /// The handle of system browser `id`.
    pub fn system_browser(&mut self, id: SystemBrowserId) -> (r: CxSystemBrowser<'_>)
        ensures
            *r.cx == *old(self),
            r.id == id,
            *final(self) == *final(r.cx),
    {
        CxSystemBrowser { cx: self, id }
    }

    /// The handle of native text input `id`.
    pub fn native_text_input(&mut self, id: NativeTextInputId) -> (r: CxNativeTextInput<'_>)
        ensures
            *r.cx == *old(self),
            r.id == id,
            *final(self) == *final(r.cx),
    {
        CxNativeTextInput { cx: self, id }
    }

    /// The handle of native label `id`.
    pub fn native_label(&mut self, id: NativeLabelId) -> (r: CxNativeLabel<'_>)
        ensures
            *r.cx == *old(self),
            r.id == id,
            *final(self) == *final(r.cx),
    {
        CxNativeLabel { cx: self, id }
    }
}

/// Drives one native text input through the context's mount queue.
pub struct CxNativeTextInput<'a> {
    pub cx: &'a mut Cx,
    pub id: NativeTextInputId,
}

impl<'a> CxNativeTextInput<'a> {
    /// Creates the input with its text, placeholder and editability.
    pub fn spawn(&mut self, text: &str, placeholder: &str, editable: bool)
        ensures
            final(self).id == old(self).id,
            *final(final(self).cx) == *final(old(self).cx),
            queued_one(*final(self).cx, *old(self).cx),
            last_mutation(*final(self).cx) matches NativeMountMutation::Create {
                id,
                kind: NativeHostKind::TextInput,
                props: NativeHostProps::TextInput { text: t, placeholder: p, editable: e },
            } && id == old(self).id.0 && t@ == text@ && p@ == placeholder@ && e == editable,
    {
        self.cx.queue_native_mount_mutation(
            NativeMountMutation::Create {
                id: self.id.0,
                kind: NativeHostKind::TextInput,
                props: NativeHostProps::TextInput {
                    text: text.to_owned(),
                    placeholder: placeholder.to_owned(),
                    editable,
                },
            },
        );
        assert(self.cx.native_mount_queue.mutations@.drop_last() =~= old(self).cx.native_mount_queue.mutations@);
    }

    /// Places the input over `area`, shown or hidden.
    pub fn update(&mut self, area: Area, visible: bool)
        ensures
            final(self).id == old(self).id,
            *final(final(self).cx) == *final(old(self).cx),
            final(self).cx.native_mount_queue.mutations@ == old(self).cx.native_mount_queue.mutations@.push(
                NativeMountMutation::Layout { id: old(self).id.0, area, visible },
            ),
            queued_one(*final(self).cx, *old(self).cx),
    {
        self.cx.queue_native_mount_mutation(NativeMountMutation::Layout { id: self.id.0, area, visible });
        assert(self.cx.native_mount_queue.mutations@.drop_last() =~= old(self).cx.native_mount_queue.mutations@);
    }

    /// Takes the input off screen, keeping it alive.
    pub fn detach(&mut self)
        ensures
            final(self).id == old(self).id,
            *final(final(self).cx) == *final(old(self).cx),
            final(self).cx.native_mount_queue.mutations@ == old(self).cx.native_mount_queue.mutations@.push(
                NativeMountMutation::Detach { id: old(self).id.0 },
            ),
            queued_one(*final(self).cx, *old(self).cx),
    {
        self.cx.queue_native_mount_mutation(NativeMountMutation::Detach { id: self.id.0 });
        assert(self.cx.native_mount_queue.mutations@.drop_last() =~= old(self).cx.native_mount_queue.mutations@);
    }

    /// Sets the text; `programmatic` marks a change the app made itself.
    pub fn set_text(&mut self, text: &str, programmatic: bool)
        ensures
            final(self).id == old(self).id,
            *final(final(self).cx) == *final(old(self).cx),
            queued_one(*final(self).cx, *old(self).cx),
            last_mutation(*final(self).cx) matches NativeMountMutation::Props {
                id,
                update: NativeHostPropUpdate::TextInputText { text: t, programmatic: p },
            } && id == old(self).id.0 && t@ == text@ && p == programmatic,
    {
        self.cx.queue_native_mount_mutation(
            NativeMountMutation::Props {
                id: self.id.0,
                update: NativeHostPropUpdate::TextInputText { text: text.to_owned(), programmatic },
            },
        );
        assert(self.cx.native_mount_queue.mutations@.drop_last() =~= old(self).cx.native_mount_queue.mutations@);
    }

    /// Sets the placeholder.
    pub fn set_placeholder(&mut self, placeholder: &str)
        ensures
            final(self).id == old(self).id,
            *final(final(self).cx) == *final(old(self).cx),
            queued_one(*final(self).cx, *old(self).cx),
            last_mutation(*final(self).cx) matches NativeMountMutation::Props {
                id,
                update: NativeHostPropUpdate::TextInputPlaceholder { placeholder: p },
            } && id == old(self).id.0 && p@ == placeholder@,
    {
        self.cx.queue_native_mount_mutation(
            NativeMountMutation::Props {
                id: self.id.0,
                update: NativeHostPropUpdate::TextInputPlaceholder { placeholder: placeholder.to_owned() },
            },
        );
        assert(self.cx.native_mount_queue.mutations@.drop_last() =~= old(self).cx.native_mount_queue.mutations@);
    }

    /// Makes the input editable or read-only.
    pub fn set_editable(&mut self, editable: bool)
        ensures
            final(self).id == old(self).id,
            *final(final(self).cx) == *final(old(self).cx),
            queued_one(*final(self).cx, *old(self).cx),
            last_mutation(*final(self).cx) matches NativeMountMutation::Props {
                id,
                update: NativeHostPropUpdate::TextInputEditable { editable: e },
            } && id == old(self).id.0 && e == editable,
    {
        self.cx.queue_native_mount_mutation(
            NativeMountMutation::Props {
                id: self.id.0,
                update: NativeHostPropUpdate::TextInputEditable { editable },
            },
        );
        assert(self.cx.native_mount_queue.mutations@.drop_last() =~= old(self).cx.native_mount_queue.mutations@);
    }

    /// Sends the command named `command` (`focus`, `blur`, `select_all`,
    /// `copy`, `cut` or `paste`); other names are ignored.
    pub fn command(&mut self, command: LiveId)
        ensures
            final(self).id == old(self).id,
            *final(final(self).cx) == *final(old(self).cx),
            match text_input_command_for(command) {
                Some(c) => final(self).cx.native_mount_queue.mutations@
                    == old(self).cx.native_mount_queue.mutations@.push(
                    NativeMountMutation::Command { id: old(self).id.0, command: NativeHostCommand::TextInput(c) },
                ) && queued_one(*final(self).cx, *old(self).cx),
                None => *final(self).cx == *old(self).cx,
            },
    {
        let command = if command == LiveId::from_name("focus") {
            NativeHostCommand::TextInput(NativeTextInputCommand::Focus)
        } else if command == LiveId::from_name("blur") {
            NativeHostCommand::TextInput(NativeTextInputCommand::Blur)
        } else if command == LiveId::from_name("select_all") {
            NativeHostCommand::TextInput(NativeTextInputCommand::SelectAll)
        } else if command == LiveId::from_name("copy") {
            NativeHostCommand::TextInput(NativeTextInputCommand::Copy)
        } else if command == LiveId::from_name("cut") {
            NativeHostCommand::TextInput(NativeTextInputCommand::Cut)
        } else if command == LiveId::from_name("paste") {
            NativeHostCommand::TextInput(NativeTextInputCommand::Paste)
        } else {
            return;
        };
        self.cx.queue_native_mount_mutation(NativeMountMutation::Command { id: self.id.0, command });
        assert(self.cx.native_mount_queue.mutations@.drop_last() =~= old(self).cx.native_mount_queue.mutations@);
    }

    /// Closes the input for good.
    pub fn close(&mut self)
        ensures
            final(self).id == old(self).id,
            *final(final(self).cx) == *final(old(self).cx),
            final(self).cx.native_mount_queue.mutations@ == old(self).cx.native_mount_queue.mutations@.push(
                NativeMountMutation::Close { id: old(self).id.0 },
            ),
            queued_one(*final(self).cx, *old(self).cx),
    {
        self.cx.queue_native_mount_mutation(NativeMountMutation::Close { id: self.id.0 });
        assert(self.cx.native_mount_queue.mutations@.drop_last() =~= old(self).cx.native_mount_queue.mutations@);
    }
}

/// Drives one native label through the context's mount queue.
pub struct CxNativeLabel<'a> {
    pub cx: &'a mut Cx,
    pub id: NativeLabelId,
}

impl<'a> CxNativeLabel<'a> {
    /// Creates the label with its text.
    pub fn spawn(&mut self, text: &str)
        ensures
            final(self).id == old(self).id,
            *final(final(self).cx) == *final(old(self).cx),
            queued_one(*final(self).cx, *old(self).cx),
            last_mutation(*final(self).cx) matches NativeMountMutation::Create {
                id,
                kind: NativeHostKind::Label,
                props: NativeHostProps::Label { text: t },
            } && id == old(self).id.0 && t@ == text@,
    {
        self.cx.queue_native_mount_mutation(
            NativeMountMutation::Create {
                id: self.id.0,
                kind: NativeHostKind::Label,
                props: NativeHostProps::Label { text: text.to_owned() },
            },
        );
        assert(self.cx.native_mount_queue.mutations@.drop_last() =~= old(self).cx.native_mount_queue.mutations@);
    }

    /// Places the label over `area`, shown or hidden.
    pub fn update(&mut self, area: Area, visible: bool)
        ensures
            final(self).id == old(self).id,
            *final(final(self).cx) == *final(old(self).cx),
            final(self).cx.native_mount_queue.mutations@ == old(self).cx.native_mount_queue.mutations@.push(
                NativeMountMutation::Layout { id: old(self).id.0, area, visible },
            ),
            queued_one(*final(self).cx, *old(self).cx),
    {
        self.cx.queue_native_mount_mutation(NativeMountMutation::Layout { id: self.id.0, area, visible });
        assert(self.cx.native_mount_queue.mutations@.drop_last() =~= old(self).cx.native_mount_queue.mutations@);
    }

    /// Takes the label off screen, keeping it alive.
    pub fn detach(&mut self)
        ensures
            final(self).id == old(self).id,
            *final(final(self).cx) == *final(old(self).cx),
            final(self).cx.native_mount_queue.mutations@ == old(self).cx.native_mount_queue.mutations@.push(
                NativeMountMutation::Detach { id: old(self).id.0 },
            ),
            queued_one(*final(self).cx, *old(self).cx),
    {
        self.cx.queue_native_mount_mutation(NativeMountMutation::Detach { id: self.id.0 });
        assert(self.cx.native_mount_queue.mutations@.drop_last() =~= old(self).cx.native_mount_queue.mutations@);
    }

    /// Sets the text.
    pub fn set_text(&mut self, text: &str)
        ensures
            final(self).id == old(self).id,
            *final(final(self).cx) == *final(old(self).cx),
            queued_one(*final(self).cx, *old(self).cx),
            last_mutation(*final(self).cx) matches NativeMountMutation::Props {
                id,
                update: NativeHostPropUpdate::LabelText { text: t },
            } && id == old(self).id.0 && t@ == text@,
    {
        self.cx.queue_native_mount_mutation(
            NativeMountMutation::Props {
                id: self.id.0,
                update: NativeHostPropUpdate::LabelText { text: text.to_owned() },
            },
        );
        assert(self.cx.native_mount_queue.mutations@.drop_last() =~= old(self).cx.native_mount_queue.mutations@);
    }

    /// Closes the label for good.
    pub fn close(&mut self)
        ensures
            final(self).id == old(self).id,
            *final(final(self).cx) == *final(old(self).cx),
            final(self).cx.native_mount_queue.mutations@ == old(self).cx.native_mount_queue.mutations@.push(
                NativeMountMutation::Close { id: old(self).id.0 },
            ),
            queued_one(*final(self).cx, *old(self).cx),
    {
        self.cx.queue_native_mount_mutation(NativeMountMutation::Close { id: self.id.0 });
        assert(self.cx.native_mount_queue.mutations@.drop_last() =~= old(self).cx.native_mount_queue.mutations@);
    }
}

/// Drives one system browser view through platform operations.
pub struct CxSystemBrowser<'a> {
    pub cx: &'a mut Cx,
    pub id: SystemBrowserId,
}

impl<'a> CxSystemBrowser<'a> {
    /// The browser's id.
    pub fn id(&self) -> (r: SystemBrowserId)
        ensures
            r == self.id,
    {
        self.id
    }

    /// Opens the browser on `url`.
    pub fn spawn(&mut self, url: &str)
        ensures
            final(self).id == old(self).id,
            *final(final(self).cx) == *final(old(self).cx),
            final(self).cx.pushed_one_op(*old(self).cx),
            final(self).cx.last_op() matches CxOsOp::SpawnSystemBrowser { browser_id, url: u } && browser_id
                == old(self).id.0 && u@ == url@,
    {
        self.cx.platform_ops.push(CxOsOp::SpawnSystemBrowser { browser_id: self.id.0, url: url.to_owned() });
        assert(self.cx.platform_ops@.drop_last() =~= old(self).cx.platform_ops@);
    }

    /// Places the browser over `area`, shown or hidden.
    pub fn update(&mut self, area: Area, visible: bool)
        ensures
            final(self).id == old(self).id,
            *final(final(self).cx) == *final(old(self).cx),
            final(self).cx.pushed_op(
                *old(self).cx,
                CxOsOp::UpdateSystemBrowser { browser_id: old(self).id.0, area, visible },
            ),
    {
        self.cx.platform_ops.push(CxOsOp::UpdateSystemBrowser { browser_id: self.id.0, area, visible });
    }

    /// Takes the browser off screen, keeping it alive.
    pub fn detach(&mut self)
        ensures
            final(self).id == old(self).id,
            *final(final(self).cx) == *final(old(self).cx),
            final(self).cx.pushed_op(*old(self).cx, CxOsOp::DetachSystemBrowser { browser_id: old(self).id.0 }),
    {
        self.cx.platform_ops.push(CxOsOp::DetachSystemBrowser { browser_id: self.id.0 });
    }

    /// Navigates to `url`, replacing the current history entry when `replace`.
    pub fn set_url(&mut self, url: &str, replace: bool)
        ensures
            final(self).id == old(self).id,
            *final(final(self).cx) == *final(old(self).cx),
            final(self).cx.pushed_one_op(*old(self).cx),
            final(self).cx.last_op() matches CxOsOp::SetSystemBrowserUrl { browser_id, url: u, replace: r }
                && browser_id == old(self).id.0 && u@ == url@ && r == replace,
    {
        self.cx.platform_ops.push(
            CxOsOp::SetSystemBrowserUrl { browser_id: self.id.0, url: url.to_owned(), replace },
        );
        assert(self.cx.platform_ops@.drop_last() =~= old(self).cx.platform_ops@);
    }

    /// Moves `delta` steps through the browser history.
    pub fn history_go(&mut self, delta: i32)
        ensures
            final(self).id == old(self).id,
            *final(final(self).cx) == *final(old(self).cx),
            final(self).cx.pushed_op(
                *old(self).cx,
                CxOsOp::SystemBrowserHistoryGo { browser_id: old(self).id.0, delta },
            ),
    {
        self.cx.platform_ops.push(CxOsOp::SystemBrowserHistoryGo { browser_id: self.id.0, delta });
    }

    /// Closes the browser.
    pub fn close(&mut self)
        ensures
            final(self).id == old(self).id,
            *final(final(self).cx) == *final(old(self).cx),
            final(self).cx.pushed_op(*old(self).cx, CxOsOp::CloseSystemBrowser { browser_id: old(self).id.0 }),
    {
        self.cx.platform_ops.push(CxOsOp::CloseSystemBrowser { browser_id: self.id.0 });
    }
}

} // verus!
