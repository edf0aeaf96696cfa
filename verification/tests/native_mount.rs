use makepad_platform::cx::Cx;
use makepad_platform::ids::{Area, LiveId, NativeLabelId, NativeTextInputId, SystemBrowserId};
use makepad_platform::native_host::{
    NativeHostCommand, NativeHostKind, NativeHostPropUpdate, NativeHostProps, NativeMountMutation,
    NativeMountQueue, NativeTextInputCommand,
};
use makepad_platform::os_op::CxOsOp;

fn test_cx() -> Cx {
    Cx::new()
}

#[test]
fn native_mount_queue_flushes_in_pop_order() {
    let mut queue = NativeMountQueue::default();
    let id = LiveId::from_name("native_mount_queue_test");

    queue.push(NativeMountMutation::Create {
        id,
        kind: NativeHostKind::TextInput,
        props: NativeHostProps::TextInput {
            text: "a".to_string(),
            placeholder: "p".to_string(),
            editable: true,
        },
    });
    queue.push(NativeMountMutation::Layout { id, area: Area::Empty, visible: true });

    let mut ops = Vec::new();
    queue.flush_into(&mut ops);

    assert!(matches!(ops.pop(), Some(CxOsOp::CreateNativeView { .. })));
    assert!(matches!(ops.pop(), Some(CxOsOp::UpdateNativeViewLayout { .. })));
    assert!(ops.is_empty());
}

#[test]
fn native_mount_queue_coalesces_layout_and_props() {
    let mut queue = NativeMountQueue::default();
    let id = LiveId::from_name("native_mount_queue_coalesce_test");

    queue.push(NativeMountMutation::Layout { id, area: Area::Empty, visible: false });
    queue.push(NativeMountMutation::Layout { id, area: Area::Empty, visible: true });
    queue.push(NativeMountMutation::Props {
        id,
        update: NativeHostPropUpdate::TextInputText { text: "old".to_string(), programmatic: true },
    });
    queue.push(NativeMountMutation::Props {
        id,
        update: NativeHostPropUpdate::TextInputText { text: "new".to_string(), programmatic: true },
    });

    let mut ops = Vec::new();
    queue.flush_into(&mut ops);

    assert_eq!(ops.len(), 2);
    assert!(matches!(ops.pop(), Some(CxOsOp::UpdateNativeViewLayout { visible: true, .. })));
    assert!(matches!(
        ops.pop(),
        Some(CxOsOp::UpdateNativeViewProps {
            update: NativeHostPropUpdate::TextInputText { text, .. },
            ..
        }) if text == "new"
    ));
}

#[test]
fn native_mount_queue_create_and_close_in_one_flush_emit_nothing() {
    let mut queue = NativeMountQueue::default();
    let id = LiveId::from_name("native_mount_queue_close_test");

    queue.push(NativeMountMutation::Create {
        id,
        kind: NativeHostKind::Label,
        props: NativeHostProps::Label { text: "temporary".to_string() },
    });
    queue.push(NativeMountMutation::Layout { id, area: Area::Empty, visible: true });
    queue.push(NativeMountMutation::Close { id });

    let mut ops = Vec::new();
    queue.flush_into(&mut ops);

    assert!(ops.is_empty());
}

#[test]
fn native_mount_queue_close_without_create_drops_prior_and_keeps_close() {
    let mut queue = NativeMountQueue::default();
    let id = LiveId::from_name("native_mount_queue_close_keep_test");

    queue.push(NativeMountMutation::Layout { id, area: Area::Empty, visible: true });
    queue.push(NativeMountMutation::Props {
        id,
        update: NativeHostPropUpdate::LabelText { text: "pending".to_string() },
    });
    queue.push(NativeMountMutation::Close { id });

    let mut ops = Vec::new();
    queue.flush_into(&mut ops);

    assert_eq!(ops.len(), 1);
    assert!(matches!(ops.pop(), Some(CxOsOp::CloseNativeView { .. })));
}

#[test]
fn native_mount_queue_preserves_commands() {
    let mut queue = NativeMountQueue::default();
    let id = LiveId::from_name("native_mount_queue_command_test");

    queue.push(NativeMountMutation::Command {
        id,
        command: NativeHostCommand::TextInput(NativeTextInputCommand::Focus),
    });
    queue.push(NativeMountMutation::Command {
        id,
        command: NativeHostCommand::TextInput(NativeTextInputCommand::Blur),
    });

    let mut ops = Vec::new();
    queue.flush_into(&mut ops);

    assert_eq!(ops.len(), 2);
    assert!(matches!(
        ops.pop(),
        Some(CxOsOp::CommandNativeView {
            command: NativeHostCommand::TextInput(NativeTextInputCommand::Focus),
            ..
        })
    ));
    assert!(matches!(
        ops.pop(),
        Some(CxOsOp::CommandNativeView {
            command: NativeHostCommand::TextInput(NativeTextInputCommand::Blur),
            ..
        })
    ));
}

#[test]
fn native_mount_queue_does_not_coalesce_props_across_commands() {
    let mut queue = NativeMountQueue::default();
    let id = LiveId::from_name("native_mount_queue_props_command_barrier_test");

    queue.push(NativeMountMutation::Props {
        id,
        update: NativeHostPropUpdate::TextInputText { text: "before command".to_string(), programmatic: true },
    });
    queue.push(NativeMountMutation::Command {
        id,
        command: NativeHostCommand::TextInput(NativeTextInputCommand::Copy),
    });
    queue.push(NativeMountMutation::Props {
        id,
        update: NativeHostPropUpdate::TextInputText { text: "after command".to_string(), programmatic: true },
    });

    let mut ops = Vec::new();
    queue.flush_into(&mut ops);

    assert_eq!(ops.len(), 3);
    assert!(matches!(
        ops.pop(),
        Some(CxOsOp::UpdateNativeViewProps {
            update: NativeHostPropUpdate::TextInputText { text, .. },
            ..
        }) if text == "before command"
    ));
    assert!(matches!(
        ops.pop(),
        Some(CxOsOp::CommandNativeView {
            command: NativeHostCommand::TextInput(NativeTextInputCommand::Copy),
            ..
        })
    ));
    assert!(matches!(
        ops.pop(),
        Some(CxOsOp::UpdateNativeViewProps {
            update: NativeHostPropUpdate::TextInputText { text, .. },
            ..
        }) if text == "after command"
    ));
}

#[test]
fn native_mount_queue_does_not_coalesce_layout_across_commands() {
    let mut queue = NativeMountQueue::default();
    let id = LiveId::from_name("native_mount_queue_layout_command_barrier_test");

    queue.push(NativeMountMutation::Layout { id, area: Area::Empty, visible: false });
    queue.push(NativeMountMutation::Command {
        id,
        command: NativeHostCommand::TextInput(NativeTextInputCommand::Focus),
    });
    queue.push(NativeMountMutation::Layout { id, area: Area::Empty, visible: true });

    let mut ops = Vec::new();
    queue.flush_into(&mut ops);

    assert_eq!(ops.len(), 3);
    assert!(matches!(ops.pop(), Some(CxOsOp::UpdateNativeViewLayout { visible: false, .. })));
    assert!(matches!(
        ops.pop(),
        Some(CxOsOp::CommandNativeView {
            command: NativeHostCommand::TextInput(NativeTextInputCommand::Focus),
            ..
        })
    ));
    assert!(matches!(ops.pop(), Some(CxOsOp::UpdateNativeViewLayout { visible: true, .. })));
}

#[test]
fn native_mount_queue_close_keeps_other_hosts() {
    let mut queue = NativeMountQueue::default();
    let closing_id = LiveId::from_name("native_mount_queue_close_only_this_host");
    let other_id = LiveId::from_name("native_mount_queue_close_keeps_other_host");

    queue.push(NativeMountMutation::Layout { id: closing_id, area: Area::Empty, visible: true });
    queue.push(NativeMountMutation::Layout { id: other_id, area: Area::Empty, visible: true });
    queue.push(NativeMountMutation::Close { id: closing_id });

    let mut ops = Vec::new();
    queue.flush_into(&mut ops);

    assert_eq!(ops.len(), 2);
    assert!(matches!(
        ops.pop(),
        Some(CxOsOp::UpdateNativeViewLayout { id, .. }) if id == other_id
    ));
    assert!(matches!(
        ops.pop(),
        Some(CxOsOp::CloseNativeView { id }) if id == closing_id
    ));
}

#[test]
fn native_mount_queue_reentrant_flush_is_guarded() {
    let mut queue = NativeMountQueue::default();
    let id = LiveId::from_name("native_mount_queue_reentrant_flush");
    queue.push(NativeMountMutation::Command {
        id,
        command: NativeHostCommand::TextInput(NativeTextInputCommand::Focus),
    });
    queue.in_flush = true;

    let mut ops = Vec::new();
    queue.flush_into(&mut ops);

    assert!(ops.is_empty());
    assert_eq!(queue.mutations.len(), 1);

    queue.in_flush = false;
    queue.flush_into(&mut ops);

    assert!(matches!(
        ops.pop(),
        Some(CxOsOp::CommandNativeView {
            id: op_id,
            command: NativeHostCommand::TextInput(NativeTextInputCommand::Focus),
        }) if op_id == id
    ));
    assert!(queue.mutations.is_empty());
}

#[test]
fn native_text_input_api_flushes_typed_mount_ops() {
    let mut cx = test_cx();
    let id = NativeTextInputId(LiveId::from_name("native_text_input_api_mount_test"));

    cx.native_text_input(id).spawn("initial", "placeholder", true);
    cx.native_text_input(id).update(Area::Empty, true);
    cx.native_text_input(id).set_text("next", true);
    cx.native_text_input(id).command(LiveId::from_name("focus"));
    cx.native_text_input(id).command(LiveId::from_name("native_text_input_unknown_command"));

    assert!(cx.platform_ops.is_empty());
    cx.flush_native_mount_queue();

    assert_eq!(cx.platform_ops.len(), 4);
    assert!(matches!(
        cx.platform_ops.pop(),
        Some(CxOsOp::CreateNativeView {
            id: op_id,
            kind: NativeHostKind::TextInput,
            props: NativeHostProps::TextInput { text, placeholder, editable },
        }) if op_id == id.0 && text == "initial" && placeholder == "placeholder" && editable
    ));
    assert!(matches!(
        cx.platform_ops.pop(),
        Some(CxOsOp::UpdateNativeViewLayout { id: op_id, visible: true, .. }) if op_id == id.0
    ));
    assert!(matches!(
        cx.platform_ops.pop(),
        Some(CxOsOp::UpdateNativeViewProps {
            id: op_id,
            update: NativeHostPropUpdate::TextInputText { text, programmatic },
        }) if op_id == id.0 && text == "next" && programmatic
    ));
    assert!(matches!(
        cx.platform_ops.pop(),
        Some(CxOsOp::CommandNativeView {
            id: op_id,
            command: NativeHostCommand::TextInput(NativeTextInputCommand::Focus),
        }) if op_id == id.0
    ));
}

#[test]
fn native_text_input_api_flushes_props_commands_and_detach() {
    let mut cx = test_cx();
    let id = NativeTextInputId(LiveId::from_name("native_text_input_api_props_test"));

    cx.native_text_input(id).set_placeholder("hint");
    cx.native_text_input(id).set_editable(false);
    cx.native_text_input(id).command(LiveId::from_name("blur"));
    cx.native_text_input(id).detach();

    assert!(cx.platform_ops.is_empty());
    cx.flush_native_mount_queue();

    assert_eq!(cx.platform_ops.len(), 4);
    assert!(matches!(
        cx.platform_ops.pop(),
        Some(CxOsOp::UpdateNativeViewProps {
            id: op_id,
            update: NativeHostPropUpdate::TextInputPlaceholder { placeholder },
        }) if op_id == id.0 && placeholder == "hint"
    ));
    assert!(matches!(
        cx.platform_ops.pop(),
        Some(CxOsOp::UpdateNativeViewProps {
            id: op_id,
            update: NativeHostPropUpdate::TextInputEditable { editable },
        }) if op_id == id.0 && !editable
    ));
    assert!(matches!(
        cx.platform_ops.pop(),
        Some(CxOsOp::CommandNativeView {
            id: op_id,
            command: NativeHostCommand::TextInput(NativeTextInputCommand::Blur),
        }) if op_id == id.0
    ));
    assert!(matches!(
        cx.platform_ops.pop(),
        Some(CxOsOp::DetachNativeView { id: op_id }) if op_id == id.0
    ));
}

#[test]
fn native_text_input_api_flushes_clipboard_commands() {
    let mut cx = test_cx();
    let id = NativeTextInputId(LiveId::from_name("native_text_input_api_clipboard_commands_test"));

    cx.native_text_input(id).command(LiveId::from_name("select_all"));
    cx.native_text_input(id).command(LiveId::from_name("copy"));
    cx.native_text_input(id).command(LiveId::from_name("cut"));
    cx.native_text_input(id).command(LiveId::from_name("paste"));

    cx.flush_native_mount_queue();

    let expected = [
        NativeTextInputCommand::SelectAll,
        NativeTextInputCommand::Copy,
        NativeTextInputCommand::Cut,
        NativeTextInputCommand::Paste,
    ];
    for expected_command in expected {
        assert!(matches!(
            cx.platform_ops.pop(),
            Some(CxOsOp::CommandNativeView {
                id: op_id,
                command: NativeHostCommand::TextInput(command),
            }) if op_id == id.0 && command == expected_command
        ));
    }
    assert!(cx.platform_ops.is_empty());
}

#[test]
fn native_host_ids_parse_from_decimal_strings() {
    assert_eq!("42".parse::<NativeTextInputId>().unwrap(), NativeTextInputId(LiveId(42)));
    assert_eq!("77".parse::<NativeLabelId>().unwrap(), NativeLabelId(LiveId(77)));
    assert!("not-a-number".parse::<NativeTextInputId>().is_err());
    assert!("".parse::<NativeLabelId>().is_err());

    assert_eq!(NativeTextInputId::from(5_u64), NativeTextInputId(LiveId(5)));
    assert_eq!(NativeLabelId::try_from(9_i64).unwrap(), NativeLabelId(LiveId(9)));
    assert!(NativeTextInputId::try_from(-1_i64).is_err());
    assert!(NativeLabelId::try_from(-1_i64).is_err());
}

#[test]
fn native_label_api_flushes_typed_mount_ops() {
    let mut cx = test_cx();
    let id = NativeLabelId(LiveId::from_name("native_label_api_typed_mount_test"));

    cx.native_label(id).spawn("label");
    cx.native_label(id).update(Area::Empty, true);
    cx.native_label(id).set_text("updated");

    assert!(cx.platform_ops.is_empty());
    cx.flush_native_mount_queue();

    assert_eq!(cx.platform_ops.len(), 3);
    assert!(matches!(
        cx.platform_ops.pop(),
        Some(CxOsOp::CreateNativeView {
            id: op_id,
            kind: NativeHostKind::Label,
            props: NativeHostProps::Label { text },
        }) if op_id == id.0 && text == "label"
    ));
    assert!(matches!(
        cx.platform_ops.pop(),
        Some(CxOsOp::UpdateNativeViewLayout { id: op_id, visible: true, .. }) if op_id == id.0
    ));
    assert!(matches!(
        cx.platform_ops.pop(),
        Some(CxOsOp::UpdateNativeViewProps {
            id: op_id,
            update: NativeHostPropUpdate::LabelText { text },
        }) if op_id == id.0 && text == "updated"
    ));
}

#[test]
fn native_label_api_close_coalesces_pending_mount_ops() {
    let mut cx = test_cx();
    let id = NativeLabelId(LiveId::from_name("native_label_api_mount_test"));

    cx.native_label(id).spawn("label");
    cx.native_label(id).set_text("updated");
    cx.native_label(id).close();

    assert!(cx.platform_ops.is_empty());
    cx.flush_native_mount_queue();
    assert!(cx.platform_ops.is_empty());

    cx.native_label(id).spawn("label");
    cx.flush_native_mount_queue();
    cx.platform_ops.clear();

    cx.native_label(id).set_text("pending");
    cx.native_label(id).close();
    cx.flush_native_mount_queue();

    assert_eq!(cx.platform_ops.len(), 1);
    assert!(matches!(
        cx.platform_ops.pop(),
        Some(CxOsOp::CloseNativeView { id: op_id }) if op_id == id.0
    ));
}

#[test]
fn mount_queue_coalesce_keeps_last_layout_of_each_view() {
    let a = LiveId(1);
    let b = LiveId(2);
    let out = NativeMountQueue::coalesce(vec![
        NativeMountMutation::Layout { id: a, area: Area::Empty, visible: false },
        NativeMountMutation::Layout { id: b, area: Area::Empty, visible: false },
        NativeMountMutation::Layout { id: a, area: Area::Empty, visible: true },
    ]);
    assert_eq!(out.len(), 2);
    assert!(matches!(out[0], NativeMountMutation::Layout { id, visible: true, .. } if id == a));
    assert!(matches!(out[1], NativeMountMutation::Layout { id, visible: false, .. } if id == b));
}

#[test]
fn mount_queue_detach_supersedes_earlier_detach() {
    let a = LiveId(3);
    let out = NativeMountQueue::coalesce(vec![
        NativeMountMutation::Detach { id: a },
        NativeMountMutation::Detach { id: a },
    ]);
    assert_eq!(out.len(), 1);
}

#[test]
fn system_browser_api_pushes_platform_ops() {
    let mut cx = test_cx();
    let id = SystemBrowserId(LiveId(9));
    cx.system_browser(id).spawn("https://example.com");
    cx.system_browser(id).set_url("https://example.org", true);
    cx.system_browser(id).history_go(-1);
    cx.system_browser(id).close();
    assert_eq!(cx.platform_ops.len(), 4);
    assert!(matches!(
        &cx.platform_ops[0],
        CxOsOp::SpawnSystemBrowser { browser_id, url } if *browser_id == id.0 && url == "https://example.com"
    ));
    assert!(matches!(
        &cx.platform_ops[1],
        CxOsOp::SetSystemBrowserUrl { browser_id, url, replace: true } if *browser_id == id.0 && url == "https://example.org"
    ));
    assert!(matches!(
        &cx.platform_ops[2],
        CxOsOp::SystemBrowserHistoryGo { browser_id, delta: -1 } if *browser_id == id.0
    ));
    assert!(matches!(&cx.platform_ops[3], CxOsOp::CloseSystemBrowser { browser_id } if *browser_id == id.0));
}

#[test]
fn close_of_an_earlier_view_survives_a_recreate_and_close() {
    let id = LiveId(77);
    let label = |text: &str| NativeMountMutation::Create {
        id,
        kind: NativeHostKind::Label,
        props: NativeHostProps::Label { text: text.to_string() },
    };
    let batch = NativeMountQueue::coalesce(vec![
        NativeMountMutation::Close { id },
        label("t"),
        NativeMountMutation::Layout { id, area: Area::Empty, visible: true },
        NativeMountMutation::Close { id },
    ]);
    assert!(matches!(batch.as_slice(), [NativeMountMutation::Close { id: c }] if *c == id));

    let batch = NativeMountQueue::coalesce(vec![label("t"), NativeMountMutation::Close { id }]);
    assert!(batch.is_empty());

    let mut queue = NativeMountQueue::default();
    queue.push(NativeMountMutation::Close { id });
    queue.push(label("again"));
    let mut ops = Vec::new();
    queue.flush_into(&mut ops);
    assert!(matches!(ops.pop(), Some(CxOsOp::CloseNativeView { id: c }) if c == id));
    assert!(matches!(ops.pop(), Some(CxOsOp::CreateNativeView { .. })));
    assert!(ops.is_empty());
}
