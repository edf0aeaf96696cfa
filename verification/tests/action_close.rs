use makepad_platform::action::{
    Action, ActionKind, NativeLabelCloseRequested, NativeTextInputCloseRequested,
};
use makepad_platform::cx::Cx;
use makepad_platform::ids::{LiveId, NativeLabelId, NativeTextInputId};
use makepad_platform::os_op::CxOsOp;

fn test_cx() -> Cx {
    Cx::new()
}

#[test]
fn native_text_input_close_request_becomes_platform_close_op() {
    let mut cx = test_cx();
    let text_input_id = LiveId(101);

    cx.handle_received_action(Action::NativeTextInputCloseRequested(NativeTextInputCloseRequested::new(
        NativeTextInputId(text_input_id),
    )));

    assert_eq!(cx.new_actions.len(), 0);
    assert!(matches!(
        cx.platform_ops.as_slice(),
        [CxOsOp::CloseNativeView { id }] if *id == text_input_id
    ));
}

#[test]
fn native_label_close_request_becomes_platform_close_op() {
    let mut cx = test_cx();
    let label_id = LiveId(202);

    cx.handle_received_action(Action::NativeLabelCloseRequested(NativeLabelCloseRequested::new(
        NativeLabelId(label_id),
    )));

    assert_eq!(cx.new_actions.len(), 0);
    assert!(matches!(
        cx.platform_ops.as_slice(),
        [CxOsOp::CloseNativeView { id }] if *id == label_id
    ));
}

#[test]
fn other_received_actions_are_queued_for_the_app() {
    let mut cx = test_cx();
    let action = Action::App { name: "clicked".to_string(), payload: "7".to_string() };
    assert!(action.is(ActionKind::App));
    assert!(!action.is(ActionKind::NativeLabelCloseRequested));

    cx.handle_received_action(action);

    assert!(cx.platform_ops.is_empty());
    assert_eq!(cx.new_actions.len(), 1);
    assert!(cx.new_actions[0].is(ActionKind::App));
}

fn app(name: &str) -> Action {
    Action::App { name: name.to_string(), payload: String::new() }
}

fn names(actions: &[Action]) -> Vec<String> {
    actions
        .iter()
        .map(|a| match a {
            Action::App { name, .. } => name.clone(),
            _ => "platform".to_string(),
        })
        .collect()
}

#[test]
fn captured_actions_are_handed_back_and_not_queued() {
    let mut cx = test_cx();
    cx.action(app("before"));
    let caught = cx.capture_actions(|cx| {
        cx.action(app("a"));
        cx.action(app("b"));
    });
    assert_eq!(names(&caught), vec!["a", "b"]);
    assert_eq!(names(&cx.new_actions), vec!["before"]);
    cx.extend_actions(caught);
    assert_eq!(names(&cx.new_actions), vec!["before", "a", "b"]);
}

#[test]
fn mapped_and_mutated_actions_replace_the_new_ones() {
    let mut cx = test_cx();
    cx.action(app("kept"));
    let r = cx.map_actions(
        |cx| {
            cx.action(app("x"));
            cx.action(app("y"));
            7
        },
        |_cx, mut buf| {
            buf.reverse();
            buf
        },
    );
    assert_eq!(r, 7);
    assert_eq!(names(&cx.new_actions), vec!["kept", "y", "x"]);
    cx.mutate_actions(
        |cx| cx.action(app("z")),
        |slice| {
            for a in slice.iter_mut() {
                *a = app("changed");
            }
        },
    );
    assert_eq!(names(&cx.new_actions), vec!["kept", "y", "x", "changed"]);
}

#[test]
fn received_actions_are_taken_in_order() {
    let mut cx = test_cx();
    cx.handle_received_actions(vec![
        app("first"),
        Action::NativeLabelCloseRequested(NativeLabelCloseRequested::new(NativeLabelId(LiveId(3)))),
        app("second"),
    ]);
    assert_eq!(names(&cx.new_actions), vec!["first", "second"]);
    assert!(matches!(cx.platform_ops.as_slice(), [CxOsOp::CloseNativeView { id }] if *id == LiveId(3)));
}

#[test]
fn platform_ops_are_logged_by_variant_name() {
    assert_eq!(CxOsOp::CloseNativeView { id: LiveId(1) }.name(), "CloseNativeView");
    assert_eq!(CxOsOp::Quit.name(), "Quit");
    assert_eq!(CxOsOp::StopTimer(4).name(), "StopTimer");
    assert_eq!(CxOsOp::CopyToClipboard("x".into()).name(), "CopyToClipboard");
}
