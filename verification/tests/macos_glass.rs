use makepad_platform::ids::{LiveId, WindowId};
use makepad_platform::macos_glass::{
    event_style_from_native_glass, native_glass_button_bezel_style_raw_from_value,
    native_glass_class_missing_result, native_glass_control_cg_event_probe_mode_value,
    native_glass_control_perform_click_probe_matches_value,
    native_glass_geometry_snapshot_enabled_from_value, native_glass_result_for_validation_error,
    window_native_substrate_state_from_native_glass, MacosNativeGlassStyle, NativeGlassCgEventProbeMode,
};
use makepad_platform::window::{
    NativeGlassBackendState, NativeGlassBatch, NativeGlassBatchValidationError,
    NativeGlassContainerDescriptor, NativeGlassHitTest, NativeGlassInstallState,
    NativeGlassPanelDescriptor, NativeGlassStyle, WindowNativeSubstrateState, WindowNativeSubstrateStyle,
};

#[test]
fn native_glass_button_bezel_style_defaults_to_macos26_glass_raw_value() {
    assert_eq!(native_glass_button_bezel_style_raw_from_value(None), 16);
    assert_eq!(native_glass_button_bezel_style_raw_from_value(Some("18")), 18);
    assert_eq!(native_glass_button_bezel_style_raw_from_value(Some("not-a-number")), 16);
}

#[test]
fn native_glass_control_cg_event_probe_mode_parses_process_prefix() {
    let label = "Clear";
    assert_eq!(
        native_glass_control_cg_event_probe_mode_value(Some("Clear"), label),
        Some(NativeGlassCgEventProbeMode::Global)
    );
    assert_eq!(
        native_glass_control_cg_event_probe_mode_value(Some("global:Clear"), label),
        Some(NativeGlassCgEventProbeMode::Global)
    );
    assert_eq!(
        native_glass_control_cg_event_probe_mode_value(Some("pid:Clear"), label),
        Some(NativeGlassCgEventProbeMode::Process)
    );
    assert_eq!(
        native_glass_control_cg_event_probe_mode_value(Some("process:clear"), label),
        Some(NativeGlassCgEventProbeMode::Process)
    );
    assert_eq!(native_glass_control_cg_event_probe_mode_value(Some("pid:Send"), label), None);
}

#[test]
fn native_glass_geometry_snapshot_env_accepts_truthy_values() {
    assert!(native_glass_geometry_snapshot_enabled_from_value(Some("1")));
    assert!(native_glass_geometry_snapshot_enabled_from_value(Some("true")));
    assert!(native_glass_geometry_snapshot_enabled_from_value(Some("self-resize")));
    assert!(!native_glass_geometry_snapshot_enabled_from_value(None));
    assert!(!native_glass_geometry_snapshot_enabled_from_value(Some("off")));
}

#[test]
fn native_glass_control_perform_click_probe_matches_explicit_label() {
    assert!(native_glass_control_perform_click_probe_matches_value(Some(" all "), "Send"));
    assert!(native_glass_control_perform_click_probe_matches_value(Some("on"), "Send"));
    assert!(native_glass_control_perform_click_probe_matches_value(Some("SEND"), "Send"));
    assert!(!native_glass_control_perform_click_probe_matches_value(Some("Sen"), "Send"));
    assert!(!native_glass_control_perform_click_probe_matches_value(Some("   "), "Send"));
    assert!(!native_glass_control_perform_click_probe_matches_value(None, "Send"));
    assert!(!native_glass_control_perform_click_probe_matches_value(Some("\u{e9}"), "\u{c9}"));
}

#[test]
fn macos_style_values_and_names() {
    assert_eq!(MacosNativeGlassStyle::Regular.default_ns_style_raw(), 0);
    assert_eq!(MacosNativeGlassStyle::Clear.default_ns_style_raw(), 1);
    assert_eq!(MacosNativeGlassStyle::Clear.ns_style_raw_from_override(Some(" 5 ")), 5);
    assert_eq!(MacosNativeGlassStyle::Clear.ns_style_raw_from_override(Some("x")), 1);
    assert_eq!(MacosNativeGlassStyle::Regular.ns_style_raw_from_override(None), 0);
    assert_eq!(MacosNativeGlassStyle::Regular.log_name(), "regular");
    assert_eq!(MacosNativeGlassStyle::Clear.style_override_env_var(), "AICHAT_MACOS_GLASS_STYLE_CLEAR_RAW");
    assert_eq!(MacosNativeGlassStyle::Clear.to_event_style(), WindowNativeSubstrateStyle::MacosGlassClear);
    assert_eq!(event_style_from_native_glass(NativeGlassStyle::Regular), WindowNativeSubstrateStyle::MacosGlassRegular);
}

#[test]
fn install_states_map_to_substrate_states() {
    assert_eq!(
        window_native_substrate_state_from_native_glass(NativeGlassInstallState::Installed),
        WindowNativeSubstrateState::Installed
    );
    assert_eq!(
        window_native_substrate_state_from_native_glass(NativeGlassInstallState::Rejected),
        WindowNativeSubstrateState::PreflightFailed
    );
    assert_eq!(
        window_native_substrate_state_from_native_glass(NativeGlassInstallState::Partial),
        WindowNativeSubstrateState::VisibilityUnverified
    );
}

fn panel(id: u64) -> NativeGlassPanelDescriptor {
    NativeGlassPanelDescriptor {
        id: LiveId(id),
        style: NativeGlassStyle::Regular,
        hit_test: NativeGlassHitTest::Passthrough,
        z_order: 0,
        visible: true,
    }
}

#[test]
fn refused_batches_report_every_panel() {
    let batch = NativeGlassBatch {
        window_id: WindowId(2, 3),
        containers: vec![
            NativeGlassContainerDescriptor { id: LiveId(10), panels: vec![panel(1), panel(2)] },
            NativeGlassContainerDescriptor { id: LiveId(11), panels: vec![panel(3)] },
        ],
    };
    let result =
        native_glass_result_for_validation_error(&batch, NativeGlassBatchValidationError::TooManyContainers { count: 2 });
    assert_eq!(result.window_id, WindowId(2, 3));
    assert_eq!(result.backend_state, NativeGlassBackendState::Rejected);
    assert_eq!(result.containers.len(), 2);
    assert_eq!(result.containers[0].reason, "too-many-containers");
    assert_eq!(result.containers[0].failed_panels, 2);
    assert_eq!(result.containers[0].installed_panels, 0);
    assert_eq!(result.containers[1].panels[0].id, LiveId(3));
    assert_eq!(result.containers[1].panels[0].state, NativeGlassInstallState::Rejected);

    let missing = native_glass_class_missing_result(&batch, "class-missing");
    assert_eq!(missing.backend_state, NativeGlassBackendState::Unsupported);
    assert_eq!(missing.containers[0].state, NativeGlassInstallState::Failed);
    assert_eq!(missing.containers[1].failed_panels, 1);
    assert_eq!(missing.containers[1].reason, "class-missing");
}

use makepad_platform::macos_glass::{native_glass_install_order, native_glass_install_outcome, native_substrate_resolved_event};
use makepad_platform::window::NativeGlassPanelResult;

fn layered(id: u64, z: i32, visible: bool) -> NativeGlassPanelDescriptor {
    NativeGlassPanelDescriptor { z_order: z, visible, ..panel(id) }
}

#[test]
fn visible_panels_install_in_stable_z_order() {
    let panels = vec![
        layered(1, 2, true),
        layered(2, 0, true),
        layered(3, 1, false),
        layered(4, 2, true),
        layered(5, -1, true),
        layered(6, 0, true),
    ];
    assert_eq!(native_glass_install_order(&panels), vec![4, 1, 5, 0, 3]);
    assert_eq!(native_glass_install_order(&Vec::new()), Vec::<usize>::new());
}

fn one_container(panels: Vec<NativeGlassPanelDescriptor>) -> NativeGlassBatch {
    NativeGlassBatch {
        window_id: WindowId(3, 0),
        containers: vec![NativeGlassContainerDescriptor { id: LiveId(30), panels }],
    }
}

fn outcome(id: u64, installed: bool) -> NativeGlassPanelResult {
    if installed {
        NativeGlassPanelResult { id: LiveId(id), state: NativeGlassInstallState::Installed, reason: "installed" }
    } else {
        NativeGlassPanelResult { id: LiveId(id), state: NativeGlassInstallState::Failed, reason: "panel-alloc-init-failed" }
    }
}

#[test]
fn install_outcome_counts_panels_and_reports_the_substrate() {
    let batch = one_container(vec![layered(1, 0, true), layered(2, 1, true)]);
    let (result, event) = native_glass_install_outcome(&batch, vec![outcome(1, true), outcome(2, true)]);
    assert_eq!(result.window_id, WindowId(3, 0));
    assert_eq!(result.backend_state, NativeGlassBackendState::Installed);
    assert_eq!(result.containers.len(), 1);
    assert_eq!(result.containers[0].id, LiveId(30));
    assert_eq!(result.containers[0].state, NativeGlassInstallState::Installed);
    assert_eq!(result.containers[0].reason, "installed");
    assert_eq!((result.containers[0].installed_panels, result.containers[0].failed_panels), (2, 0));
    let event = event.expect("a pass-through panel reports the substrate");
    assert_eq!(event.state, WindowNativeSubstrateState::Installed);
    assert_eq!(event.style, Some(WindowNativeSubstrateStyle::MacosGlassRegular));
    assert_eq!(event.reason, "installed-native-glass-batch");

    let (result, event) = native_glass_install_outcome(&batch, vec![outcome(1, true), outcome(2, false)]);
    assert_eq!(result.backend_state, NativeGlassBackendState::Partial);
    assert_eq!(result.containers[0].state, NativeGlassInstallState::Partial);
    assert_eq!(result.containers[0].reason, "partial");
    assert_eq!(event.unwrap().reason, "partial-native-glass-batch");

    let (result, event) = native_glass_install_outcome(&batch, vec![outcome(1, false), outcome(2, false)]);
    assert_eq!(result.backend_state, NativeGlassBackendState::Rejected);
    assert_eq!(result.containers[0].state, NativeGlassInstallState::Failed);
    assert_eq!(event.unwrap().state, WindowNativeSubstrateState::PreflightFailed);

    let interactive = one_container(vec![NativeGlassPanelDescriptor { hit_test: NativeGlassHitTest::Interactive, ..panel(1) }]);
    let (result, event) = native_glass_install_outcome(&interactive, Vec::new());
    assert_eq!(result.backend_state, NativeGlassBackendState::Installed);
    assert!(event.is_none());
}

#[test]
fn substrate_events_carry_the_reported_style() {
    let e = native_substrate_resolved_event(
        WindowId(1, 2),
        WindowNativeSubstrateState::Installed,
        Some(MacosNativeGlassStyle::Clear),
        "already-installed",
    );
    assert_eq!(e.window_id, WindowId(1, 2));
    assert_eq!(e.state, WindowNativeSubstrateState::Installed);
    assert_eq!(e.style, Some(WindowNativeSubstrateStyle::MacosGlassClear));
    assert_eq!(e.reason, "already-installed");
    let e = native_substrate_resolved_event(WindowId(1, 2), WindowNativeSubstrateState::ClassMissing, None, "class-missing");
    assert_eq!(e.style, None);
}
