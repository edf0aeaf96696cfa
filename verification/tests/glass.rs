use makepad_platform::ids::{LiveId, WindowId};
use makepad_platform::window::{
    NativeGlassBatch, NativeGlassBatchValidationError, NativeGlassContainerDescriptor,
    NativeGlassContainerResult, NativeGlassHitTest, NativeGlassInstallState,
    NativeGlassPanelDescriptor, NativeGlassPanelResult, NativeGlassStyle,
    NATIVE_GLASS_MAX_PANELS_PER_WINDOW_V4_1,
};

fn panel(id: u64) -> NativeGlassPanelDescriptor {
    NativeGlassPanelDescriptor {
        id: LiveId(id),
        style: NativeGlassStyle::Regular,
        hit_test: NativeGlassHitTest::Passthrough,
        z_order: id as i32,
        visible: true,
    }
}

fn batch_with_panels(panels: Vec<NativeGlassPanelDescriptor>) -> NativeGlassBatch {
    NativeGlassBatch {
        window_id: WindowId(1, 1),
        containers: vec![NativeGlassContainerDescriptor { id: LiveId(10), panels }],
    }
}

#[test]
fn native_glass_batch_accepts_single_container_with_twelve_visible_panels() {
    let panels = (0..NATIVE_GLASS_MAX_PANELS_PER_WINDOW_V4_1 as u64).map(panel).collect();
    let batch = batch_with_panels(panels);

    assert_eq!(batch.visible_panel_count(), 12);
    assert_eq!(batch.validate_v4_1(), Ok(()));
}

#[test]
fn native_glass_batch_rejects_multiple_containers_in_v4_1() {
    let mut batch = batch_with_panels(vec![panel(1)]);
    batch.containers.push(NativeGlassContainerDescriptor { id: LiveId(11), panels: vec![panel(2)] });

    assert_eq!(
        batch.validate_v4_1(),
        Err(NativeGlassBatchValidationError::TooManyContainers { count: 2 })
    );
}

#[test]
fn native_glass_batch_rejects_more_than_twelve_visible_panels() {
    let panels = (0..=NATIVE_GLASS_MAX_PANELS_PER_WINDOW_V4_1 as u64).map(panel).collect();
    let batch = batch_with_panels(panels);

    assert_eq!(
        batch.validate_v4_1(),
        Err(NativeGlassBatchValidationError::TooManyVisiblePanels {
            count: 13,
            max: NATIVE_GLASS_MAX_PANELS_PER_WINDOW_V4_1,
        })
    );
}

#[test]
fn native_glass_batch_rejects_interactive_hit_test_in_v4_1() {
    let mut interactive_panel = panel(99);
    interactive_panel.hit_test = NativeGlassHitTest::Interactive;
    let batch = batch_with_panels(vec![interactive_panel]);

    assert_eq!(
        batch.validate_v4_1(),
        Err(NativeGlassBatchValidationError::InteractiveHitTestUnsupported {
            container_id: LiveId(10),
            panel_id: LiveId(99),
        })
    );
}

#[test]
fn native_glass_container_result_counts_installed_and_failed_panels() {
    let result = NativeGlassContainerResult::from_panel_results(
        LiveId(10),
        NativeGlassInstallState::Partial,
        "partial",
        vec![
            NativeGlassPanelResult { id: LiveId(1), state: NativeGlassInstallState::Installed, reason: "installed" },
            NativeGlassPanelResult { id: LiveId(2), state: NativeGlassInstallState::Failed, reason: "selector missing" },
            NativeGlassPanelResult {
                id: LiveId(3),
                state: NativeGlassInstallState::Rejected,
                reason: "interactive unsupported",
            },
        ],
    );

    assert_eq!(result.installed_panels, 1);
    assert_eq!(result.failed_panels, 2);
}

#[test]
fn native_glass_style_maps_to_macos_raw_values() {
    assert_eq!(NativeGlassStyle::Regular.macos_raw_value(), 0);
    assert_eq!(NativeGlassStyle::Clear.macos_raw_value(), 1);
}

#[test]
fn native_glass_style_maps_to_ios_default_raw_values() {
    assert_eq!(NativeGlassStyle::Regular.ios_raw_value_from_override(None), 0);
    assert_eq!(NativeGlassStyle::Clear.ios_raw_value_from_override(None), 1);
}

#[test]
fn native_glass_style_ios_raw_value_accepts_override() {
    assert_eq!(NativeGlassStyle::Regular.ios_raw_value_from_override(Some("7")), 7);
    assert_eq!(NativeGlassStyle::Clear.ios_raw_value_from_override(Some("8")), 8);
}

#[test]
fn native_glass_style_ios_raw_value_rejects_invalid_override() {
    assert_eq!(NativeGlassStyle::Regular.ios_raw_value_from_override(Some("nope")), 0);
    assert_eq!(NativeGlassStyle::Clear.ios_raw_value_from_override(Some("")), 1);
}

#[test]
fn ios_raw_value_override_is_trimmed_and_signed() {
    assert_eq!(NativeGlassStyle::Regular.ios_raw_value_from_override(Some("  -3 \n")), -3);
    assert_eq!(NativeGlassStyle::Clear.ios_raw_value_from_override(Some("+12")), 12);
    assert_eq!(
        NativeGlassStyle::Regular.ios_raw_value_from_override(Some("-9223372036854775808")),
        i64::MIN
    );
    assert_eq!(NativeGlassStyle::Clear.ios_raw_value_from_override(Some("9223372036854775808")), 1);
    assert_eq!(NativeGlassStyle::Clear.ios_raw_value_from_override(Some("1 2")), 1);
    assert_eq!(NativeGlassStyle::Clear.ios_raw_value_from_override(Some("-")), 1);
}

#[test]
fn ios_override_env_var_names_the_style() {
    assert_eq!(NativeGlassStyle::Regular.ios_style_override_env_var(), "AICHAT_IOS_GLASS_STYLE_REGULAR_RAW");
    assert_eq!(NativeGlassStyle::Clear.ios_style_override_env_var(), "AICHAT_IOS_GLASS_STYLE_CLEAR_RAW");
}

#[test]
fn hidden_panels_do_not_count_and_hidden_interactive_is_still_rejected() {
    let mut hidden = panel(5);
    hidden.visible = false;
    hidden.hit_test = NativeGlassHitTest::Interactive;
    let mut panels: Vec<NativeGlassPanelDescriptor> = (0..12).map(panel).collect();
    panels.push(hidden);
    let batch = batch_with_panels(panels);
    assert_eq!(batch.visible_panel_count(), 12);
    assert_eq!(
        batch.validate_v4_1(),
        Err(NativeGlassBatchValidationError::InteractiveHitTestUnsupported {
            container_id: LiveId(10),
            panel_id: LiveId(5),
        })
    );
}

#[test]
fn empty_batch_is_valid() {
    let batch = NativeGlassBatch { window_id: WindowId(0, 0), containers: Vec::new() };
    assert_eq!(batch.visible_panel_count(), 0);
    assert_eq!(batch.validate_v4_1(), Ok(()));
}

#[test]
fn too_many_containers_is_reported_before_panel_count() {
    let panels: Vec<NativeGlassPanelDescriptor> = (0..20).map(panel).collect();
    let mut batch = batch_with_panels(panels);
    batch.containers.push(NativeGlassContainerDescriptor { id: LiveId(12), panels: Vec::new() });
    batch.containers.push(NativeGlassContainerDescriptor { id: LiveId(13), panels: Vec::new() });
    assert_eq!(batch.visible_panel_count(), 20);
    assert_eq!(
        batch.validate_v4_1(),
        Err(NativeGlassBatchValidationError::TooManyContainers { count: 3 })
    );
}

#[test]
fn skipped_and_partial_panels_are_neither_installed_nor_failed() {
    let result = NativeGlassContainerResult::from_panel_results(
        LiveId(1),
        NativeGlassInstallState::Skipped,
        "skipped",
        vec![
            NativeGlassPanelResult { id: LiveId(1), state: NativeGlassInstallState::Skipped, reason: "" },
            NativeGlassPanelResult { id: LiveId(2), state: NativeGlassInstallState::Partial, reason: "" },
        ],
    );
    assert_eq!(result.installed_panels, 0);
    assert_eq!(result.failed_panels, 0);
    assert_eq!(result.panels.len(), 2);
    assert_eq!(result.reason, "skipped");
}
