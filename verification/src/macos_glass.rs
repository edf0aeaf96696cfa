use vstd::prelude::*;
use crate::ids::WindowId;
use crate::text::{chars_of, range_equals, spec_parse_i64, parse_i64_range, str_equal, trim, trim_bounds, starts_with, range_starts_with, string_of_range};
use crate::window::{
    failed_count, installed_count, NativeGlassBackendState, NativeGlassBatch, NativeGlassBatchResult,
    NativeGlassBatchValidationError, NativeGlassContainerResult, NativeGlassInstallState,
    NativeGlassHitTest, NativeGlassPanelDescriptor, NativeGlassPanelResult, NativeGlassStyle,
    WindowNativeSubstrateResolvedEvent, WindowNativeSubstrateState, WindowNativeSubstrateStyle,
};

verus! {

/// The glass material of the macOS window substrate.
#[derive(Clone, Copy, Debug, PartialEq, Eq, Structural)]
pub enum MacosNativeGlassStyle {
    Regular,
    Clear,
}

/// The raw `NSGlassEffectView` style of `style` when nothing overrides it
/// (the Swift declaration order: regular, then clear).
pub open spec fn spec_default_ns_style_raw(style: MacosNativeGlassStyle) -> i64 {
    match style {
        MacosNativeGlassStyle::Regular => 0,
        MacosNativeGlassStyle::Clear => 1,
    }
}

impl MacosNativeGlassStyle {
    /// The raw style value when nothing overrides it.
    pub fn default_ns_style_raw(self) -> (r: i64)
        ensures
            r == spec_default_ns_style_raw(self),
    {
        match self {
            MacosNativeGlassStyle::Regular => 0,
            MacosNativeGlassStyle::Clear => 1,
        }
    }

    /// The environment variable that may override the raw style value.
    pub fn style_override_env_var(self) -> (r: &'static str)
        ensures
            r@ == (match self {
                MacosNativeGlassStyle::Regular => "AICHAT_MACOS_GLASS_STYLE_REGULAR_RAW"@,
                MacosNativeGlassStyle::Clear => "AICHAT_MACOS_GLASS_STYLE_CLEAR_RAW"@,
            }),
    {
        match self {
            MacosNativeGlassStyle::Regular => "AICHAT_MACOS_GLASS_STYLE_REGULAR_RAW",
            MacosNativeGlassStyle::Clear => "AICHAT_MACOS_GLASS_STYLE_CLEAR_RAW",
        }
    }

    /// The raw style value: the override, trimmed, where it parses as an
    /// `i64`; the default otherwise.
    pub fn ns_style_raw_from_override(self, override_value: Option<&str>) -> (r: i64)
        ensures
            r == (match override_value {
                Some(v) => match spec_parse_i64(trim(v@)) {
                    Some(n) => n,
                    None => spec_default_ns_style_raw(self),
                },
                None => spec_default_ns_style_raw(self),
            }),
    {
        match override_value {
            Some(v) => match parse_trimmed_i64(v) {
                Some(n) => n,
                None => self.default_ns_style_raw(),
            },
            None => self.default_ns_style_raw(),
        }
    }

    /// The name of the style in log lines.
    pub fn log_name(self) -> (r: &'static str)
        ensures
            r@ == (match self {
                MacosNativeGlassStyle::Regular => "regular"@,
                MacosNativeGlassStyle::Clear => "clear"@,
            }),
    {
        match self {
            MacosNativeGlassStyle::Regular => "regular",
            MacosNativeGlassStyle::Clear => "clear",
        }
    }

    /// The substrate style reported in window events.
    pub fn to_event_style(self) -> (r: WindowNativeSubstrateStyle)
        ensures
            r == (match self {
                MacosNativeGlassStyle::Regular => WindowNativeSubstrateStyle::MacosGlassRegular,
                MacosNativeGlassStyle::Clear => WindowNativeSubstrateStyle::MacosGlassClear,
            }),
    {
        match self {
            MacosNativeGlassStyle::Regular => WindowNativeSubstrateStyle::MacosGlassRegular,
            MacosNativeGlassStyle::Clear => WindowNativeSubstrateStyle::MacosGlassClear,
        }
    }
}

/// `s`, trimmed, parsed as an `i64`.
fn parse_trimmed_i64(s: &str) -> (r: Option<i64>)
    ensures
        r == spec_parse_i64(trim(s@)),
{
    let chars = chars_of(s);
    let (a, b) = trim_bounds(&chars);
    parse_i64_range(&chars, a, b)
}

/// How a synthetic click probe is posted: to the process or globally.
#[derive(Clone, Copy, Debug, PartialEq, Eq, Structural)]
pub enum NativeGlassCgEventProbeMode {
    Process,
    Global,
}

/// Whether a geometry snapshot was asked for: `1`, `true` or `self-resize`.
pub fn native_glass_geometry_snapshot_enabled_from_value(value: Option<&str>) -> (r: bool)
    ensures
        r == (match value {
            Some(v) => v@ == "1"@ || v@ == "true"@ || v@ == "self-resize"@,
            None => false,
        }),
{
    match value {
        Some(v) => str_equal(v, "1") || str_equal(v, "true") || str_equal(v, "self-resize"),
        None => false,
    }
}

/// The raw bezel style of glass buttons: the override, trimmed, where it
/// parses as an `i64`; 16 (the macOS 26 glass bezel) otherwise.
pub fn native_glass_button_bezel_style_raw_from_value(value: Option<&str>) -> (r: i64)
    ensures
        r == (match value {
            Some(v) => match spec_parse_i64(trim(v@)) {
                Some(n) => n,
                None => 16,
            },
            None => 16,
        }),
{
    match value {
        Some(v) => match parse_trimmed_i64(v) {
            Some(n) => n,
            None => 16,
        },
        None => 16,
    }
}

/// `c` with `A`..`Z` lowered.
pub open spec fn ascii_lower(c: char) -> char {
    if 'A' <= c && c <= 'Z' {
        ((c as int) + 32) as char
    } else {
        c
    }
}

/// Whether `a` and `b` match when ASCII letters are compared without case
/// (what `str::eq_ignore_ascii_case` tests).
pub open spec fn eq_ignore_ascii_case(a: Seq<char>, b: Seq<char>) -> bool {
    a.len() == b.len() && forall|i: int| 0 <= i < a.len() ==> ascii_lower(#[trigger] a[i]) == ascii_lower(b[i])
}

fn lower_code(c: char) -> (r: u32)
    ensures
        r == ascii_lower(c) as u32,
{
    let code = c as u32;
    if 0x41 <= code && code <= 0x5a {
        code + 32
    } else {
        code
    }
}

fn range_eq_ignore_ascii_case(a: &Vec<char>, from: usize, to: usize, b: &Vec<char>) -> (r: bool)
    requires
        from <= to <= a@.len(),
    ensures
        r == eq_ignore_ascii_case(a@.subrange(from as int, to as int), b@),
{
    if to - from != b.len() {
        return false;
    }
    let mut i: usize = 0;
    while i < b.len()
        invariant
            from <= to <= a@.len(),
            to - from == b@.len(),
            i <= b@.len(),
            forall|j: int| 0 <= j < i ==> ascii_lower(a@[from + j]) == ascii_lower(#[trigger] b@[j]),
        decreases b.len() - i,
    {
        if lower_code(a[from + i]) != lower_code(b[i]) {
            assert(a@.subrange(from as int, to as int)[i as int] == a@[from + i]);
            return false;
        }
        i = i + 1;
    }
    assert forall|j: int| 0 <= j < b@.len() implies ascii_lower(#[trigger] a@.subrange(from as int, to as int)[j]) == ascii_lower(b@[j]) by {
        assert(a@.subrange(from as int, to as int)[j] == a@[from + j]);
    }
    true
}

/// Whether a probe value asks for the control labelled `label`: the trimmed
/// value is `1`, `true`, `on` or `all`, or the label without regard to ASCII case.
pub open spec fn spec_probe_matches(value: Option<Seq<char>>, label: Seq<char>) -> bool {
    match value {
        Some(v) => {
            let t = trim(v);
            t.len() > 0 && (t == "1"@ || t == "true"@ || t == "on"@ || t == "all"@ || eq_ignore_ascii_case(label, t))
        },
        None => false,
    }
}

/// Whether a probe value asks for the control labelled `label`.
pub fn native_glass_control_perform_click_probe_matches_value(value: Option<&str>, label: &str) -> (r: bool)
    ensures
        r == spec_probe_matches(
            match value {
                Some(v) => Some(v@),
                None => None,
            },
            label@,
        ),
{
    proof {
        reveal_strlit("1");
        reveal_strlit("true");
        reveal_strlit("on");
        reveal_strlit("all");
    }
    match value {
        Some(v) => {
            let chars = chars_of(v);
            let (a, b) = trim_bounds(&chars);
            if a == b {
                return false;
            }
            let one = chars_of("1");
            let yes = chars_of("true");
            let on = chars_of("on");
            let all = chars_of("all");
            if range_equals(&chars, a, b, &one) || range_equals(&chars, a, b, &yes) || range_equals(
                &chars,
                a,
                b,
                &on,
            ) || range_equals(&chars, a, b, &all) {
                return true;
            }
            let l = chars_of(label);
            let t = sub_chars(&chars, a, b);
            let r = range_eq_ignore_ascii_case(&l, 0, l.len(), &t);
            assert(l@.subrange(0, l@.len() as int) =~= l@);
            r
        },
        None => false,
    }
}

fn sub_chars(v: &Vec<char>, from: usize, to: usize) -> (r: Vec<char>)
    requires
        from <= to <= v@.len(),
    ensures
        r@ == v@.subrange(from as int, to as int),
{
    crate::text::sub_vec(v, from, to)
}

/// The probe mode a value asks for and its target: `pid:` and `process:`
/// ask for a process probe, `global:` or no prefix for a global one.
pub open spec fn probe_mode_split(t: Seq<char>) -> (NativeGlassCgEventProbeMode, Seq<char>) {
    if starts_with(t, "pid:"@) {
        (NativeGlassCgEventProbeMode::Process, t.subrange(4, t.len() as int))
    } else if starts_with(t, "process:"@) {
        (NativeGlassCgEventProbeMode::Process, t.subrange(8, t.len() as int))
    } else if starts_with(t, "global:"@) {
        (NativeGlassCgEventProbeMode::Global, t.subrange(7, t.len() as int))
    } else {
        (NativeGlassCgEventProbeMode::Global, t)
    }
}

/// The synthetic click probe asked for the control labelled `label`, if any.
pub fn native_glass_control_cg_event_probe_mode_value(value: Option<&str>, label: &str) -> (r: Option<
    NativeGlassCgEventProbeMode,
>)
    ensures
        r == (match value {
            Some(v) => {
                let (mode, target) = probe_mode_split(trim(v@));
                if spec_probe_matches(Some(target), label@) {
                    Some(mode)
                } else {
                    None
                }
            },
            None => None,
        }),
{
    proof {
        reveal_strlit("pid:");
        reveal_strlit("process:");
        reveal_strlit("global:");
    }
    match value {
        Some(v) => {
            let chars = chars_of(v);
            let (a, b) = trim_bounds(&chars);
            let pid = chars_of("pid:");
            let process = chars_of("process:");
            let global = chars_of("global:");
            let (mode, start) = if range_starts_with(&chars, a, b, &pid) {
                (NativeGlassCgEventProbeMode::Process, a + 4)
            } else if range_starts_with(&chars, a, b, &process) {
                (NativeGlassCgEventProbeMode::Process, a + 8)
            } else if range_starts_with(&chars, a, b, &global) {
                (NativeGlassCgEventProbeMode::Global, a + 7)
            } else {
                (NativeGlassCgEventProbeMode::Global, a)
            };
            let target = string_of_range(&chars, start, b);
            proof {
                let t = chars@.subrange(a as int, b as int);
                assert(t.subrange((start - a) as int, t.len() as int) =~= chars@.subrange(start as int, b as int));
                assert(t.subrange(0, t.len() as int) =~= t);
            }
            if native_glass_control_perform_click_probe_matches_value(Some(target.as_str()), label) {
                Some(mode)
            } else {
                None
            }
        },
        None => None,
    }
}

/// The substrate state that a glass install state reports.
pub fn window_native_substrate_state_from_native_glass(state: NativeGlassInstallState) -> (r:
    WindowNativeSubstrateState)
    ensures
        r == (match state {
            NativeGlassInstallState::Installed => WindowNativeSubstrateState::Installed,
            NativeGlassInstallState::Failed | NativeGlassInstallState::Rejected => WindowNativeSubstrateState::PreflightFailed,
            NativeGlassInstallState::Skipped | NativeGlassInstallState::Partial => WindowNativeSubstrateState::VisibilityUnverified,
        }),
{
    match state {
        NativeGlassInstallState::Installed => WindowNativeSubstrateState::Installed,
        NativeGlassInstallState::Failed | NativeGlassInstallState::Rejected => WindowNativeSubstrateState::PreflightFailed,
        NativeGlassInstallState::Skipped | NativeGlassInstallState::Partial => WindowNativeSubstrateState::VisibilityUnverified,
    }
}

/// The substrate style that a panel style reports.
pub fn event_style_from_native_glass(style: NativeGlassStyle) -> (r: WindowNativeSubstrateStyle)
    ensures
        r == (match style {
            NativeGlassStyle::Regular => WindowNativeSubstrateStyle::MacosGlassRegular,
            NativeGlassStyle::Clear => WindowNativeSubstrateStyle::MacosGlassClear,
        }),
{
    match style {
        NativeGlassStyle::Regular => WindowNativeSubstrateStyle::MacosGlassRegular,
        NativeGlassStyle::Clear => WindowNativeSubstrateStyle::MacosGlassClear,
    }
}

/// The reason text of a refused batch.
pub open spec fn validation_reason(error: NativeGlassBatchValidationError) -> Seq<char> {
    match error {
        NativeGlassBatchValidationError::TooManyContainers { .. } => "too-many-containers"@,
        NativeGlassBatchValidationError::TooManyVisiblePanels { .. } => "too-many-visible-panels"@,
        NativeGlassBatchValidationError::InteractiveHitTestUnsupported { .. } => "interactive-hit-test-unsupported"@,
    }
}

/// Whether `r` reports every container and panel of `batch` in state `state`
/// with the reason `reason`, none installed and all failed, under `backend`.
pub open spec fn uniform_result(
    r: NativeGlassBatchResult,
    batch: NativeGlassBatch,
    backend: NativeGlassBackendState,
    state: NativeGlassInstallState,
    reason: Seq<char>,
) -> bool {
    &&& r.window_id == batch.window_id
    &&& r.backend_state == backend
    &&& r.containers@.len() == batch.containers@.len()
    &&& forall|i: int|
        0 <= i < batch.containers@.len() ==> {
            let c = #[trigger] r.containers@[i];
            let b = batch.containers@[i];
            &&& c.id == b.id
            &&& c.state == state
            &&& c.reason@ == reason
            &&& c.installed_panels == 0
            &&& c.failed_panels == b.panels@.len()
            &&& c.panels@.len() == b.panels@.len()
            &&& forall|j: int|
                0 <= j < b.panels@.len() ==> (#[trigger] c.panels@[j]).id == b.panels@[j].id
                    && c.panels@[j].state == state && c.panels@[j].reason@ == reason
        }
}

proof fn lemma_failed_counts(p: Seq<NativeGlassPanelResult>, state: NativeGlassInstallState)
    requires
        state == NativeGlassInstallState::Rejected || state == NativeGlassInstallState::Failed,
        forall|j: int| 0 <= j < p.len() ==> (#[trigger] p[j]).state == state,
    ensures
        installed_count(p) == 0,
        failed_count(p) == p.len(),
    decreases p.len(),
{
    if p.len() > 0 {
        assert forall|j: int| 0 <= j < p.drop_last().len() implies (#[trigger] p.drop_last()[j]).state == state by {
            assert(p.drop_last()[j] == p[j]);
        }
        lemma_failed_counts(p.drop_last(), state);
        assert(p.last() == p[p.len() - 1]);
    }
}

/// Every container and panel of `batch` in state `state` with `reason`.
fn uniform_batch_result(
    batch: &NativeGlassBatch,
    backend: NativeGlassBackendState,
    state: NativeGlassInstallState,
    reason: &'static str,
) -> (r: NativeGlassBatchResult)
    requires
        state == NativeGlassInstallState::Rejected || state == NativeGlassInstallState::Failed,
    ensures
        uniform_result(r, *batch, backend, state, reason@),
{
    let mut containers: Vec<NativeGlassContainerResult> = Vec::new();
    let mut i: usize = 0;
    while i < batch.containers.len()
        invariant
            state == NativeGlassInstallState::Rejected || state == NativeGlassInstallState::Failed,
            i <= batch.containers@.len(),
            containers@.len() == i,
            forall|k: int|
                0 <= k < i ==> {
                    let c = #[trigger] containers@[k];
                    let b = batch.containers@[k];
                    &&& c.id == b.id
                    &&& c.state == state
                    &&& c.reason@ == reason@
                    &&& c.installed_panels == 0
                    &&& c.failed_panels == b.panels@.len()
                    &&& c.panels@.len() == b.panels@.len()
                    &&& forall|j: int|
                        0 <= j < b.panels@.len() ==> (#[trigger] c.panels@[j]).id == b.panels@[j].id
                            && c.panels@[j].state == state && c.panels@[j].reason@ == reason@
                },
        decreases batch.containers@.len() - i,
    {
        let container = &batch.containers[i];
        let mut panels: Vec<NativeGlassPanelResult> = Vec::new();
        let mut j: usize = 0;
        while j < container.panels.len()
            invariant
                j <= container.panels@.len(),
                panels@.len() == j,
                forall|q: int|
                    0 <= q < j ==> (#[trigger] panels@[q]).id == container.panels@[q].id && panels@[q].state
                        == state && panels@[q].reason == reason,
            decreases container.panels@.len() - j,
        {
            panels.push(NativeGlassPanelResult { id: container.panels[j].id, state, reason });
            j = j + 1;
        }
        proof {
            lemma_failed_counts(panels@, state);
        }
        let c = NativeGlassContainerResult::from_panel_results(container.id, state, reason, panels);
        containers.push(c);
        i = i + 1;
    }
    NativeGlassBatchResult { window_id: batch.window_id, backend_state: backend, containers }
}

/// The result of a batch refused for `error`: rejected as a whole, every
/// container and panel rejected with the reason of the error.
pub fn native_glass_result_for_validation_error(
    batch: &NativeGlassBatch,
    error: NativeGlassBatchValidationError,
) -> (r: NativeGlassBatchResult)
    ensures
        uniform_result(
            r,
            *batch,
            NativeGlassBackendState::Rejected,
            NativeGlassInstallState::Rejected,
            validation_reason(error),
        ),
{
    let reason = match error {
        NativeGlassBatchValidationError::TooManyContainers { .. } => "too-many-containers",
        NativeGlassBatchValidationError::TooManyVisiblePanels { .. } => "too-many-visible-panels",
        NativeGlassBatchValidationError::InteractiveHitTestUnsupported { .. } => "interactive-hit-test-unsupported",
    };
    uniform_batch_result(batch, NativeGlassBackendState::Rejected, NativeGlassInstallState::Rejected, reason)
}

/// The result of a batch on a system without the glass classes:
/// unsupported as a whole, every container and panel failed with `reason`.
pub fn native_glass_class_missing_result(batch: &NativeGlassBatch, reason: &'static str) -> (r:
    NativeGlassBatchResult)
    ensures
        uniform_result(r, *batch, NativeGlassBackendState::Unsupported, NativeGlassInstallState::Failed, reason@),
{
    uniform_batch_result(batch, NativeGlassBackendState::Unsupported, NativeGlassInstallState::Failed, reason)
}


// ------------------------------------------------------------------ installing a batch

/// Whether panel `i` goes before panel `j`: by z-order, and in their given
/// order where the z-orders are equal (a stable sort by z-order).
pub open spec fn panel_before(panels: Seq<NativeGlassPanelDescriptor>, i: int, j: int) -> bool {
    panels[i].z_order < panels[j].z_order || (panels[i].z_order == panels[j].z_order && i < j)
}

/// Whether `order` lists the visible panels of `panels`, each once, in
/// z-order (stable).
pub open spec fn is_install_order(panels: Seq<NativeGlassPanelDescriptor>, order: Seq<usize>) -> bool {
    &&& forall|k: int| 0 <= k < order.len() ==> (#[trigger] order[k]) < panels.len() && panels[order[k] as int].visible
    &&& forall|i: int| 0 <= i < panels.len() && (#[trigger] panels[i]).visible ==> order.contains(i as usize)
    &&& forall|k: int, l: int| 0 <= k < l < order.len() ==> panel_before(panels, #[trigger] order[k] as int, #[trigger] order[l] as int)
}

/// The visible panels `0..i` in install order, with panel `i` put in at `p`:
/// after the panels not above it and before those above it.
proof fn lemma_insert_in_order(panels: Seq<NativeGlassPanelDescriptor>, before: Seq<usize>, p: int, i: usize)
    requires
        0 <= i < panels.len(),
        panels[i as int].visible,
        0 <= p <= before.len(),
        forall|k: int| 0 <= k < before.len() ==> (#[trigger] before[k]) < i && panels[before[k] as int].visible,
        forall|j: int| 0 <= j < i && (#[trigger] panels[j]).visible ==> before.contains(j as usize),
        forall|k: int, l: int| 0 <= k < l < before.len() ==> panel_before(panels, #[trigger] before[k] as int, #[trigger] before[l] as int),
        forall|k: int| 0 <= k < p ==> panels[(#[trigger] before[k]) as int].z_order <= panels[i as int].z_order,
        p < before.len() ==> panels[before[p] as int].z_order > panels[i as int].z_order,
    ensures
        ({
            let after = before.insert(p, i);
            &&& forall|k: int| 0 <= k < after.len() ==> (#[trigger] after[k]) < i + 1 && panels[after[k] as int].visible
            &&& forall|j: int| 0 <= j < i + 1 && (#[trigger] panels[j]).visible ==> after.contains(j as usize)
            &&& forall|k: int, l: int| 0 <= k < l < after.len() ==> panel_before(panels, #[trigger] after[k] as int, #[trigger] after[l] as int)
        }),
{
    let z = panels[i as int].z_order;
    let after = before.insert(p, i);
    assert forall|k: int| p <= k < before.len() implies panels[(#[trigger] before[k]) as int].z_order > z by {
        if k > p {
            assert(panel_before(panels, before[p] as int, before[k] as int));
        }
    }
    assert forall|k: int| 0 <= k < after.len() implies (#[trigger] after[k]) < i + 1 && panels[after[k] as int].visible by {
        if k < p {
            assert(after[k] == before[k]);
        } else if k > p {
            assert(after[k] == before[k - 1]);
        }
    }
    assert forall|j: int| 0 <= j < i + 1 && (#[trigger] panels[j]).visible implies after.contains(j as usize) by {
        if j == i as int {
            assert(after[p] == i);
        } else {
            assert(before.contains(j as usize));
            let k = choose|k: int| 0 <= k < before.len() && before[k] == j as usize;
            if k < p {
                assert(after[k] == before[k]);
            } else {
                assert(after[k + 1] == before[k]);
            }
        }
    }
    assert forall|k: int, l: int| 0 <= k < l < after.len() implies panel_before(panels, #[trigger] after[k] as int, #[trigger] after[l] as int) by {
        if l < p {
            assert(after[k] == before[k] && after[l] == before[l]);
        } else if l == p {
            assert(after[k] == before[k]);
        } else if k < p {
            assert(after[k] == before[k] && after[l] == before[l - 1]);
        } else if k == p {
            assert(after[l] == before[l - 1]);
        } else {
            assert(after[k] == before[k - 1] && after[l] == before[l - 1]);
        }
    }
}

/// The panels of a container in the order they are installed: the visible
/// ones, sorted by z-order, keeping the given order among equal z-orders.
pub fn native_glass_install_order(panels: &Vec<NativeGlassPanelDescriptor>) -> (r: Vec<usize>)
    ensures
        is_install_order(panels@, r@),
{
    let mut order: Vec<usize> = Vec::new();
    let mut i: usize = 0;
    while i < panels.len()
        invariant
            i <= panels@.len(),
            forall|k: int| 0 <= k < order@.len() ==> (#[trigger] order@[k]) < i && panels@[order@[k] as int].visible,
            forall|j: int| 0 <= j < i && (#[trigger] panels@[j]).visible ==> order@.contains(j as usize),
            forall|k: int, l: int| 0 <= k < l < order@.len() ==> panel_before(panels@, #[trigger] order@[k] as int, #[trigger] order@[l] as int),
        decreases panels@.len() - i,
    {
        if panels[i].visible {
            let z = panels[i].z_order;
            let mut p: usize = 0;
            while p < order.len() && panels[order[p]].z_order <= z
                invariant
                    p <= order@.len(),
                    i < panels@.len(),
                    z == panels@[i as int].z_order,
                    forall|k: int| 0 <= k < order@.len() ==> (#[trigger] order@[k]) < i,
                    forall|k: int| 0 <= k < p ==> panels@[(#[trigger] order@[k]) as int].z_order <= z,
                decreases order@.len() - p,
            {
                p = p + 1;
            }
            let ghost before = order@;
            proof {
                lemma_insert_in_order(panels@, before, p as int, i);
            }
            order.insert(p, i);
        }
        i = i + 1;
    }
    order
}

/// The state of a container after installing its panels: installed when none
/// failed, failed when none was installed, else partial.
pub open spec fn spec_container_install_state(installed: nat, failed: nat) -> NativeGlassInstallState {
    if failed == 0 {
        NativeGlassInstallState::Installed
    } else if installed == 0 {
        NativeGlassInstallState::Failed
    } else {
        NativeGlassInstallState::Partial
    }
}

/// The state of the batch after installing its container's panels.
pub open spec fn spec_backend_install_state(installed: nat, failed: nat) -> NativeGlassBackendState {
    if failed == 0 {
        NativeGlassBackendState::Installed
    } else if installed == 0 {
        NativeGlassBackendState::Rejected
    } else {
        NativeGlassBackendState::Partial
    }
}

/// The style of the first visible panel that lets pointer input through.
pub open spec fn first_passthrough_style(panels: Seq<NativeGlassPanelDescriptor>) -> Option<NativeGlassStyle>
    decreases panels.len(),
{
    if panels.len() == 0 {
        None
    } else if panels[0].visible && panels[0].hit_test == NativeGlassHitTest::Passthrough {
        Some(panels[0].style)
    } else {
        first_passthrough_style(panels.drop_first())
    }
}

/// The result of installing the first container of `batch`, whose panels
/// ended as `panel_results`, and the substrate event it reports: the
/// container is installed when no panel failed, failed when none was
/// installed, else partial (the batch state follows, with rejected for
/// failed); the event is reported where a visible pass-through panel gives
/// the substrate its style.
pub fn native_glass_install_outcome(batch: &NativeGlassBatch, panel_results: Vec<NativeGlassPanelResult>) -> (r: (
    NativeGlassBatchResult,
    Option<WindowNativeSubstrateResolvedEvent>,
))
    requires
        batch.containers@.len() >= 1,
    ensures
        ({
            let installed = installed_count(panel_results@);
            let failed = (panel_results@.len() - installed) as nat;
            let container = batch.containers@[0];
            let state = spec_container_install_state(installed, failed);
            &&& r.0.window_id == batch.window_id
            &&& r.0.backend_state == spec_backend_install_state(installed, failed)
            &&& r.0.containers@.len() == 1
            &&& r.0.containers@[0].id == container.id
            &&& r.0.containers@[0].state == state
            &&& r.0.containers@[0].reason == (if failed == 0 { "installed" } else { "partial" })
            &&& r.0.containers@[0].panels@ == panel_results@
            &&& r.0.containers@[0].installed_panels == installed
            &&& r.0.containers@[0].failed_panels == failed_count(panel_results@)
            &&& match first_passthrough_style(container.panels@) {
                None => r.1 is None,
                Some(style) => r.1 matches Some(e) && e.window_id == batch.window_id
                    && e.style == Some(match style {
                        NativeGlassStyle::Regular => WindowNativeSubstrateStyle::MacosGlassRegular,
                        NativeGlassStyle::Clear => WindowNativeSubstrateStyle::MacosGlassClear,
                    })
                    && e.state == (match state {
                        NativeGlassInstallState::Installed => WindowNativeSubstrateState::Installed,
                        NativeGlassInstallState::Failed | NativeGlassInstallState::Rejected => WindowNativeSubstrateState::PreflightFailed,
                        NativeGlassInstallState::Skipped | NativeGlassInstallState::Partial => WindowNativeSubstrateState::VisibilityUnverified,
                    })
                    && e.reason == (if failed == 0 { "installed-native-glass-batch" } else { "partial-native-glass-batch" }),
            }
        }),
{
    let container = &batch.containers[0];
    let mut installed: usize = 0;
    let mut i: usize = 0;
    while i < panel_results.len()
        invariant
            i <= panel_results@.len(),
            installed == installed_count(panel_results@.subrange(0, i as int)),
            installed <= i,
        decreases panel_results@.len() - i,
    {
        proof {
            let q = panel_results@.subrange(0, i as int + 1);
            assert(q.drop_last() =~= panel_results@.subrange(0, i as int));
        }
        if panel_results[i].state == NativeGlassInstallState::Installed {
            installed = installed + 1;
        }
        i = i + 1;
    }
    proof {
        assert(panel_results@.subrange(0, panel_results@.len() as int) =~= panel_results@);
    }
    let failed = panel_results.len() - installed;
    let container_state = if failed == 0 {
        NativeGlassInstallState::Installed
    } else if installed == 0 {
        NativeGlassInstallState::Failed
    } else {
        NativeGlassInstallState::Partial
    };
    let backend_state = if failed == 0 {
        NativeGlassBackendState::Installed
    } else if installed == 0 {
        NativeGlassBackendState::Rejected
    } else {
        NativeGlassBackendState::Partial
    };
    let reason: &'static str = if failed == 0 { "installed" } else { "partial" };
    let result_container = NativeGlassContainerResult::from_panel_results(container.id, container_state, reason, panel_results);
    let mut containers: Vec<NativeGlassContainerResult> = Vec::new();
    containers.push(result_container);
    let result = NativeGlassBatchResult { window_id: batch.window_id, backend_state, containers };
    let mut first_style: Option<NativeGlassStyle> = None;
    let mut j: usize = 0;
    assert(container.panels@.subrange(0, container.panels@.len() as int) =~= container.panels@);
    while j < container.panels.len()
        invariant_except_break
            j <= container.panels@.len(),
            first_style is None,
            first_passthrough_style(container.panels@) == first_passthrough_style(
                container.panels@.subrange(j as int, container.panels@.len() as int),
            ),
        ensures
            match first_style {
                Some(s) => first_passthrough_style(container.panels@) == Some(s),
                None => j == container.panels@.len() && first_passthrough_style(container.panels@)
                    == first_passthrough_style(container.panels@.subrange(j as int, container.panels@.len() as int)),
            },
        decreases container.panels@.len() - j,
    {
        let ghost rest = container.panels@.subrange(j as int, container.panels@.len() as int);
        assert(rest.drop_first() =~= container.panels@.subrange(j as int + 1, container.panels@.len() as int));
        assert(rest[0] == container.panels@[j as int]);
        let panel = container.panels[j];
        if panel.visible && panel.hit_test == NativeGlassHitTest::Passthrough {
            first_style = Some(panel.style);
            break;
        }
        j = j + 1;
    }
    proof {
        if first_style is None {
            assert(container.panels@.subrange(j as int, container.panels@.len() as int) =~= Seq::<NativeGlassPanelDescriptor>::empty());
        }
    }
    let event = match first_style {
        Some(style) => Some(WindowNativeSubstrateResolvedEvent {
            window_id: batch.window_id,
            state: window_native_substrate_state_from_native_glass(container_state),
            style: Some(event_style_from_native_glass(style)),
            reason: if failed == 0 { "installed-native-glass-batch" } else { "partial-native-glass-batch" },
        }),
        None => None,
    };
    (result, event)
}


/// The substrate event of the window `window_id`: its state, the reported
/// style of `style` where there is one, and the reason.
pub fn native_substrate_resolved_event(
    window_id: WindowId,
    state: WindowNativeSubstrateState,
    style: Option<MacosNativeGlassStyle>,
    reason: &'static str,
) -> (r: WindowNativeSubstrateResolvedEvent)
    ensures
        r.window_id == window_id,
        r.state == state,
        r.style == match style {
            Some(MacosNativeGlassStyle::Regular) => Some(WindowNativeSubstrateStyle::MacosGlassRegular),
            Some(MacosNativeGlassStyle::Clear) => Some(WindowNativeSubstrateStyle::MacosGlassClear),
            None => None::<WindowNativeSubstrateStyle>,
        },
        r.reason == reason,
{
    let style = match style {
        Some(s) => Some(s.to_event_style()),
        None => None,
    };
    WindowNativeSubstrateResolvedEvent { window_id, state, style, reason }
}


/// Whether panel `p` sets the substrate's style: it is visible and lets
/// pointer input through.
pub open spec fn sets_substrate_style(p: NativeGlassPanelDescriptor) -> bool {
    p.visible && p.hit_test == NativeGlassHitTest::Passthrough
}

/// The substrate's style is that of the first panel that is both visible and
/// pass-through; hidden or interactive panels never decide it, and without
/// such a panel there is no style (and no substrate event).
pub proof fn law_substrate_style_is_first_visible_passthrough(panels: Seq<NativeGlassPanelDescriptor>)
    ensures
        first_passthrough_style(panels) is None <==> (forall|k: int| 0 <= k < panels.len() ==> !sets_substrate_style(
            #[trigger] panels[k],
        )),
        forall|s: NativeGlassStyle|
            first_passthrough_style(panels) == Some(s) <==> (exists|k: int|
                0 <= k < panels.len() && sets_substrate_style(#[trigger] panels[k]) && panels[k].style == s
                    && forall|j: int| 0 <= j < k ==> !sets_substrate_style(#[trigger] panels[j])),
    decreases panels.len(),
{
    if panels.len() > 0 {
        let rest = panels.drop_first();
        law_substrate_style_is_first_visible_passthrough(rest);
        assert forall|k: int| 0 <= k < rest.len() implies #[trigger] rest[k] == panels[k + 1] by {}
        if sets_substrate_style(panels[0]) {
            assert forall|s: NativeGlassStyle|
                first_passthrough_style(panels) == Some(s) <==> (exists|k: int|
                    0 <= k < panels.len() && sets_substrate_style(#[trigger] panels[k]) && panels[k].style == s
                        && forall|j: int| 0 <= j < k ==> !sets_substrate_style(#[trigger] panels[j])) by {
                if exists|k: int|
                    0 <= k < panels.len() && sets_substrate_style(#[trigger] panels[k]) && panels[k].style == s
                        && forall|j: int| 0 <= j < k ==> !sets_substrate_style(#[trigger] panels[j]) {
                    let k = choose|k: int|
                        0 <= k < panels.len() && sets_substrate_style(#[trigger] panels[k]) && panels[k].style == s
                            && forall|j: int| 0 <= j < k ==> !sets_substrate_style(#[trigger] panels[j]);
                    if k > 0 {
                        assert(!sets_substrate_style(panels[0]));
                    }
                }
                if first_passthrough_style(panels) == Some(s) {
                    assert(sets_substrate_style(panels[0]) && panels[0].style == s);
                }
            }
        } else {
            assert forall|s: NativeGlassStyle|
                first_passthrough_style(panels) == Some(s) <==> (exists|k: int|
                    0 <= k < panels.len() && sets_substrate_style(#[trigger] panels[k]) && panels[k].style == s
                        && forall|j: int| 0 <= j < k ==> !sets_substrate_style(#[trigger] panels[j])) by {
                if exists|k: int|
                    0 <= k < panels.len() && sets_substrate_style(#[trigger] panels[k]) && panels[k].style == s
                        && forall|j: int| 0 <= j < k ==> !sets_substrate_style(#[trigger] panels[j]) {
                    let k = choose|k: int|
                        0 <= k < panels.len() && sets_substrate_style(#[trigger] panels[k]) && panels[k].style == s
                            && forall|j: int| 0 <= j < k ==> !sets_substrate_style(#[trigger] panels[j]);
                    assert(k > 0);
                    assert(rest[k - 1] == panels[k]);
                    assert forall|j: int| 0 <= j < k - 1 implies !sets_substrate_style(#[trigger] rest[j]) by {
                        assert(rest[j] == panels[j + 1]);
                    }
                }
                if first_passthrough_style(rest) == Some(s) {
                    let k = choose|k: int|
                        0 <= k < rest.len() && sets_substrate_style(#[trigger] rest[k]) && rest[k].style == s
                            && forall|j: int| 0 <= j < k ==> !sets_substrate_style(#[trigger] rest[j]);
                    assert(panels[k + 1] == rest[k]);
                    assert forall|j: int| 0 <= j < k + 1 implies !sets_substrate_style(#[trigger] panels[j]) by {
                        if j > 0 {
                            assert(panels[j] == rest[j - 1]);
                        }
                    }
                }
            }
            if forall|k: int| 0 <= k < rest.len() ==> !sets_substrate_style(#[trigger] rest[k]) {
                assert forall|k: int| 0 <= k < panels.len() implies !sets_substrate_style(#[trigger] panels[k]) by {
                    if k > 0 {
                        assert(panels[k] == rest[k - 1]);
                    }
                }
            }
            if forall|k: int| 0 <= k < panels.len() ==> !sets_substrate_style(#[trigger] panels[k]) {
                assert forall|k: int| 0 <= k < rest.len() implies !sets_substrate_style(#[trigger] rest[k]) by {
                    assert(rest[k] == panels[k + 1]);
                }
            }
        }
    }
}

} // verus!
