use vstd::prelude::*;
use crate::ids::{LiveId, WindowId};
use crate::text::{chars_of, trim, trim_bounds, parse_i64_range, spec_parse_i64};

verus! {

/// A window closed.
#[derive(Clone, Debug)]
pub struct WindowClosedEvent {
    pub window_id: WindowId,
}

/// The glass material a window's native substrate is drawn with.
#[derive(Clone, Copy, Debug, PartialEq, Eq, Structural)]
pub enum WindowNativeSubstrateStyle {
    MacosGlassRegular,
    MacosGlassClear,
}

/// How far installing a window's native substrate got.
#[derive(Clone, Copy, Debug, PartialEq, Eq, Structural)]
pub enum WindowNativeSubstrateState {
    ClassMissing,
    PreflightFailed,
    VisibilityUnverified,
    Installed,
}

/// The outcome of installing a window's native substrate.
#[derive(Clone, Debug)]
pub struct WindowNativeSubstrateResolvedEvent {
    pub window_id: WindowId,
    pub state: WindowNativeSubstrateState,
    pub style: Option<WindowNativeSubstrateStyle>,
    pub reason: &'static str,
}

/// The most panels one window may show at once.
pub const NATIVE_GLASS_MAX_PANELS_PER_WINDOW_V4_1: usize = 12;

/// The glass material of a panel.
#[derive(Clone, Copy, Debug, PartialEq, Eq, Structural)]
pub enum NativeGlassStyle {
    Regular,
    Clear,
}

/// The raw style value that the iOS effect uses when nothing overrides it.
pub open spec fn spec_default_ios_raw_value(style: NativeGlassStyle) -> i64 {
    match style {
        NativeGlassStyle::Regular => 0,
        NativeGlassStyle::Clear => 1,
    }
}

impl NativeGlassStyle {
    /// The raw value of the macOS glass effect style.
    pub fn macos_raw_value(self) -> (r: i64)
        ensures
            r == (match self {
                NativeGlassStyle::Regular => 0i64,
                NativeGlassStyle::Clear => 1i64,
            }),
    {
        match self {
            NativeGlassStyle::Regular => 0,
            NativeGlassStyle::Clear => 1,
        }
    }

    fn default_ios_raw_value(self) -> (r: i64)
        ensures
            r == spec_default_ios_raw_value(self),
    {
        match self {
            NativeGlassStyle::Regular => 0,
            NativeGlassStyle::Clear => 1,
        }
    }

    /// The name of the environment variable that may override the iOS raw value.
    pub fn ios_style_override_env_var(self) -> (r: &'static str)
        ensures
            r@ == (match self {
                NativeGlassStyle::Regular => "AICHAT_IOS_GLASS_STYLE_REGULAR_RAW"@,
                NativeGlassStyle::Clear => "AICHAT_IOS_GLASS_STYLE_CLEAR_RAW"@,
            }),
    {
        match self {
            NativeGlassStyle::Regular => "AICHAT_IOS_GLASS_STYLE_REGULAR_RAW",
            NativeGlassStyle::Clear => "AICHAT_IOS_GLASS_STYLE_CLEAR_RAW",
        }
    }

    /// The iOS raw value: the override, trimmed, where it parses as an `i64`;
    /// otherwise the style's default.
    pub fn ios_raw_value_from_override(self, override_value: Option<&str>) -> (r: i64)
        ensures
            r == (match override_value {
                Some(v) => match spec_parse_i64(trim(v@)) {
                    Some(n) => n,
                    None => spec_default_ios_raw_value(self),
                },
                None => spec_default_ios_raw_value(self),
            }),
    {
        match override_value {
            Some(v) => {
                let chars = chars_of(v);
                let (a, b) = trim_bounds(&chars);
                match parse_i64_range(&chars, a, b) {
                    Some(n) => n,
                    None => self.default_ios_raw_value(),
                }
            },
            None => self.default_ios_raw_value(),
        }
    }
}

/// Whether a panel takes pointer input or lets it through.
#[derive(Clone, Copy, Debug, PartialEq, Eq, Structural)]
pub enum NativeGlassHitTest {
    Passthrough,
    Interactive,
}

/// A glass panel: what the batch rules read of it (its geometry stays with the caller).
#[derive(Clone, Copy, Debug, PartialEq, Eq, Structural)]
pub struct NativeGlassPanelDescriptor {
    pub id: LiveId,
    pub style: NativeGlassStyle,
    pub hit_test: NativeGlassHitTest,
    pub z_order: i32,
    pub visible: bool,
}

/// A container of glass panels.
#[derive(Clone, Debug)]
pub struct NativeGlassContainerDescriptor {
    pub id: LiveId,
    pub panels: Vec<NativeGlassPanelDescriptor>,
}

/// The glass panels of one window, by container.
#[derive(Clone, Debug)]
pub struct NativeGlassBatch {
    pub window_id: WindowId,
    pub containers: Vec<NativeGlassContainerDescriptor>,
}

/// Why a batch was refused.
#[derive(Clone, Copy, Debug, PartialEq, Eq, Structural)]
pub enum NativeGlassBatchValidationError {
    TooManyContainers { count: usize },
    TooManyVisiblePanels { count: usize, max: usize },
    InteractiveHitTestUnsupported { container_id: LiveId, panel_id: LiveId },
}

/// How many of `panels` are visible.
pub open spec fn visible_count(panels: Seq<NativeGlassPanelDescriptor>) -> nat
    decreases panels.len(),
{
    if panels.len() == 0 {
        0
    } else {
        visible_count(panels.drop_last()) + if panels.last().visible { 1nat } else { 0nat }
    }
}

/// How many panels of all of `cs` are visible.
pub open spec fn containers_visible_count(cs: Seq<NativeGlassContainerDescriptor>) -> nat
    decreases cs.len(),
{
    if cs.len() == 0 {
        0
    } else {
        containers_visible_count(cs.drop_last()) + visible_count(cs.last().panels@)
    }
}

/// How many panels all of `cs` hold.
pub open spec fn total_panels(cs: Seq<NativeGlassContainerDescriptor>) -> nat
    decreases cs.len(),
{
    if cs.len() == 0 {
        0
    } else {
        total_panels(cs.drop_last()) + cs.last().panels@.len()
    }
}

/// The id of the first interactive panel of `panels`, if any.
pub open spec fn first_interactive(panels: Seq<NativeGlassPanelDescriptor>) -> Option<LiveId>
    decreases panels.len(),
{
    if panels.len() == 0 {
        None
    } else if panels[0].hit_test == NativeGlassHitTest::Interactive {
        Some(panels[0].id)
    } else {
        first_interactive(panels.drop_first())
    }
}

/// The verdict of the batch rules: at most one container, at most
/// twelve visible panels, and no interactive panel.
pub open spec fn spec_validate_v4_1(cs: Seq<NativeGlassContainerDescriptor>) -> Result<(), NativeGlassBatchValidationError> {
    if cs.len() > 1 {
        Err(NativeGlassBatchValidationError::TooManyContainers { count: cs.len() as usize })
    } else if containers_visible_count(cs) > NATIVE_GLASS_MAX_PANELS_PER_WINDOW_V4_1 {
        Err(NativeGlassBatchValidationError::TooManyVisiblePanels {
            count: containers_visible_count(cs) as usize,
            max: NATIVE_GLASS_MAX_PANELS_PER_WINDOW_V4_1,
        })
    } else if cs.len() == 1 && first_interactive(cs[0].panels@) is Some {
        Err(NativeGlassBatchValidationError::InteractiveHitTestUnsupported {
            container_id: cs[0].id,
            panel_id: first_interactive(cs[0].panels@)->0,
        })
    } else {
        Ok(())
    }
}

proof fn lemma_visible_count_bound(p: Seq<NativeGlassPanelDescriptor>)
    ensures
        visible_count(p) <= p.len(),
    decreases p.len(),
{
    if p.len() > 0 {
        lemma_visible_count_bound(p.drop_last());
    }
}

proof fn lemma_containers_visible_bound(cs: Seq<NativeGlassContainerDescriptor>)
    ensures
        containers_visible_count(cs) <= total_panels(cs),
    decreases cs.len(),
{
    if cs.len() > 0 {
        lemma_containers_visible_bound(cs.drop_last());
        lemma_visible_count_bound(cs.last().panels@);
    }
}

proof fn lemma_total_panels_prefix(cs: Seq<NativeGlassContainerDescriptor>, i: int)
    requires
        0 <= i <= cs.len(),
    ensures
        total_panels(cs.subrange(0, i)) <= total_panels(cs),
    decreases cs.len(),
{
    if i < cs.len() {
        assert(cs.drop_last().subrange(0, i) =~= cs.subrange(0, i));
        lemma_total_panels_prefix(cs.drop_last(), i);
    } else {
        assert(cs.subrange(0, i) =~= cs);
    }
}

impl NativeGlassBatch {
    /// How many panels of the batch are visible.
    pub fn visible_panel_count(&self) -> (r: usize)
        requires
            total_panels(self.containers@) <= usize::MAX,
        ensures
            r == containers_visible_count(self.containers@),
    {
        let ghost cs = self.containers@;
        let mut count: usize = 0;
        let mut i: usize = 0;
        while i < self.containers.len()
            invariant
                cs == self.containers@,
                i <= cs.len(),
                total_panels(cs) <= usize::MAX,
                count == containers_visible_count(cs.subrange(0, i as int)),
            decreases cs.len() - i,
        {
            let panels = &self.containers[i].panels;
            proof {
                lemma_total_panels_prefix(cs, i as int + 1);
                let next = cs.subrange(0, i as int + 1);
                assert(next.drop_last() =~= cs.subrange(0, i as int));
                lemma_containers_visible_bound(cs.subrange(0, i as int));
            }
            let mut j: usize = 0;
            while j < panels.len()
                invariant
                    cs == self.containers@,
                    i < cs.len(),
                    panels@ == cs[i as int].panels@,
                    j <= panels@.len(),
                    total_panels(cs.subrange(0, i as int + 1)) <= usize::MAX,
                    total_panels(cs.subrange(0, i as int + 1)) == total_panels(cs.subrange(0, i as int)) + panels@.len(),
                    containers_visible_count(cs.subrange(0, i as int)) <= total_panels(cs.subrange(0, i as int)),
                    count == containers_visible_count(cs.subrange(0, i as int)) + visible_count(panels@.subrange(0, j as int)),
                decreases panels@.len() - j,
            {
                proof {
                    let q = panels@.subrange(0, j as int + 1);
                    assert(q.drop_last() =~= panels@.subrange(0, j as int));
                    lemma_visible_count_bound(panels@.subrange(0, j as int));
                }
                if panels[j].visible {
                    count = count + 1;
                }
                j = j + 1;
            }
            proof {
                assert(panels@.subrange(0, panels@.len() as int) =~= panels@);
                let next = cs.subrange(0, i as int + 1);
                assert(next.drop_last() =~= cs.subrange(0, i as int));
            }
            i = i + 1;
        }
        proof {
            assert(cs.subrange(0, cs.len() as int) =~= cs);
        }
        count
    }

    /// Checks the batch rules: at most one container, at most twelve visible
    /// panels, and no interactive panel; the first rule broken is reported.
    pub fn validate_v4_1(&self) -> (r: Result<(), NativeGlassBatchValidationError>)
        ensures
            r == spec_validate_v4_1(self.containers@),
    {
        let ghost cs = self.containers@;
        if self.containers.len() > 1 {
            return Err(NativeGlassBatchValidationError::TooManyContainers { count: self.containers.len() });
        }
        proof {
            if cs.len() == 1 {
                assert(cs.drop_last().len() == 0);
                assert(total_panels(cs.drop_last()) == 0);
                assert(cs.last() == cs[0]);
                assert(cs[0].panels.len() <= usize::MAX);
                assert(total_panels(cs) == cs[0].panels@.len());
            }
        }
        let visible_panel_count = self.visible_panel_count();
        if visible_panel_count > NATIVE_GLASS_MAX_PANELS_PER_WINDOW_V4_1 {
            return Err(NativeGlassBatchValidationError::TooManyVisiblePanels {
                count: visible_panel_count,
                max: NATIVE_GLASS_MAX_PANELS_PER_WINDOW_V4_1,
            });
        }
        if self.containers.len() == 1 {
            let container = &self.containers[0];
            let panels = &container.panels;
            let mut j: usize = 0;
            assert(panels@.subrange(0, panels@.len() as int) =~= panels@);
            while j < panels.len()
                invariant
                    cs == self.containers@,
                    cs.len() == 1,
                    panels@ == cs[0].panels@,
                    container.id == cs[0].id,
                    containers_visible_count(cs) <= NATIVE_GLASS_MAX_PANELS_PER_WINDOW_V4_1,
                    j <= panels@.len(),
                    first_interactive(panels@) == first_interactive(panels@.subrange(j as int, panels@.len() as int)),
                decreases panels@.len() - j,
            {
                let ghost rest = panels@.subrange(j as int, panels@.len() as int);
                assert(rest[0] == panels@[j as int]);
                if panels[j].hit_test == NativeGlassHitTest::Interactive {
                    assert(first_interactive(rest) == Some(panels@[j as int].id));
                    return Err(NativeGlassBatchValidationError::InteractiveHitTestUnsupported {
                        container_id: container.id,
                        panel_id: panels[j].id,
                    });
                }
                assert(rest.drop_first() =~= panels@.subrange(j as int + 1, panels@.len() as int));
                j = j + 1;
            }
        }
        Ok(())
    }
}

/// How far a platform got with a batch as a whole.
#[derive(Clone, Copy, Debug, PartialEq, Eq, Structural)]
pub enum NativeGlassBackendState {
    Unsupported,
    Rejected,
    Installed,
    Partial,
}

/// How far a platform got with one container or panel.
#[derive(Clone, Copy, Debug, PartialEq, Eq, Structural)]
pub enum NativeGlassInstallState {
    Skipped,
    Rejected,
    Failed,
    Partial,
    Installed,
}

/// What became of one panel.
#[derive(Clone, Copy, Debug, PartialEq, Eq)]
pub struct NativeGlassPanelResult {
    pub id: LiveId,
    pub state: NativeGlassInstallState,
    pub reason: &'static str,
}

/// What became of one container and its panels.
#[derive(Clone, Debug)]
pub struct NativeGlassContainerResult {
    pub id: LiveId,
    pub state: NativeGlassInstallState,
    pub reason: &'static str,
    pub installed_panels: usize,
    pub failed_panels: usize,
    pub panels: Vec<NativeGlassPanelResult>,
}

/// What became of a batch.
#[derive(Clone, Debug)]
pub struct NativeGlassBatchResult {
    pub window_id: WindowId,
    pub backend_state: NativeGlassBackendState,
    pub containers: Vec<NativeGlassContainerResult>,
}

/// How many of `panels` were installed.
pub open spec fn installed_count(panels: Seq<NativeGlassPanelResult>) -> nat
    decreases panels.len(),
{
    if panels.len() == 0 {
        0
    } else {
        installed_count(panels.drop_last()) + if panels.last().state == NativeGlassInstallState::Installed {
            1nat
        } else {
            0nat
        }
    }
}

/// Whether a panel in state `s` counts as failed.
pub open spec fn is_failed_state(s: NativeGlassInstallState) -> bool {
    s == NativeGlassInstallState::Failed || s == NativeGlassInstallState::Rejected
}

/// How many of `panels` failed or were rejected.
pub open spec fn failed_count(panels: Seq<NativeGlassPanelResult>) -> nat
    decreases panels.len(),
{
    if panels.len() == 0 {
        0
    } else {
        failed_count(panels.drop_last()) + if is_failed_state(panels.last().state) { 1nat } else { 0nat }
    }
}

proof fn lemma_result_counts_bound(p: Seq<NativeGlassPanelResult>)
    ensures
        installed_count(p) <= p.len(),
        failed_count(p) <= p.len(),
    decreases p.len(),
{
    if p.len() > 0 {
        lemma_result_counts_bound(p.drop_last());
    }
}

impl NativeGlassContainerResult {
    /// A container result whose counts are taken from its panels: those
    /// installed, and those that failed or were rejected.
    pub fn from_panel_results(
        id: LiveId,
        state: NativeGlassInstallState,
        reason: &'static str,
        panels: Vec<NativeGlassPanelResult>,
    ) -> (r: Self)
        ensures
            r.id == id,
            r.state == state,
            r.reason == reason,
            r.panels@ == panels@,
            r.installed_panels == installed_count(panels@),
            r.failed_panels == failed_count(panels@),
    {
        let mut installed_panels: usize = 0;
        let mut failed_panels: usize = 0;
        let mut i: usize = 0;
        while i < panels.len()
            invariant
                i <= panels@.len(),
                installed_panels == installed_count(panels@.subrange(0, i as int)),
                failed_panels == failed_count(panels@.subrange(0, i as int)),
            decreases panels@.len() - i,
        {
            proof {
                let q = panels@.subrange(0, i as int + 1);
                assert(q.drop_last() =~= panels@.subrange(0, i as int));
                lemma_result_counts_bound(panels@.subrange(0, i as int));
            }
            match panels[i].state {
                NativeGlassInstallState::Installed => {
                    installed_panels = installed_panels + 1;
                },
                NativeGlassInstallState::Failed | NativeGlassInstallState::Rejected => {
                    failed_panels = failed_panels + 1;
                },
                _ => {},
            }
            i = i + 1;
        }
        proof {
            assert(panels@.subrange(0, panels@.len() as int) =~= panels@);
        }
        NativeGlassContainerResult { id, state, reason, installed_panels, failed_panels, panels }
    }
}

/// Why a popup should close.
#[derive(Clone, Copy, Debug, PartialEq, Eq, Structural)]
pub enum PopupDismissReason {
    FocusLost,
    OutsideClick,
    Escape,
    Compositor,
    ParentClosed,
}

/// A popup window should be closed; the app closes it.
#[derive(Clone, Debug)]
pub struct PopupDismissedEvent {
    pub window_id: WindowId,
    pub reason: PopupDismissReason,
}

/// What a point of a window is, for dragging it.
#[derive(Clone, Copy, Debug, PartialEq, Eq, Structural)]
pub enum WindowDragQueryResponse {
    NoAnswer,
    Client,
    Caption,
    SysMenu,
}

proof fn lemma_first_interactive_none(panels: Seq<NativeGlassPanelDescriptor>)
    ensures
        first_interactive(panels) is None ==> forall|j: int|
            0 <= j < panels.len() ==> (#[trigger] panels[j]).hit_test != NativeGlassHitTest::Interactive,
    decreases panels.len(),
{
    if panels.len() > 0 {
        lemma_first_interactive_none(panels.drop_first());
        assert forall|j: int| 1 <= j < panels.len() implies panels[j] == panels.drop_first()[j - 1] by {}
    }
}

/// A batch that the rules accept has at most one container, at most twelve
/// visible panels, and no interactive panel.
pub proof fn law_accepted_batch_within_limits(cs: Seq<NativeGlassContainerDescriptor>)
    requires
        spec_validate_v4_1(cs) is Ok,
    ensures
        cs.len() <= 1,
        containers_visible_count(cs) <= NATIVE_GLASS_MAX_PANELS_PER_WINDOW_V4_1,
        forall|i: int, j: int|
            0 <= i < cs.len() && 0 <= j < cs[i].panels@.len() ==> (#[trigger] cs[i].panels@[j]).hit_test
                != NativeGlassHitTest::Interactive,
{
    if cs.len() == 1 {
        lemma_first_interactive_none(cs[0].panels@);
    }
}

} // verus!
