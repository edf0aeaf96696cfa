use vstd::prelude::*;
use crate::action::Action;
use crate::cx::{Cx, CxPart, CxState, NextFrame, PendingCameraPlayback, Timer, Trigger};
use crate::ids::{Area, DrawListId, LiveId, TextureId};
use crate::os_op::{
    CameraPreviewMode, CharRange, CxOsOp, FileDialog, MouseCursor, Permission, PermissionResult,
    PermissionStatus, VideoSource,
};

verus! {

/// Whether a URL opens in place of the app's page (web) or beside it.
pub enum OpenUrlInPlace {
    Yes,
    No,
}

/// The scheduling priority asked for a thread of the app.
#[derive(Clone, Copy, Debug, PartialEq, Eq, Hash, Structural)]
pub enum CxThreadPriority {
    Normal,
    Utility,
    Background,
    Idle,
}

impl Default for CxThreadPriority {
    fn default() -> (r: Self)
        ensures
            r == CxThreadPriority::Normal,
    {
        CxThreadPriority::Normal
    }
}

/// A video that could not be prepared, with the reason.
#[derive(Clone, Debug)]
pub struct VideoDecodingErrorEvent {
    pub video_id: LiveId,
    pub error: String,
}

/// The error reported for a camera playback whose permission was refused.
pub open spec fn camera_denied_message(permission: Permission) -> Seq<char> {
    match permission {
        Permission::HeadsetCamera => "Headset camera permission denied"@,
        _ => "Camera permission denied"@,
    }
}

/// The pending playbacks of `s` that wait for `permission` (`matching`) or for
/// another permission (`!matching`), in order.
pub open spec fn pending_for(s: Seq<PendingCameraPlayback>, permission: Permission, matching: bool) -> Seq<
    PendingCameraPlayback,
>
    decreases s.len(),
{
    if s.len() == 0 {
        s
    } else {
        let rest = pending_for(s.drop_last(), permission, matching);
        if (s.last().permission == permission) == matching {
            rest.push(s.last())
        } else {
            rest
        }
    }
}

/// The pending playbacks of `s` other than those of video `video_id`, in order.
pub open spec fn pending_without_video(s: Seq<PendingCameraPlayback>, video_id: LiveId) -> Seq<PendingCameraPlayback>
    decreases s.len(),
{
    if s.len() == 0 {
        s
    } else {
        let rest = pending_without_video(s.drop_last(), video_id);
        if s.last().video_id != video_id {
            rest.push(s.last())
        } else {
            rest
        }
    }
}

/// The operation that starts a granted pending playback.
pub open spec fn prepare_op_for(p: PendingCameraPlayback) -> CxOsOp {
    CxOsOp::PrepareVideoPlayback(
        p.video_id,
        p.source,
        p.camera_preview_mode,
        p.external_texture_id,
        p.texture_id,
        p.autoplay,
        p.should_loop,
    )
}

/// Whether `ids` holds `id`.
pub open spec fn holds_draw_list(ids: Seq<DrawListId>, id: DrawListId) -> bool {
    exists|i: int| 0 <= i < ids.len() && ids[i] == id
}

fn contains_draw_list(ids: &Vec<DrawListId>, id: DrawListId) -> (r: bool)
    ensures
        r == holds_draw_list(ids@, id),
{
    let mut i: usize = 0;
    while i < ids.len()
        invariant
            i <= ids@.len(),
            forall|j: int| 0 <= j < i ==> ids@[j] != id,
        decreases ids.len() - i,
    {
        if ids[i] == id {
            return true;
        }
        i = i + 1;
    }
    false
}

impl Cx {
    /// Whether a draw event is being handled.
    pub fn in_draw_event(&self) -> (r: bool)
        ensures
            r == self.state.in_draw_event,
    {
        self.state.in_draw_event
    }

    /// Asks for a script re-apply on the next event-loop iteration.
    pub fn request_script_reapply(&mut self)
        ensures
            final(self).state == (CxState { pending_script_reapply: true, ..old(self).state }),
            final(self).unchanged_except(*old(self), set![CxPart::State]),
    {
        self.state.pending_script_reapply = true;
    }

    /// Asks for a live edit (script re-run and reload) on the next event-loop iteration.
    pub fn request_live_edit(&mut self)
        ensures
            final(self).state == (CxState { pending_live_edit_request: true, ..old(self).state }),
            final(self).unchanged_except(*old(self), set![CxPart::State]),
    {
        self.state.pending_live_edit_request = true;
    }

    /// The id of the current redraw.
    pub fn redraw_id(&self) -> (r: u64)
        ensures
            r == self.state.redraw_id,
    {
        self.state.redraw_id
    }

    /// Whether the app runs inside Makepad Studio.
    pub fn in_makepad_studio(&self) -> (r: bool)
        ensures
            r == self.state.in_makepad_studio,
    {
        self.state.in_makepad_studio
    }

    /// The number of CPU cores.
    pub fn cpu_cores(&self) -> (r: usize)
        ensures
            r == self.state.cpu_cores,
    {
        self.state.cpu_cores
    }

    /// The id of the event being handled.
    pub fn event_id(&self) -> (r: u64)
        ensures
            r == self.state.event_id,
    {
        self.state.event_id
    }

    /// The number of slots in the texture pool.
    pub fn texture_pool_slot_count(&self) -> (r: usize)
        ensures
            r == self.textures@.len(),
    {
        self.textures.len()
    }

    /// Starts presenting in XR.
    pub fn xr_start_presenting(&mut self)
        ensures
            final(self).pushed_op(*old(self), CxOsOp::XrStartPresenting),
    {
        self.platform_ops.push(CxOsOp::XrStartPresenting);
    }

    /// Looks for the shared XR anchor `id`.
    pub fn xr_discover_anchor(&mut self, id: u8)
        ensures
            final(self).pushed_op(*old(self), CxOsOp::XrDiscoverAnchor(id)),
    {
        self.platform_ops.push(CxOsOp::XrDiscoverAnchor(id));
    }

    /// Quits the app.
    pub fn quit(&mut self)
        ensures
            final(self).pushed_op(*old(self), CxOsOp::Quit),
    {
        self.platform_ops.push(CxOsOp::Quit);
    }

    /// Finishes a quit request after the app has seen it: quits unless the app
    /// handled (vetoed) it, and tells whether it did.
    pub fn request_quit(&mut self, was_handled: bool) -> (r: bool)
        ensures
            r == was_handled,
            was_handled ==> *final(self) == *old(self),
            !was_handled ==> final(self).pushed_op(*old(self), CxOsOp::Quit),
    {
        if !was_handled {
            self.quit();
        }
        was_handled
    }

    /// Shows the app in the dock or hides it from there.
    pub fn show_in_dock(&mut self, show: bool)
        ensures
            final(self).pushed_op(*old(self), CxOsOp::ShowInDock(show)),
    {
        self.platform_ops.push(CxOsOp::ShowInDock(show));
    }

    /// Tells the platform input method the text, selection and composition.
    pub fn sync_ime_state(&mut self, text: String, selection: CharRange, composition: Option<CharRange>)
        ensures
            final(self).pushed_op(*old(self), CxOsOp::SyncImeState { text, selection, composition }),
    {
        self.platform_ops.push(CxOsOp::SyncImeState { text, selection, composition });
    }

    /// Hides the on-screen keyboard and forgets that the user dismissed it.
    pub fn hide_text_ime(&mut self)
        ensures
            final(self).platform_ops@ == old(self).platform_ops@.push(CxOsOp::HideTextIME),
            final(self).state == (CxState { text_ime_dismissed: false, ..old(self).state }),
            final(self).unchanged_except(*old(self), set![CxPart::PlatformOps, CxPart::State]),
    {
        self.state.text_ime_dismissed = false;
        self.platform_ops.push(CxOsOp::HideTextIME);
    }

    /// Records that the user dismissed the on-screen keyboard and hides it.
    pub fn text_ime_was_dismissed(&mut self)
        ensures
            final(self).platform_ops@ == old(self).platform_ops@.push(CxOsOp::HideTextIME),
            final(self).state == (CxState { text_ime_dismissed: true, ..old(self).state }),
            final(self).unchanged_except(*old(self), set![CxPart::PlatformOps, CxPart::State]),
    {
        self.state.text_ime_dismissed = true;
        self.platform_ops.push(CxOsOp::HideTextIME);
    }

    /// Hides the clipboard actions menu.
    pub fn hide_clipboard_actions(&mut self)
        ensures
            final(self).pushed_op(*old(self), CxOsOp::HideClipboardActions),
    {
        self.platform_ops.push(CxOsOp::HideClipboardActions);
    }

    /// Copies `content` to the clipboard.
    pub fn copy_to_clipboard(&mut self, content: &str)
        ensures
            final(self).pushed_one_op(*old(self)),
            final(self).last_op() matches CxOsOp::CopyToClipboard(t) && t@ == content@,
    {
        self.platform_ops.push(CxOsOp::CopyToClipboard(content.to_owned()));
        assert(self.platform_ops@.drop_last() =~= old(self).platform_ops@);
    }

    /// Sets the primary selection (middle-click paste) to `content`.
    pub fn set_primary_selection(&mut self, content: &str)
        ensures
            final(self).pushed_one_op(*old(self)),
            final(self).last_op() matches CxOsOp::SetPrimarySelection(t) && t@ == content@,
    {
        self.platform_ops.push(CxOsOp::SetPrimarySelection(content.to_owned()));
        assert(self.platform_ops@.drop_last() =~= old(self).platform_ops@);
    }

    /// Hides the selection handles.
    pub fn hide_selection_handles(&mut self)
        ensures
            final(self).pushed_op(*old(self), CxOsOp::HideSelectionHandles),
    {
        self.platform_ops.push(CxOsOp::HideSelectionHandles);
    }

    /// Sets the mouse cursor; a cursor set earlier in this event is replaced
    /// in place (the press cursor overrides the hover cursor).
    pub fn set_cursor(&mut self, cursor: MouseCursor)
        ensures
            final(self).unchanged_except(*old(self), set![CxPart::PlatformOps]),
            match first_set_cursor(old(self).platform_ops@) {
                Some(i) => final(self).platform_ops@ == old(self).platform_ops@.update(i, CxOsOp::SetCursor(cursor)),
                None => final(self).platform_ops@ == old(self).platform_ops@.push(CxOsOp::SetCursor(cursor)),
            },
    {
        let mut i: usize = 0;
        while i < self.platform_ops.len()
            invariant
                i <= self.platform_ops@.len(),
                self.platform_ops == old(self).platform_ops,
                self.unchanged_except(*old(self), set![]),
                forall|j: int| 0 <= j < i ==> !(#[trigger] self.platform_ops@[j] is SetCursor),
            decreases self.platform_ops.len() - i,
        {
            let is_cursor = match &self.platform_ops[i] {
                CxOsOp::SetCursor(_) => true,
                _ => false,
            };
            if is_cursor {
                proof {
                    lemma_first_set_cursor(self.platform_ops@, i as int);
                }
                self.platform_ops.set(i, CxOsOp::SetCursor(cursor));
                return;
            }
            i = i + 1;
        }
        proof {
            lemma_no_set_cursor(old(self).platform_ops@);
        }
        self.platform_ops.push(CxOsOp::SetCursor(cursor));
    }

    /// Stops `timer`; the empty timer (id 0) is ignored.
    pub fn stop_timer(&mut self, timer: Timer)
        ensures
            timer.0 == 0 ==> *final(self) == *old(self),
            timer.0 != 0 ==> final(self).pushed_op(*old(self), CxOsOp::StopTimer(timer.0)),
    {
        if timer.0 != 0 {
            self.platform_ops.push(CxOsOp::StopTimer(timer.0));
        }
    }

    /// Requests `permission` from the user; returns the id of the request.
    pub fn request_permission(&mut self, permission: Permission) -> (r: i32)
        requires
            old(self).state.permissions_request_id < i32::MAX,
        ensures
            r == old(self).state.permissions_request_id + 1,
            final(self).state == (CxState { permissions_request_id: r, ..old(self).state }),
            final(self).platform_ops@ == old(self).platform_ops@.push(
                CxOsOp::RequestPermission { permission, request_id: r },
            ),
            final(self).unchanged_except(*old(self), set![CxPart::PlatformOps, CxPart::State]),
    {
        self.state.permissions_request_id = self.state.permissions_request_id + 1;
        self.platform_ops.push(
            CxOsOp::RequestPermission { permission, request_id: self.state.permissions_request_id },
        );
        self.state.permissions_request_id
    }

    /// Checks whether `permission` is granted; returns the id of the check.
    pub fn check_permission(&mut self, permission: Permission) -> (r: i32)
        requires
            old(self).state.permissions_request_id < i32::MAX,
        ensures
            r == old(self).state.permissions_request_id + 1,
            final(self).state == (CxState { permissions_request_id: r, ..old(self).state }),
            final(self).platform_ops@ == old(self).platform_ops@.push(
                CxOsOp::CheckPermission { permission, request_id: r },
            ),
            final(self).unchanged_except(*old(self), set![CxPart::PlatformOps, CxPart::State]),
    {
        self.state.permissions_request_id = self.state.permissions_request_id + 1;
        self.platform_ops.push(
            CxOsOp::CheckPermission { permission, request_id: self.state.permissions_request_id },
        );
        self.state.permissions_request_id
    }

    /// Marks everything for redraw at the next draw event.
    pub fn redraw_all(&mut self)
        ensures
            final(self).new_draw_event.redraw_all,
            final(self).new_draw_event.draw_lists == old(self).new_draw_event.draw_lists,
            final(self).new_draw_event.draw_lists_and_children == old(self).new_draw_event.draw_lists_and_children,
            final(self).unchanged_except(*old(self), set![CxPart::DrawEvent]),
    {
        self.new_draw_event.redraw_all = true;
    }

    /// Marks draw list `draw_list_id` for redraw, also while drawing.
    pub fn redraw_list_in_draw(&mut self, draw_list_id: DrawListId)
        ensures
            final(self).new_draw_event.redraw_all == old(self).new_draw_event.redraw_all,
            final(self).new_draw_event.draw_lists_and_children == old(self).new_draw_event.draw_lists_and_children,
            holds_draw_list(old(self).new_draw_event.draw_lists@, draw_list_id) ==> final(self).new_draw_event.draw_lists@ == old(self).new_draw_event.draw_lists@,
            !holds_draw_list(old(self).new_draw_event.draw_lists@, draw_list_id) ==> final(self).new_draw_event.draw_lists@ == old(self).new_draw_event.draw_lists@.push(draw_list_id),
            final(self).unchanged_except(*old(self), set![CxPart::DrawEvent]),
    {
        if contains_draw_list(&self.new_draw_event.draw_lists, draw_list_id) {
            return;
        }
        self.new_draw_event.draw_lists.push(draw_list_id);
    }

    /// Marks draw list `draw_list_id` for redraw; ignored while drawing.
    pub fn redraw_list(&mut self, draw_list_id: DrawListId)
        ensures
            final(self).new_draw_event.redraw_all == old(self).new_draw_event.redraw_all,
            final(self).new_draw_event.draw_lists_and_children == old(self).new_draw_event.draw_lists_and_children,
            (old(self).state.in_draw_event || holds_draw_list(old(self).new_draw_event.draw_lists@, draw_list_id))
                ==> final(self).new_draw_event.draw_lists@ == old(self).new_draw_event.draw_lists@,
            !(old(self).state.in_draw_event || holds_draw_list(old(self).new_draw_event.draw_lists@, draw_list_id))
                ==> final(self).new_draw_event.draw_lists@ == old(self).new_draw_event.draw_lists@.push(draw_list_id),
            final(self).unchanged_except(*old(self), set![CxPart::DrawEvent]),
    {
        if self.state.in_draw_event {
            return;
        }
        self.redraw_list_in_draw(draw_list_id);
    }

    /// Marks draw list `draw_list_id` and the lists drawn inside it for redraw;
    /// ignored while drawing.
    pub fn redraw_list_and_children(&mut self, draw_list_id: DrawListId)
        ensures
            final(self).new_draw_event.redraw_all == old(self).new_draw_event.redraw_all,
            final(self).new_draw_event.draw_lists == old(self).new_draw_event.draw_lists,
            (old(self).state.in_draw_event || holds_draw_list(
                old(self).new_draw_event.draw_lists_and_children@,
                draw_list_id,
            )) ==> final(self).new_draw_event.draw_lists_and_children@
                == old(self).new_draw_event.draw_lists_and_children@,
            !(old(self).state.in_draw_event || holds_draw_list(
                old(self).new_draw_event.draw_lists_and_children@,
                draw_list_id,
            )) ==> final(self).new_draw_event.draw_lists_and_children@
                == old(self).new_draw_event.draw_lists_and_children@.push(draw_list_id),
            final(self).unchanged_except(*old(self), set![CxPart::DrawEvent]),
    {
        if self.state.in_draw_event {
            return;
        }
        if contains_draw_list(&self.new_draw_event.draw_lists_and_children, draw_list_id) {
            return;
        }
        self.new_draw_event.draw_lists_and_children.push(draw_list_id);
    }

    /// Marks the draw list of `area` for redraw; ignored while drawing and for
    /// the empty area.
    pub fn redraw_area(&mut self, area: Area)
        ensures
            final(self).new_draw_event.redraw_all == old(self).new_draw_event.redraw_all,
            final(self).new_draw_event.draw_lists_and_children == old(self).new_draw_event.draw_lists_and_children,
            match area.spec_draw_list_id() {
                Some(id) => if old(self).state.in_draw_event || holds_draw_list(
                    old(self).new_draw_event.draw_lists@,
                    id,
                ) {
                    final(self).new_draw_event.draw_lists@ == old(self).new_draw_event.draw_lists@
                } else {
                    final(self).new_draw_event.draw_lists@ == old(self).new_draw_event.draw_lists@.push(id)
                },
                None => final(self).new_draw_event.draw_lists@ == old(self).new_draw_event.draw_lists@,
            },
            final(self).unchanged_except(*old(self), set![CxPart::DrawEvent]),
    {
        if let Some(draw_list_id) = area.draw_list_id() {
            self.redraw_list(draw_list_id);
        }
    }

    /// Marks the draw list of `area` for redraw, also while drawing; ignored for
    /// the empty area.
    pub fn redraw_area_in_draw(&mut self, area: Area)
        ensures
            final(self).new_draw_event.redraw_all == old(self).new_draw_event.redraw_all,
            final(self).new_draw_event.draw_lists_and_children == old(self).new_draw_event.draw_lists_and_children,
            match area.spec_draw_list_id() {
                Some(id) => if holds_draw_list(old(self).new_draw_event.draw_lists@, id) {
                    final(self).new_draw_event.draw_lists@ == old(self).new_draw_event.draw_lists@
                } else {
                    final(self).new_draw_event.draw_lists@ == old(self).new_draw_event.draw_lists@.push(id)
                },
                None => final(self).new_draw_event.draw_lists@ == old(self).new_draw_event.draw_lists@,
            },
            final(self).unchanged_except(*old(self), set![CxPart::DrawEvent]),
    {
        if let Some(draw_list_id) = area.draw_list_id() {
            self.redraw_list_in_draw(draw_list_id);
        }
    }

    /// Marks the draw list of `area` and the lists inside it for redraw; ignored
    /// while drawing and for the empty area.
    pub fn redraw_area_and_children(&mut self, area: Area)
        ensures
            final(self).new_draw_event.redraw_all == old(self).new_draw_event.redraw_all,
            final(self).new_draw_event.draw_lists == old(self).new_draw_event.draw_lists,
            match area.spec_draw_list_id() {
                Some(id) => if old(self).state.in_draw_event || holds_draw_list(
                    old(self).new_draw_event.draw_lists_and_children@,
                    id,
                ) {
                    final(self).new_draw_event.draw_lists_and_children@
                        == old(self).new_draw_event.draw_lists_and_children@
                } else {
                    final(self).new_draw_event.draw_lists_and_children@
                        == old(self).new_draw_event.draw_lists_and_children@.push(id)
                },
                None => final(self).new_draw_event.draw_lists_and_children@
                    == old(self).new_draw_event.draw_lists_and_children@,
            },
            final(self).unchanged_except(*old(self), set![CxPart::DrawEvent]),
    {
        if let Some(draw_list_id) = area.draw_list_id() {
            self.redraw_list_and_children(draw_list_id);
        }
    }

    /// Asks to be woken at the next frame; returns the request.
    pub fn new_next_frame(&mut self) -> (r: NextFrame)
        requires
            old(self).state.next_frame_id < u64::MAX,
        ensures
            r == NextFrame(old(self).state.next_frame_id),
            final(self).state == (CxState { next_frame_id: (old(self).state.next_frame_id + 1) as u64, ..old(self).state }),
            final(self).new_next_frames@ == old(self).new_next_frames@.push(r),
            final(self).unchanged_except(*old(self), set![CxPart::State, CxPart::NextFrames]),
    {
        let res = NextFrame(self.state.next_frame_id);
        self.state.next_frame_id = self.state.next_frame_id + 1;
        self.new_next_frames.push(res);
        res
    }

    /// Sends `trigger` to `area`: adds it to that area's triggers, or starts
    /// them for an area that has none yet.
    pub fn send_trigger(&mut self, area: Area, trigger: Trigger)
        ensures
            final(self).unchanged_except(*old(self), set![CxPart::Triggers]),
            match trigger_slot(old(self).triggers@, area) {
                Some(i) => final(self).triggers@.len() == old(self).triggers@.len()
                    && (forall|j: int| 0 <= j < old(self).triggers@.len() && j != i ==> #[trigger] final(self).triggers@[j] == old(self).triggers@[j])
                    && final(self).triggers@[i].0 == area
                    && final(self).triggers@[i].1@ == old(self).triggers@[i].1@.push(trigger),
                None => final(self).triggers@.len() == old(self).triggers@.len() + 1
                    && final(self).triggers@.drop_last() == old(self).triggers@
                    && final(self).triggers@.last().0 == area
                    && final(self).triggers@.last().1@ == seq![trigger],
            },
    {
        let mut i: usize = 0;
        while i < self.triggers.len()
            invariant
                i <= self.triggers@.len(),
                self.triggers == old(self).triggers,
                self.unchanged_except(*old(self), set![]),
                forall|j: int| 0 <= j < i ==> (#[trigger] self.triggers@[j]).0 != area,
            decreases self.triggers.len() - i,
        {
            if self.triggers[i].0 == area {
                proof {
                    lemma_trigger_slot(old(self).triggers@, area, i as int);
                }
                let mut entry = self.triggers.remove(i);
                entry.1.push(trigger);
                self.triggers.insert(i, entry);
                return;
            }
            i = i + 1;
        }
        proof {
            lemma_no_trigger_slot(old(self).triggers@, area);
        }
        let mut new_set: Vec<Trigger> = Vec::new();
        new_set.push(trigger);
        self.triggers.push((area, new_set));
        assert(self.triggers@.drop_last() =~= old(self).triggers@);
    }
}

impl Cx {
    /// Shows the camera preview of video `video_id` as a native view over `area`.
    pub fn attach_camera_native_preview(&mut self, video_id: LiveId, area: Area)
        ensures
            final(self).pushed_op(*old(self), CxOsOp::AttachCameraNativePreview { video_id, area }),
    {
        self.platform_ops.push(CxOsOp::AttachCameraNativePreview { video_id, area });
    }

    /// Moves or hides the native camera preview of video `video_id`.
    pub fn update_camera_native_preview(&mut self, video_id: LiveId, area: Area, visible: bool)
        ensures
            final(self).pushed_op(*old(self), CxOsOp::UpdateCameraNativePreview { video_id, area, visible }),
    {
        self.platform_ops.push(CxOsOp::UpdateCameraNativePreview { video_id, area, visible });
    }

    /// Removes the native camera preview of video `video_id`.
    pub fn detach_camera_native_preview(&mut self, video_id: LiveId)
        ensures
            final(self).pushed_op(*old(self), CxOsOp::DetachCameraNativePreview { video_id }),
    {
        self.platform_ops.push(CxOsOp::DetachCameraNativePreview { video_id });
    }

    /// Starts playing video `video_id`.
    pub fn begin_video_playback(&mut self, video_id: LiveId)
        ensures
            final(self).pushed_op(*old(self), CxOsOp::BeginVideoPlayback(video_id)),
    {
        self.platform_ops.push(CxOsOp::BeginVideoPlayback(video_id));
    }

    /// Pauses video `video_id`.
    pub fn pause_video_playback(&mut self, video_id: LiveId)
        ensures
            final(self).pushed_op(*old(self), CxOsOp::PauseVideoPlayback(video_id)),
    {
        self.platform_ops.push(CxOsOp::PauseVideoPlayback(video_id));
    }

    /// Resumes video `video_id`.
    pub fn resume_video_playback(&mut self, video_id: LiveId)
        ensures
            final(self).pushed_op(*old(self), CxOsOp::ResumeVideoPlayback(video_id)),
    {
        self.platform_ops.push(CxOsOp::ResumeVideoPlayback(video_id));
    }

    /// Mutes video `video_id`.
    pub fn mute_video_playback(&mut self, video_id: LiveId)
        ensures
            final(self).pushed_op(*old(self), CxOsOp::MuteVideoPlayback(video_id)),
    {
        self.platform_ops.push(CxOsOp::MuteVideoPlayback(video_id));
    }

    /// Unmutes video `video_id`.
    pub fn unmute_video_playback(&mut self, video_id: LiveId)
        ensures
            final(self).pushed_op(*old(self), CxOsOp::UnmuteVideoPlayback(video_id)),
    {
        self.platform_ops.push(CxOsOp::UnmuteVideoPlayback(video_id));
    }

    /// Frees the platform resources of video `video_id`.
    pub fn cleanup_video_playback_resources(&mut self, video_id: LiveId)
        ensures
            final(self).pushed_op(*old(self), CxOsOp::CleanupVideoPlaybackResources(video_id)),
    {
        self.platform_ops.push(CxOsOp::CleanupVideoPlaybackResources(video_id));
    }

    /// Seeks video `video_id` to `position_ms` milliseconds.
    pub fn seek_video_playback(&mut self, video_id: LiveId, position_ms: u64)
        ensures
            final(self).pushed_op(*old(self), CxOsOp::SeekVideoPlayback(video_id, position_ms)),
    {
        self.platform_ops.push(CxOsOp::SeekVideoPlayback(video_id, position_ms));
    }

    /// Prepares audio-only playback of `source` as `video_id`.
    pub fn prepare_audio_playback(&mut self, video_id: LiveId, source: VideoSource, autoplay: bool, should_loop: bool)
        ensures
            final(self).pushed_op(*old(self), CxOsOp::PrepareAudioPlayback(video_id, source, autoplay, should_loop)),
    {
        self.platform_ops.push(CxOsOp::PrepareAudioPlayback(video_id, source, autoplay, should_loop));
    }

    /// Opens the system "save file" dialog.
    pub fn open_system_savefile_dialog(&mut self)
        ensures
            final(self).pushed_op(*old(self), CxOsOp::SaveFileDialog(FileDialog {})),
    {
        self.platform_ops.push(CxOsOp::SaveFileDialog(FileDialog::new()));
    }

    /// Opens the system "open file" dialog.
    pub fn open_system_openfile_dialog(&mut self)
        ensures
            final(self).pushed_op(*old(self), CxOsOp::SelectFileDialog(FileDialog {})),
    {
        self.platform_ops.push(CxOsOp::SelectFileDialog(FileDialog::new()));
    }

    /// Opens the system "save folder" dialog.
    pub fn open_system_savefolder_dialog(&mut self)
        ensures
            final(self).pushed_op(*old(self), CxOsOp::SaveFolderDialog(FileDialog {})),
    {
        self.platform_ops.push(CxOsOp::SaveFolderDialog(FileDialog::new()));
    }

    /// Opens the system "open folder" dialog.
    pub fn open_system_openfolder_dialog(&mut self)
        ensures
            final(self).pushed_op(*old(self), CxOsOp::SelectFolderDialog(FileDialog {})),
    {
        self.platform_ops.push(CxOsOp::SelectFolderDialog(FileDialog::new()));
    }

    /// Drops the camera playbacks of video `video_id` that wait for a permission.
    pub fn cancel_pending_camera_playback(&mut self, video_id: LiveId)
        ensures
            final(self).pending_camera_playbacks@ == pending_without_video(
                old(self).pending_camera_playbacks@,
                video_id,
            ),
            final(self).unchanged_except(*old(self), set![CxPart::PendingCamera]),
    {
        let ghost input = self.pending_camera_playbacks@;
        let mut rest: Vec<PendingCameraPlayback> = Vec::new();
        std::mem::swap(&mut rest, &mut self.pending_camera_playbacks);
        let total = rest.len();
        let mut k: usize = 0;
        while k < total
            invariant
                k <= total,
                total == input.len(),
                rest@ == input.subrange(k as int, total as int),
                self.pending_camera_playbacks@ == pending_without_video(input.subrange(0, k as int), video_id),
                self.unchanged_except(*old(self), set![CxPart::PendingCamera]),
            decreases total - k,
        {
            let p = rest.remove(0);
            proof {
                let pre = input.subrange(0, k as int + 1);
                assert(pre.drop_last() =~= input.subrange(0, k as int));
                assert(pre.last() == p);
            }
            if p.video_id != video_id {
                self.pending_camera_playbacks.push(p);
            }
            k = k + 1;
        }
        assert(input.subrange(0, total as int) =~= input);
    }

    /// Prepares playback of `source` into `texture_id`; a camera source first
    /// waits for the camera permission, which it requests.
    pub fn prepare_video_playback(
        &mut self,
        video_id: LiveId,
        source: VideoSource,
        camera_preview_mode: CameraPreviewMode,
        external_texture_id: u32,
        texture_id: TextureId,
        autoplay: bool,
        should_loop: bool,
    )
        requires
            old(self).state.permissions_request_id < i32::MAX,
        ensures
            final(self).prepared_playback(
                *old(self),
                PendingCameraPlayback {
                    permission: Permission::Camera,
                    video_id,
                    source,
                    camera_preview_mode,
                    external_texture_id,
                    texture_id,
                    autoplay,
                    should_loop,
                },
            ),
    {
        self.prepare_video_playback_with_permission(
            video_id,
            source,
            camera_preview_mode,
            external_texture_id,
            texture_id,
            autoplay,
            should_loop,
            Permission::Camera,
        );
    }

    /// Like [`Cx::prepare_video_playback`], for a headset camera, which needs the
    /// headset camera permission.
    pub fn prepare_headset_camera_playback(
        &mut self,
        video_id: LiveId,
        source: VideoSource,
        camera_preview_mode: CameraPreviewMode,
        external_texture_id: u32,
        texture_id: TextureId,
        autoplay: bool,
        should_loop: bool,
    )
        requires
            old(self).state.permissions_request_id < i32::MAX,
        ensures
            final(self).prepared_playback(
                *old(self),
                PendingCameraPlayback {
                    permission: Permission::HeadsetCamera,
                    video_id,
                    source,
                    camera_preview_mode,
                    external_texture_id,
                    texture_id,
                    autoplay,
                    should_loop,
                },
            ),
    {
        self.prepare_video_playback_with_permission(
            video_id,
            source,
            camera_preview_mode,
            external_texture_id,
            texture_id,
            autoplay,
            should_loop,
            Permission::HeadsetCamera,
        );
    }

    /// What preparing the playback `p` does: a camera source waits in the
    /// pending list and the permission is requested; any other source is
    /// prepared at once.
    pub open spec fn prepared_playback(self, old: Cx, p: PendingCameraPlayback) -> bool {
        if p.source is Camera {
            let id = old.state.permissions_request_id + 1;
            &&& self.pending_camera_playbacks@ == old.pending_camera_playbacks@.push(p)
            &&& self.state == (CxState { permissions_request_id: id as i32, ..old.state })
            &&& self.platform_ops@ == old.platform_ops@.push(
                CxOsOp::RequestPermission { permission: p.permission, request_id: id as i32 },
            )
            &&& self.unchanged_except(old, set![CxPart::PlatformOps, CxPart::State, CxPart::PendingCamera])
        } else {
            self.pushed_op(old, prepare_op_for(p))
        }
    }

    fn prepare_video_playback_with_permission(
        &mut self,
        video_id: LiveId,
        source: VideoSource,
        camera_preview_mode: CameraPreviewMode,
        external_texture_id: u32,
        texture_id: TextureId,
        autoplay: bool,
        should_loop: bool,
        permission: Permission,
    )
        requires
            old(self).state.permissions_request_id < i32::MAX,
        ensures
            final(self).prepared_playback(
                *old(self),
                PendingCameraPlayback {
                    permission,
                    video_id,
                    source,
                    camera_preview_mode,
                    external_texture_id,
                    texture_id,
                    autoplay,
                    should_loop,
                },
            ),
    {
        let is_camera = match &source {
            VideoSource::Camera(..) => true,
            _ => false,
        };
        if is_camera {
            self.pending_camera_playbacks.push(
                PendingCameraPlayback {
                    permission,
                    video_id,
                    source,
                    camera_preview_mode,
                    external_texture_id,
                    texture_id,
                    autoplay,
                    should_loop,
                },
            );
            let _request_id = self.request_permission(permission);
            return;
        }
        self.platform_ops.push(
            CxOsOp::PrepareVideoPlayback(
                video_id,
                source,
                camera_preview_mode,
                external_texture_id,
                texture_id,
                autoplay,
                should_loop,
            ),
        );
    }

    /// Settles the camera playbacks that wait for the permission `result`
    /// answers: when granted they are prepared, in order; otherwise each gets a
    /// decoding error, returned in order for the app's event handler. Playbacks
    /// waiting for another permission keep waiting. Results for other
    /// permissions change nothing.
    pub fn handle_camera_permission_result(&mut self, result: &PermissionResult) -> (errors: Vec<
        VideoDecodingErrorEvent,
    >)
        ensures
            !(result.permission is Camera || result.permission is HeadsetCamera) ==> *final(self) == *old(self)
                && errors@.len() == 0,
            (result.permission is Camera || result.permission is HeadsetCamera) ==> {
                let matched = pending_for(old(self).pending_camera_playbacks@, result.permission, true);
                &&& final(self).pending_camera_playbacks@ == pending_for(
                    old(self).pending_camera_playbacks@,
                    result.permission,
                    false,
                )
                &&& final(self).unchanged_except(*old(self), set![CxPart::PlatformOps, CxPart::PendingCamera])
                &&& if result.status is Granted {
                    &&& final(self).platform_ops@ == old(self).platform_ops@ + matched.map_values(
                        |p: PendingCameraPlayback| prepare_op_for(p),
                    )
                    &&& errors@.len() == 0
                } else {
                    &&& final(self).platform_ops@ == old(self).platform_ops@
                    &&& errors@.len() == matched.len()
                    &&& forall|i: int|
                        0 <= i < matched.len() ==> (#[trigger] errors@[i]).video_id == matched[i].video_id
                            && errors@[i].error@ == camera_denied_message(matched[i].permission)
                }
            },
    {
        let mut errors: Vec<VideoDecodingErrorEvent> = Vec::new();
        let relevant = match result.permission {
            Permission::Camera => true,
            Permission::HeadsetCamera => true,
            _ => false,
        };
        if !relevant {
            return errors;
        }
        let granted = match result.status {
            PermissionStatus::Granted => true,
            _ => false,
        };
        let ghost input = self.pending_camera_playbacks@;
        let ghost ops0 = self.platform_ops@;
        let mut rest: Vec<PendingCameraPlayback> = Vec::new();
        std::mem::swap(&mut rest, &mut self.pending_camera_playbacks);
        let total = rest.len();
        let mut k: usize = 0;
        while k < total
            invariant
                k <= total,
                total == input.len(),
                rest@ == input.subrange(k as int, total as int),
                granted == (result.status is Granted),
                self.pending_camera_playbacks@ == pending_for(input.subrange(0, k as int), result.permission, false),
                self.unchanged_except(*old(self), set![CxPart::PlatformOps, CxPart::PendingCamera]),
                granted ==> self.platform_ops@ == ops0 + pending_for(
                    input.subrange(0, k as int),
                    result.permission,
                    true,
                ).map_values(|p: PendingCameraPlayback| prepare_op_for(p)),
                granted ==> errors@.len() == 0,
                !granted ==> self.platform_ops@ == ops0,
                !granted ==> errors@.len() == pending_for(input.subrange(0, k as int), result.permission, true).len(),
                !granted ==> forall|i: int|
                    0 <= i < errors@.len() ==> (#[trigger] errors@[i]).video_id == pending_for(
                        input.subrange(0, k as int),
                        result.permission,
                        true,
                    )[i].video_id && errors@[i].error@ == camera_denied_message(
                        pending_for(input.subrange(0, k as int), result.permission, true)[i].permission,
                    ),
            decreases total - k,
        {
            let p = rest.remove(0);
            let ghost before_ops = self.platform_ops@;
            let ghost before_errors = errors@;
            proof {
                let pre = input.subrange(0, k as int + 1);
                assert(pre.drop_last() =~= input.subrange(0, k as int));
                assert(pre.last() == p);
            }
            if p.permission != result.permission {
                self.pending_camera_playbacks.push(p);
            } else if granted {
                let ghost gp = p;
                self.platform_ops.push(
                    CxOsOp::PrepareVideoPlayback(
                        p.video_id,
                        p.source,
                        p.camera_preview_mode,
                        p.external_texture_id,
                        p.texture_id,
                        p.autoplay,
                        p.should_loop,
                    ),
                );
                proof {
                    let m0 = pending_for(input.subrange(0, k as int), result.permission, true);
                    let m1 = pending_for(input.subrange(0, k as int + 1), result.permission, true);
                    assert(m1 == m0.push(gp));
                    assert(m1.map_values(|p: PendingCameraPlayback| prepare_op_for(p)) =~= m0.map_values(
                        |p: PendingCameraPlayback| prepare_op_for(p),
                    ).push(prepare_op_for(gp)));
                    assert(self.platform_ops@ =~= ops0 + m1.map_values(|p: PendingCameraPlayback| prepare_op_for(p)));
                }
            } else {
                let message = match p.permission {
                    Permission::HeadsetCamera => "Headset camera permission denied".to_owned(),
                    _ => "Camera permission denied".to_owned(),
                };
                errors.push(VideoDecodingErrorEvent { video_id: p.video_id, error: message });
                proof {
                    let m0 = pending_for(input.subrange(0, k as int), result.permission, true);
                    let m1 = pending_for(input.subrange(0, k as int + 1), result.permission, true);
                    assert(m1 == m0.push(p));
                    assert forall|i: int| 0 <= i < errors@.len() implies (#[trigger] errors@[i]).video_id == m1[i].video_id
                        && errors@[i].error@ == camera_denied_message(m1[i].permission) by {
                        if i < errors@.len() - 1 {
                            assert(errors@[i] == before_errors[i]);
                            assert(m1[i] == m0[i]);
                        }
                    }
                }
            }
            k = k + 1;
        }
        assert(input.subrange(0, total as int) =~= input);
        errors
    }
}

/// The index of the first SetCursor operation in `ops`, if any.
pub open spec fn first_set_cursor(ops: Seq<CxOsOp>) -> Option<int> {
    if exists|i: int| 0 <= i < ops.len() && (#[trigger] ops[i]) is SetCursor {
        Some(choose|i: int| 0 <= i < ops.len() && (#[trigger] ops[i]) is SetCursor && forall|j: int| 0 <= j < i ==> !(#[trigger] ops[j] is SetCursor))
    } else {
        None
    }
}

proof fn lemma_first_set_cursor(ops: Seq<CxOsOp>, i: int)
    requires
        0 <= i < ops.len(),
        ops[i] is SetCursor,
        forall|j: int| 0 <= j < i ==> !(#[trigger] ops[j] is SetCursor),
    ensures
        first_set_cursor(ops) == Some(i),
{
    let k = choose|k: int| 0 <= k < ops.len() && (#[trigger] ops[k]) is SetCursor && forall|j: int| 0 <= j < k ==> !(#[trigger] ops[j] is SetCursor);
    assert(0 <= k < ops.len() && ops[k] is SetCursor && forall|j: int| 0 <= j < k ==> !(#[trigger] ops[j] is SetCursor));
    if k < i {
        assert(!(ops[k] is SetCursor));
    }
    if k > i {
        assert(!(ops[i] is SetCursor));
    }
}

proof fn lemma_no_set_cursor(ops: Seq<CxOsOp>)
    requires
        forall|j: int| 0 <= j < ops.len() ==> !(#[trigger] ops[j] is SetCursor),
    ensures
        first_set_cursor(ops) is None,
{
}

/// The index of the first entry of `area` in the trigger table, if any.
pub open spec fn trigger_slot(t: Seq<(Area, Vec<Trigger>)>, area: Area) -> Option<int> {
    if exists|i: int| 0 <= i < t.len() && (#[trigger] t[i]).0 == area {
        Some(choose|i: int| 0 <= i < t.len() && (#[trigger] t[i]).0 == area && forall|j: int| 0 <= j < i ==> (#[trigger] t[j]).0 != area)
    } else {
        None
    }
}

proof fn lemma_trigger_slot(t: Seq<(Area, Vec<Trigger>)>, area: Area, i: int)
    requires
        0 <= i < t.len(),
        t[i].0 == area,
        forall|j: int| 0 <= j < i ==> (#[trigger] t[j]).0 != area,
    ensures
        trigger_slot(t, area) == Some(i),
{
    let k = choose|k: int| 0 <= k < t.len() && (#[trigger] t[k]).0 == area && forall|j: int| 0 <= j < k ==> (#[trigger] t[j]).0 != area;
    assert(0 <= k < t.len() && t[k].0 == area && forall|j: int| 0 <= j < k ==> (#[trigger] t[j]).0 != area);
    if k < i {
        assert(t[k].0 != area);
    }
    if k > i {
        assert(t[i].0 != area);
    }
}

proof fn lemma_no_trigger_slot(t: Seq<(Area, Vec<Trigger>)>, area: Area)
    requires
        forall|j: int| 0 <= j < t.len() ==> (#[trigger] t[j]).0 != area,
    ensures
        trigger_slot(t, area) is None,
{
}


/// A permission result settles exactly the playbacks that wait for that same
/// permission: the ones it settles are those of `s` waiting for `permission`,
/// and the ones that keep waiting are those waiting for any other permission,
/// each in their queued order.
pub proof fn law_permission_result_settles_only_its_playbacks(s: Seq<PendingCameraPlayback>, permission: Permission)
    ensures
        pending_for(s, permission, true) == s.filter(|p: PendingCameraPlayback| p.permission == permission),
        pending_for(s, permission, false) == s.filter(|p: PendingCameraPlayback| p.permission != permission),
    decreases s.len(),
{
    reveal(Seq::filter);
    if s.len() > 0 {
        law_permission_result_settles_only_its_playbacks(s.drop_last(), permission);
    }
}

/// Preparing a camera playback asks for exactly the permission that the
/// queued playback waits for: the request that comes last among the
/// platform operations names the permission of the playback queued last,
/// which is the one prepared.
pub proof fn law_camera_playback_requests_its_permission(cx: Cx, before: Cx, p: PendingCameraPlayback)
    requires
        cx.prepared_playback(before, p),
        p.source is Camera,
    ensures
        cx.pending_camera_playbacks@.last() == p,
        cx.platform_ops@.last() == (CxOsOp::RequestPermission {
            permission: cx.pending_camera_playbacks@.last().permission,
            request_id: cx.state.permissions_request_id,
        }),
{
}

} // verus!
