use vstd::prelude::*;
use crate::action::Action;
use crate::ids::{Area, DrawListId, DrawPassId, LiveId, TextureId, WindowId};
use crate::native_host::NativeMountQueue;
use crate::os_op::{CameraPreviewMode, CxOsOp, Permission, VideoSource};

verus! {

/// A timer started with `start_timeout` or `start_interval`; id 0 is no timer.
#[derive(Clone, Copy, Debug, PartialEq, Eq, Hash, Structural)]
pub struct Timer(pub u64);

/// A request to be woken at the next frame.
#[derive(Clone, Copy, Debug, PartialEq, Eq, Hash, Structural)]
pub struct NextFrame(pub u64);

/// A trigger sent to an area: an id and the area that sent it.
#[derive(Clone, Copy, Debug, PartialEq, Eq, Hash, Structural)]
pub struct Trigger {
    pub id: LiveId,
    pub from: Area,
}

/// The pixel formats a texture can have that this crate tells apart.
#[derive(Clone, Copy, Debug, PartialEq, Eq, Structural)]
pub enum TextureFormat {
    Unknown,
    VideoExternal,
}

impl TextureFormat {
    /// Whether the texture is filled by an external video or camera producer.
    pub fn is_video_external(&self) -> (r: bool)
        ensures
            r == (*self is VideoExternal),
    {
        match self {
            TextureFormat::VideoExternal => true,
            _ => false,
        }
    }
}

/// A slot of the texture pool.
#[derive(Clone, Copy, Debug, PartialEq, Eq, Structural)]
pub struct CxTexture {
    pub format: TextureFormat,
}

/// What a draw pass renders into: a window, another pass, or nothing yet.
#[derive(Clone, Copy, Debug, PartialEq, Eq, Structural)]
pub enum CxDrawPassParent {
    Window(WindowId),
    DrawPass(DrawPassId),
    Unattached,
}

/// A draw pass.
#[derive(Clone, Debug)]
pub struct CxDrawPass {
    pub parent: CxDrawPassParent,
    pub main_draw_list_id: Option<DrawListId>,
    pub paint_dirty: bool,
    pub debug_name: String,
}

/// What the next draw event will redraw.
#[derive(Clone, Debug)]
pub struct CxDrawEvent {
    pub redraw_all: bool,
    pub draw_lists: Vec<DrawListId>,
    pub draw_lists_and_children: Vec<DrawListId>,
}

/// A video playback that waits for the camera permission.
#[derive(Clone, Debug)]
pub struct PendingCameraPlayback {
    pub permission: Permission,
    pub video_id: LiveId,
    pub source: VideoSource,
    pub camera_preview_mode: CameraPreviewMode,
    pub external_texture_id: u32,
    pub texture_id: TextureId,
    pub autoplay: bool,
    pub should_loop: bool,
}

/// The plain flags and counters of the context.
#[derive(Clone, Copy, Debug, PartialEq, Eq, Structural)]
pub struct CxState {
    pub in_draw_event: bool,
    pub pending_script_reapply: bool,
    pub pending_live_edit_request: bool,
    pub in_makepad_studio: bool,
    pub text_ime_dismissed: bool,
    pub ime_area: Area,
    pub redraw_id: u64,
    pub event_id: u64,
    pub cpu_cores: usize,
    pub timer_id: u64,
    pub permissions_request_id: i32,
    pub next_frame_id: u64,
}

/// The application context: the platform operations and actions raised while
/// handling an event, the queued native view mutations, and the state that the
/// platform API reads and updates.
pub struct Cx {
    pub platform_ops: Vec<CxOsOp>,
    pub new_actions: Vec<Action>,
    pub state: CxState,
    pub native_mount_queue: NativeMountQueue,
    pub new_next_frames: Vec<NextFrame>,
    pub new_draw_event: CxDrawEvent,
    pub passes: Vec<CxDrawPass>,
    pub textures: Vec<CxTexture>,
    pub triggers: Vec<(Area, Vec<Trigger>)>,
    pub pending_camera_playbacks: Vec<PendingCameraPlayback>,
}

/// The parts of a [`Cx`], for saying which ones an operation changes.
#[derive(Clone, Copy, Debug, PartialEq, Eq, Structural)]
pub enum CxPart {
    PlatformOps,
    NewActions,
    State,
    MountQueue,
    NextFrames,
    DrawEvent,
    Passes,
    Textures,
    Triggers,
    PendingCamera,
}

impl Cx {
    /// Whether every part of `self` outside `changed` is as in `other`.
    pub open spec fn unchanged_except(self, other: Cx, changed: Set<CxPart>) -> bool {
        &&& (!changed.contains(CxPart::PlatformOps) ==> self.platform_ops == other.platform_ops)
        &&& (!changed.contains(CxPart::NewActions) ==> self.new_actions == other.new_actions)
        &&& (!changed.contains(CxPart::State) ==> self.state == other.state)
        &&& (!changed.contains(CxPart::MountQueue) ==> self.native_mount_queue == other.native_mount_queue)
        &&& (!changed.contains(CxPart::NextFrames) ==> self.new_next_frames == other.new_next_frames)
        &&& (!changed.contains(CxPart::DrawEvent) ==> self.new_draw_event == other.new_draw_event)
        &&& (!changed.contains(CxPart::Passes) ==> self.passes == other.passes)
        &&& (!changed.contains(CxPart::Textures) ==> self.textures == other.textures)
        &&& (!changed.contains(CxPart::Triggers) ==> self.triggers == other.triggers)
        &&& (!changed.contains(CxPart::PendingCamera) ==> self.pending_camera_playbacks
            == other.pending_camera_playbacks)
    }

    /// Whether `self` differs from `other` in the platform operations and the
    /// queued actions at most.
    pub open spec fn rest_unchanged(self, other: Cx) -> bool {
        self.unchanged_except(other, set![CxPart::PlatformOps, CxPart::NewActions])
    }

    /// Whether `self` is `other` with `op` pushed onto the platform operations
    /// and nothing else changed.
    pub open spec fn pushed_op(self, other: Cx, op: CxOsOp) -> bool {
        &&& self.platform_ops@ == other.platform_ops@.push(op)
        &&& self.unchanged_except(other, set![CxPart::PlatformOps])
    }

    /// Whether `self` is `other` with one operation pushed onto the platform
    /// operations and nothing else changed; the operation is `self.last_op()`.
    pub open spec fn pushed_one_op(self, other: Cx) -> bool {
        &&& self.platform_ops@.len() == other.platform_ops@.len() + 1
        &&& self.platform_ops@.drop_last() == other.platform_ops@
        &&& self.unchanged_except(other, set![CxPart::PlatformOps])
    }

    /// The most recently pushed platform operation.
    pub open spec fn last_op(self) -> CxOsOp {
        self.platform_ops@.last()
    }

    /// A fresh context: nothing queued, no passes, no textures.
    pub fn new() -> (r: Cx)
        ensures
            r.platform_ops@.len() == 0,
            r.new_actions@.len() == 0,
            r.native_mount_queue.mutations@.len() == 0,
            !r.native_mount_queue.in_flush,
            r.new_next_frames@.len() == 0,
            !r.new_draw_event.redraw_all,
            r.new_draw_event.draw_lists@.len() == 0,
            r.new_draw_event.draw_lists_and_children@.len() == 0,
            r.passes@.len() == 0,
            r.textures@.len() == 0,
            r.triggers@.len() == 0,
            r.pending_camera_playbacks@.len() == 0,
            r.state == (CxState {
                in_draw_event: false,
                pending_script_reapply: false,
                pending_live_edit_request: false,
                in_makepad_studio: false,
                text_ime_dismissed: false,
                ime_area: Area::Empty,
                redraw_id: 0,
                event_id: 0,
                cpu_cores: 1,
                timer_id: 0,
                permissions_request_id: 0,
                next_frame_id: 1,
            }),
    {
        Cx {
            platform_ops: Vec::new(),
            new_actions: Vec::new(),
            state: CxState {
                in_draw_event: false,
                pending_script_reapply: false,
                pending_live_edit_request: false,
                in_makepad_studio: false,
                text_ime_dismissed: false,
                ime_area: Area::Empty,
                redraw_id: 0,
                event_id: 0,
                cpu_cores: 1,
                timer_id: 0,
                permissions_request_id: 0,
                next_frame_id: 1,
            },
            native_mount_queue: NativeMountQueue::new(),
            new_next_frames: Vec::new(),
            new_draw_event: CxDrawEvent {
                redraw_all: false,
                draw_lists: Vec::new(),
                draw_lists_and_children: Vec::new(),
            },
            passes: Vec::new(),
            textures: Vec::new(),
            triggers: Vec::new(),
            pending_camera_playbacks: Vec::new(),
        }
    }
}

} // verus!
