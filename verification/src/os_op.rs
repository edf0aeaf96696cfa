use vstd::prelude::*;
use crate::ids::{Area, LiveId, TextureId, WindowId};
use crate::native_host::{NativeHostCommand, NativeHostKind, NativeHostPropUpdate, NativeHostProps};

verus! {

/// The shape of the mouse pointer.
#[derive(Clone, Copy, Debug, PartialEq, Eq, Hash, Structural)]
pub enum MouseCursor {
    Hidden,
    Default,
    Crosshair,
    Hand,
    Arrow,
    Move,
    Text,
    Wait,
    Help,
    NotAllowed,
    NResize,
    NeResize,
    EResize,
    SeResize,
    SResize,
    SwResize,
    WResize,
    NwResize,
    NsResize,
    NeswResize,
    EwResize,
    NwseResize,
    ColResize,
    RowResize,
}

/// A runtime permission the app can check or request.
#[derive(Clone, Copy, Debug, PartialEq, Eq, Hash, Structural)]
pub enum Permission {
    Camera,
    HeadsetCamera,
    AudioInput,
}

/// The platform's answer to a permission check or request.
#[derive(Clone, Copy, Debug, PartialEq, Eq, Hash, Structural)]
pub enum PermissionStatus {
    Granted,
    Denied,
    NotDetermined,
}

/// A permission answer, tied to the request that asked for it.
#[derive(Clone, Copy, Debug, PartialEq, Eq, Structural)]
pub struct PermissionResult {
    pub permission: Permission,
    pub request_id: i32,
    pub status: PermissionStatus,
}

/// Where a video or audio stream comes from.
#[derive(Clone, Debug, PartialEq, Eq)]
pub enum VideoSource {
    Camera(u64),
    Network(String),
    Filesystem(String),
    InMemory(Vec<u8>),
}

/// How a camera preview is shown: through a texture, or as a native view.
#[derive(Clone, Copy, Debug, PartialEq, Eq, Structural)]
pub enum CameraPreviewMode {
    Texture,
    Native,
}

/// A system file or folder dialog.
#[derive(Clone, Copy, Debug, PartialEq, Eq, Structural)]
pub struct FileDialog {}

impl FileDialog {
    /// A dialog with the platform's defaults.
    pub fn new() -> (r: FileDialog)
        ensures
            r == (FileDialog {}),
    {
        FileDialog {}
    }
}

/// An offset in characters into a text.
#[derive(Clone, Copy, Debug, PartialEq, Eq, Hash, Structural)]
pub struct CharOffset(pub usize);

/// A range of character offsets, `start` inclusive and `end` exclusive.
#[derive(Clone, Copy, Debug, PartialEq, Eq, Hash, Structural)]
pub struct CharRange {
    pub start: CharOffset,
    pub end: CharOffset,
}

/// One operation that the platform layer carries out after the current event.
#[derive(Clone, Debug)]
pub enum CxOsOp {
    CreateWindow(WindowId),
    CloseWindow(WindowId),
    MinimizeWindow(WindowId),
    Deminiaturize(WindowId),
    MaximizeWindow(WindowId),
    FullscreenWindow(WindowId),
    NormalizeWindow(WindowId),
    RestoreWindow(WindowId),
    HideWindow(WindowId),
    HideWindowButtons(WindowId),
    ShowWindowButtons(WindowId),
    SetTopmost(WindowId, bool),
    ShowInDock(bool),
    HideTextIME,
    SyncImeState {
        text: String,
        selection: CharRange,
        composition: Option<CharRange>,
    },
    SetCursor(MouseCursor),
    StopTimer(u64),
    Quit,
    HideClipboardActions,
    CopyToClipboard(String),
    SetPrimarySelection(String),
    HideSelectionHandles,
    CheckPermission { permission: Permission, request_id: i32 },
    RequestPermission { permission: Permission, request_id: i32 },
    CancelHttpRequest { request_id: LiveId },
    PrepareVideoPlayback(LiveId, VideoSource, CameraPreviewMode, u32, TextureId, bool, bool),
    AttachCameraNativePreview { video_id: LiveId, area: Area },
    UpdateCameraNativePreview { video_id: LiveId, area: Area, visible: bool },
    DetachCameraNativePreview { video_id: LiveId },
    SpawnSystemBrowser { browser_id: LiveId, url: String },
    UpdateSystemBrowser { browser_id: LiveId, area: Area, visible: bool },
    DetachSystemBrowser { browser_id: LiveId },
    SetSystemBrowserUrl { browser_id: LiveId, url: String, replace: bool },
    SystemBrowserHistoryGo { browser_id: LiveId, delta: i32 },
    CloseSystemBrowser { browser_id: LiveId },
    CreateNativeView { id: LiveId, kind: NativeHostKind, props: NativeHostProps },
    UpdateNativeViewLayout { id: LiveId, area: Area, visible: bool },
    UpdateNativeViewProps { id: LiveId, update: NativeHostPropUpdate },
    CommandNativeView { id: LiveId, command: NativeHostCommand },
    DetachNativeView { id: LiveId },
    CloseNativeView { id: LiveId },
    PrepareAudioPlayback(LiveId, VideoSource, bool, bool),
    BeginVideoPlayback(LiveId),
    PauseVideoPlayback(LiveId),
    ResumeVideoPlayback(LiveId),
    MuteVideoPlayback(LiveId),
    UnmuteVideoPlayback(LiveId),
    CleanupVideoPlaybackResources(LiveId),
    SeekVideoPlayback(LiveId, u64),
    UpdateVideoSurfaceTexture(LiveId),
    CloseWebView { id: LiveId },
    SaveFileDialog(FileDialog),
    SelectFileDialog(FileDialog),
    SaveFolderDialog(FileDialog),
    SelectFolderDialog(FileDialog),
    XrStartPresenting,
    XrDiscoverAnchor(u8),
    XrStopPresenting,
}


/// The name of an operation's variant, which is how operations are shown in logs.
pub open spec fn op_name(op: CxOsOp) -> Seq<char> {
    match op {
        CxOsOp::CreateWindow(..) => "CreateWindow"@,
        CxOsOp::CloseWindow(..) => "CloseWindow"@,
        CxOsOp::MinimizeWindow(..) => "MinimizeWindow"@,
        CxOsOp::Deminiaturize(..) => "Deminiaturize"@,
        CxOsOp::MaximizeWindow(..) => "MaximizeWindow"@,
        CxOsOp::FullscreenWindow(..) => "FullscreenWindow"@,
        CxOsOp::NormalizeWindow(..) => "NormalizeWindow"@,
        CxOsOp::RestoreWindow(..) => "RestoreWindow"@,
        CxOsOp::HideWindow(..) => "HideWindow"@,
        CxOsOp::HideWindowButtons(..) => "HideWindowButtons"@,
        CxOsOp::ShowWindowButtons(..) => "ShowWindowButtons"@,
        CxOsOp::SetTopmost(..) => "SetTopmost"@,
        CxOsOp::ShowInDock(..) => "ShowInDock"@,
        CxOsOp::HideTextIME => "HideTextIME"@,
        CxOsOp::SyncImeState { .. } => "SyncImeState"@,
        CxOsOp::SetCursor(..) => "SetCursor"@,
        CxOsOp::StopTimer(..) => "StopTimer"@,
        CxOsOp::Quit => "Quit"@,
        CxOsOp::HideClipboardActions => "HideClipboardActions"@,
        CxOsOp::CopyToClipboard(..) => "CopyToClipboard"@,
        CxOsOp::SetPrimarySelection(..) => "SetPrimarySelection"@,
        CxOsOp::HideSelectionHandles => "HideSelectionHandles"@,
        CxOsOp::CheckPermission { .. } => "CheckPermission"@,
        CxOsOp::RequestPermission { .. } => "RequestPermission"@,
        CxOsOp::CancelHttpRequest { .. } => "CancelHttpRequest"@,
        CxOsOp::PrepareVideoPlayback(..) => "PrepareVideoPlayback"@,
        CxOsOp::AttachCameraNativePreview { .. } => "AttachCameraNativePreview"@,
        CxOsOp::UpdateCameraNativePreview { .. } => "UpdateCameraNativePreview"@,
        CxOsOp::DetachCameraNativePreview { .. } => "DetachCameraNativePreview"@,
        CxOsOp::SpawnSystemBrowser { .. } => "SpawnSystemBrowser"@,
        CxOsOp::UpdateSystemBrowser { .. } => "UpdateSystemBrowser"@,
        CxOsOp::DetachSystemBrowser { .. } => "DetachSystemBrowser"@,
        CxOsOp::SetSystemBrowserUrl { .. } => "SetSystemBrowserUrl"@,
        CxOsOp::SystemBrowserHistoryGo { .. } => "SystemBrowserHistoryGo"@,
        CxOsOp::CloseSystemBrowser { .. } => "CloseSystemBrowser"@,
        CxOsOp::CreateNativeView { .. } => "CreateNativeView"@,
        CxOsOp::UpdateNativeViewLayout { .. } => "UpdateNativeViewLayout"@,
        CxOsOp::UpdateNativeViewProps { .. } => "UpdateNativeViewProps"@,
        CxOsOp::CommandNativeView { .. } => "CommandNativeView"@,
        CxOsOp::DetachNativeView { .. } => "DetachNativeView"@,
        CxOsOp::CloseNativeView { .. } => "CloseNativeView"@,
        CxOsOp::PrepareAudioPlayback(..) => "PrepareAudioPlayback"@,
        CxOsOp::BeginVideoPlayback(..) => "BeginVideoPlayback"@,
        CxOsOp::PauseVideoPlayback(..) => "PauseVideoPlayback"@,
        CxOsOp::ResumeVideoPlayback(..) => "ResumeVideoPlayback"@,
        CxOsOp::MuteVideoPlayback(..) => "MuteVideoPlayback"@,
        CxOsOp::UnmuteVideoPlayback(..) => "UnmuteVideoPlayback"@,
        CxOsOp::CleanupVideoPlaybackResources(..) => "CleanupVideoPlaybackResources"@,
        CxOsOp::SeekVideoPlayback(..) => "SeekVideoPlayback"@,
        CxOsOp::UpdateVideoSurfaceTexture(..) => "UpdateVideoSurfaceTexture"@,
        CxOsOp::CloseWebView { .. } => "CloseWebView"@,
        CxOsOp::SaveFileDialog(..) => "SaveFileDialog"@,
        CxOsOp::SelectFileDialog(..) => "SelectFileDialog"@,
        CxOsOp::SaveFolderDialog(..) => "SaveFolderDialog"@,
        CxOsOp::SelectFolderDialog(..) => "SelectFolderDialog"@,
        CxOsOp::XrStartPresenting => "XrStartPresenting"@,
        CxOsOp::XrDiscoverAnchor(..) => "XrDiscoverAnchor"@,
        CxOsOp::XrStopPresenting => "XrStopPresenting"@,
    }
}

impl CxOsOp {
    /// The name of this operation's variant (what its log form shows).
    pub fn name(&self) -> (r: &'static str)
        ensures
            r@ == op_name(*self),
    {
        match self {
            CxOsOp::CreateWindow(..) => "CreateWindow",
            CxOsOp::CloseWindow(..) => "CloseWindow",
            CxOsOp::MinimizeWindow(..) => "MinimizeWindow",
            CxOsOp::Deminiaturize(..) => "Deminiaturize",
            CxOsOp::MaximizeWindow(..) => "MaximizeWindow",
            CxOsOp::FullscreenWindow(..) => "FullscreenWindow",
            CxOsOp::NormalizeWindow(..) => "NormalizeWindow",
            CxOsOp::RestoreWindow(..) => "RestoreWindow",
            CxOsOp::HideWindow(..) => "HideWindow",
            CxOsOp::HideWindowButtons(..) => "HideWindowButtons",
            CxOsOp::ShowWindowButtons(..) => "ShowWindowButtons",
            CxOsOp::SetTopmost(..) => "SetTopmost",
            CxOsOp::ShowInDock(..) => "ShowInDock",
            CxOsOp::HideTextIME => "HideTextIME",
            CxOsOp::SyncImeState { .. } => "SyncImeState",
            CxOsOp::SetCursor(..) => "SetCursor",
            CxOsOp::StopTimer(..) => "StopTimer",
            CxOsOp::Quit => "Quit",
            CxOsOp::HideClipboardActions => "HideClipboardActions",
            CxOsOp::CopyToClipboard(..) => "CopyToClipboard",
            CxOsOp::SetPrimarySelection(..) => "SetPrimarySelection",
            CxOsOp::HideSelectionHandles => "HideSelectionHandles",
            CxOsOp::CheckPermission { .. } => "CheckPermission",
            CxOsOp::RequestPermission { .. } => "RequestPermission",
            CxOsOp::CancelHttpRequest { .. } => "CancelHttpRequest",
            CxOsOp::PrepareVideoPlayback(..) => "PrepareVideoPlayback",
            CxOsOp::AttachCameraNativePreview { .. } => "AttachCameraNativePreview",
            CxOsOp::UpdateCameraNativePreview { .. } => "UpdateCameraNativePreview",
            CxOsOp::DetachCameraNativePreview { .. } => "DetachCameraNativePreview",
            CxOsOp::SpawnSystemBrowser { .. } => "SpawnSystemBrowser",
            CxOsOp::UpdateSystemBrowser { .. } => "UpdateSystemBrowser",
            CxOsOp::DetachSystemBrowser { .. } => "DetachSystemBrowser",
            CxOsOp::SetSystemBrowserUrl { .. } => "SetSystemBrowserUrl",
            CxOsOp::SystemBrowserHistoryGo { .. } => "SystemBrowserHistoryGo",
            CxOsOp::CloseSystemBrowser { .. } => "CloseSystemBrowser",
            CxOsOp::CreateNativeView { .. } => "CreateNativeView",
            CxOsOp::UpdateNativeViewLayout { .. } => "UpdateNativeViewLayout",
            CxOsOp::UpdateNativeViewProps { .. } => "UpdateNativeViewProps",
            CxOsOp::CommandNativeView { .. } => "CommandNativeView",
            CxOsOp::DetachNativeView { .. } => "DetachNativeView",
            CxOsOp::CloseNativeView { .. } => "CloseNativeView",
            CxOsOp::PrepareAudioPlayback(..) => "PrepareAudioPlayback",
            CxOsOp::BeginVideoPlayback(..) => "BeginVideoPlayback",
            CxOsOp::PauseVideoPlayback(..) => "PauseVideoPlayback",
            CxOsOp::ResumeVideoPlayback(..) => "ResumeVideoPlayback",
            CxOsOp::MuteVideoPlayback(..) => "MuteVideoPlayback",
            CxOsOp::UnmuteVideoPlayback(..) => "UnmuteVideoPlayback",
            CxOsOp::CleanupVideoPlaybackResources(..) => "CleanupVideoPlaybackResources",
            CxOsOp::SeekVideoPlayback(..) => "SeekVideoPlayback",
            CxOsOp::UpdateVideoSurfaceTexture(..) => "UpdateVideoSurfaceTexture",
            CxOsOp::CloseWebView { .. } => "CloseWebView",
            CxOsOp::SaveFileDialog(..) => "SaveFileDialog",
            CxOsOp::SelectFileDialog(..) => "SelectFileDialog",
            CxOsOp::SaveFolderDialog(..) => "SaveFolderDialog",
            CxOsOp::SelectFolderDialog(..) => "SelectFolderDialog",
            CxOsOp::XrStartPresenting => "XrStartPresenting",
            CxOsOp::XrDiscoverAnchor(..) => "XrDiscoverAnchor",
            CxOsOp::XrStopPresenting => "XrStopPresenting",
        }
    }
}

} // verus!
