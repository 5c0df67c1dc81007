//! Keyboard shortcuts of the viewer: which actions the keys pressed in one frame trigger,
//! in the order they are carried out.

use vstd::prelude::*;

verus! {

/// The keys pressed in one frame, and the modifiers held.
#[derive(Debug, Clone, Copy, PartialEq, Eq, Structural, Default)]
pub struct PressedKeys {
    pub ctrl: bool,
    pub shift: bool,
    pub o: bool,
    pub left: bool,
    pub right: bool,
    pub up: bool,
    pub down: bool,
    pub page_up: bool,
    pub page_down: bool,
    pub home: bool,
    pub end: bool,
    pub space: bool,
    pub comma: bool,
    pub period: bool,
    pub i: bool,
    pub f11: bool,
    pub escape: bool,
    pub num0: bool,
    pub f: bool,
    pub num1: bool,
    pub r: bool,
    pub plus: bool,
    pub equals: bool,
    pub minus: bool,
}

/// What the shortcuts look at besides the keys.
#[derive(Debug, Clone, Copy, PartialEq, Eq, Structural)]
pub struct ShortcutScene {
    /// An image is shown.
    pub is_image: bool,
    /// A video is shown.
    pub is_video: bool,
    /// Number of media files in the current folder.
    pub folder_len: usize,
    pub info_open: bool,
    pub settings_open: bool,
    pub fullscreen: bool,
}

/// Actions triggered by shortcuts.
#[derive(Debug, Clone, Copy, PartialEq, Eq, Structural)]
pub enum ShortcutAction {
    OpenFileDialog,
    /// Open the previous file of the folder, wrapping around.
    NavigatePrev,
    /// Open the next file of the folder, wrapping around.
    NavigateNext,
    /// Open the file at this index of the folder.
    NavigateTo(usize),
    TogglePlayback,
    /// Step one video frame, forward when `true`.
    StepFrame(bool),
    ToggleInfo,
    ToggleFullscreen,
    CloseSettings,
    CloseInfo,
    FitImage,
    ActualSize,
    ResetView,
    ZoomIn,
    ZoomOut,
    ToggleSettings,
}

/// `a` when `cond` holds, else nothing.
pub open spec fn when(cond: bool, a: ShortcutAction) -> Seq<ShortcutAction> {
    if cond {
        seq![a]
    } else {
        Seq::empty()
    }
}

/// Actions of the navigation keys.
pub open spec fn navigation_actions(p: PressedKeys, s: ShortcutScene) -> Seq<ShortcutAction> {
    when(p.ctrl && p.o, ShortcutAction::OpenFileDialog)
        + when(p.left && !(s.is_video && p.shift), ShortcutAction::NavigatePrev)
        + when(p.right && !(s.is_video && p.shift), ShortcutAction::NavigateNext)
        + when(p.up, ShortcutAction::NavigatePrev)
        + when(p.down, ShortcutAction::NavigateNext)
}

/// Actions of the paging keys.
pub open spec fn paging_actions(p: PressedKeys, s: ShortcutScene) -> Seq<ShortcutAction> {
    when(p.page_up, ShortcutAction::NavigatePrev)
        + when(p.page_down, ShortcutAction::NavigateNext)
        + when(p.home && s.folder_len > 0, ShortcutAction::NavigateTo(0))
        + when(p.end && s.folder_len > 0, ShortcutAction::NavigateTo((s.folder_len - 1) as usize))
}

/// Actions of the playback keys, for a video.
pub open spec fn playback_actions(p: PressedKeys, s: ShortcutScene) -> Seq<ShortcutAction> {
    when(s.is_video && p.space, ShortcutAction::TogglePlayback)
        + when(s.is_video && p.comma, ShortcutAction::StepFrame(false))
        + when(s.is_video && p.period, ShortcutAction::StepFrame(true))
        + when(s.is_video && p.left && p.shift, ShortcutAction::StepFrame(false))
        + when(s.is_video && p.right && p.shift, ShortcutAction::StepFrame(true))
}

/// Navigation and playback actions.
pub open spec fn motion_actions(p: PressedKeys, s: ShortcutScene) -> Seq<ShortcutAction> {
    navigation_actions(p, s) + paging_actions(p, s) + playback_actions(p, s)
}

/// Panel and window actions; `Escape` sees the info panel and fullscreen state left by the
/// `I` and `F11` keys of the same frame.
pub open spec fn panel_actions(p: PressedKeys, s: ShortcutScene) -> Seq<ShortcutAction> {
    let info_now = s.info_open != p.i;
    let fullscreen_now = s.fullscreen != p.f11;
    when(p.i, ShortcutAction::ToggleInfo) + when(p.f11, ShortcutAction::ToggleFullscreen) + (
    if p.escape && fullscreen_now {
        seq![ShortcutAction::ToggleFullscreen]
    } else if p.escape && s.settings_open {
        seq![ShortcutAction::CloseSettings]
    } else if p.escape && info_now {
        seq![ShortcutAction::CloseInfo]
    } else {
        Seq::empty()
    })
}

/// Image view actions, and the settings toggle.
pub open spec fn view_actions(p: PressedKeys, s: ShortcutScene) -> Seq<ShortcutAction> {
    when(s.is_image && (p.num0 || p.f), ShortcutAction::FitImage)
        + when(s.is_image && p.num1, ShortcutAction::ActualSize)
        + when(s.is_image && p.r, ShortcutAction::ResetView)
        + when(s.is_image && (p.plus || p.equals), ShortcutAction::ZoomIn)
        + when(s.is_image && p.minus, ShortcutAction::ZoomOut)
        + when(p.ctrl && p.comma, ShortcutAction::ToggleSettings)
}

/// Every action triggered in one frame, in order.
pub open spec fn shortcut_plan(p: PressedKeys, s: ShortcutScene) -> Seq<ShortcutAction> {
    motion_actions(p, s) + panel_actions(p, s) + view_actions(p, s)
}

fn push_when(out: &mut Vec<ShortcutAction>, cond: bool, a: ShortcutAction)
    ensures
        final(out)@ == old(out)@ + when(cond, a),
{
    if cond {
        out.push(a);
    }
    assert(final(out)@ =~= old(out)@ + when(cond, a));
}

fn push_navigation(out: &mut Vec<ShortcutAction>, p: PressedKeys, s: ShortcutScene)
    ensures
        final(out)@ == old(out)@ + navigation_actions(p, s),
{
    let ghost start = out@;
    push_when(out, p.ctrl && p.o, ShortcutAction::OpenFileDialog);
    push_when(out, p.left && !(s.is_video && p.shift), ShortcutAction::NavigatePrev);
    push_when(out, p.right && !(s.is_video && p.shift), ShortcutAction::NavigateNext);
    push_when(out, p.up, ShortcutAction::NavigatePrev);
    push_when(out, p.down, ShortcutAction::NavigateNext);
    assert(out@ =~= start + navigation_actions(p, s));
}

fn push_paging(out: &mut Vec<ShortcutAction>, p: PressedKeys, s: ShortcutScene)
    ensures
        final(out)@ == old(out)@ + paging_actions(p, s),
{
    let ghost start = out@;
    push_when(out, p.page_up, ShortcutAction::NavigatePrev);
    push_when(out, p.page_down, ShortcutAction::NavigateNext);
    push_when(out, p.home && s.folder_len > 0, ShortcutAction::NavigateTo(0));
    let last: usize = if s.folder_len > 0 {
        s.folder_len - 1
    } else {
        0
    };
    push_when(out, p.end && s.folder_len > 0, ShortcutAction::NavigateTo(last));
    assert(when(p.end && s.folder_len > 0, ShortcutAction::NavigateTo(last)) == when(
        p.end && s.folder_len > 0,
        ShortcutAction::NavigateTo((s.folder_len - 1) as usize),
    ));
    assert(out@ =~= start + paging_actions(p, s));
}

fn push_playback(out: &mut Vec<ShortcutAction>, p: PressedKeys, s: ShortcutScene)
    ensures
        final(out)@ == old(out)@ + playback_actions(p, s),
{
    let ghost start = out@;
    push_when(out, s.is_video && p.space, ShortcutAction::TogglePlayback);
    push_when(out, s.is_video && p.comma, ShortcutAction::StepFrame(false));
    push_when(out, s.is_video && p.period, ShortcutAction::StepFrame(true));
    push_when(out, s.is_video && p.left && p.shift, ShortcutAction::StepFrame(false));
    push_when(out, s.is_video && p.right && p.shift, ShortcutAction::StepFrame(true));
    assert(out@ =~= start + playback_actions(p, s));
}

fn push_panels(out: &mut Vec<ShortcutAction>, p: PressedKeys, s: ShortcutScene)
    ensures
        final(out)@ == old(out)@ + panel_actions(p, s),
{
    let ghost start = out@;
    let info_now = s.info_open != p.i;
    let fullscreen_now = s.fullscreen != p.f11;
    push_when(out, p.i, ShortcutAction::ToggleInfo);
    push_when(out, p.f11, ShortcutAction::ToggleFullscreen);
    if p.escape && fullscreen_now {
        out.push(ShortcutAction::ToggleFullscreen);
    } else if p.escape && s.settings_open {
        out.push(ShortcutAction::CloseSettings);
    } else if p.escape && info_now {
        out.push(ShortcutAction::CloseInfo);
    }
    assert(out@ =~= start + panel_actions(p, s));
}

fn push_views(out: &mut Vec<ShortcutAction>, p: PressedKeys, s: ShortcutScene)
    ensures
        final(out)@ == old(out)@ + view_actions(p, s),
{
    let ghost start = out@;
    push_when(out, s.is_image && (p.num0 || p.f), ShortcutAction::FitImage);
    push_when(out, s.is_image && p.num1, ShortcutAction::ActualSize);
    push_when(out, s.is_image && p.r, ShortcutAction::ResetView);
    push_when(out, s.is_image && (p.plus || p.equals), ShortcutAction::ZoomIn);
    push_when(out, s.is_image && p.minus, ShortcutAction::ZoomOut);
    push_when(out, p.ctrl && p.comma, ShortcutAction::ToggleSettings);
    assert(out@ =~= start + view_actions(p, s));
}

/// The actions the keys of one frame trigger, in the order they are carried out.
pub fn shortcut_actions(pressed: PressedKeys, scene: ShortcutScene) -> (r: Vec<ShortcutAction>)
    ensures
        r@ == shortcut_plan(pressed, scene),
{
    let mut out: Vec<ShortcutAction> = Vec::new();
    push_navigation(&mut out, pressed, scene);
    push_paging(&mut out, pressed, scene);
    push_playback(&mut out, pressed, scene);
    push_panels(&mut out, pressed, scene);
    push_views(&mut out, pressed, scene);
    assert(out@ =~= shortcut_plan(pressed, scene));
    out
}

} // verus!
