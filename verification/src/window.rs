//! Window management decisions: the render viewport (aspect ratio,
//! windowboxing, stretching), the window procedure's handling of each
//! message, the keyboard hotkeys, and the rectangles the cursor is confined
//! to.

use vstd::prelude::*;
use crate::geometry::{Point, Rect};
use crate::config::Renderer;

verus! {

pub const WM_MOVE: u32 = 3;
pub const WM_SIZE: u32 = 5;
pub const WM_ACTIVATE: u32 = 6;
pub const WM_PAINT: u32 = 15;
pub const WM_CLOSE: u32 = 16;
pub const WM_ERASEBKGND: u32 = 20;
pub const WM_ACTIVATEAPP: u32 = 28;
pub const WM_KEYDOWN: u32 = 256;
pub const WM_SYSCOMMAND: u32 = 274;
pub const WM_TIMER: u32 = 275;
pub const WM_LBUTTONDOWN: u32 = 513;
pub const WM_RBUTTONDOWN: u32 = 516;
pub const WM_MBUTTONDOWN: u32 = 519;
pub const WM_PARENTNOTIFY: u32 = 528;
pub const WM_MOUSELEAVE: u32 = 675;
pub const SC_CLOSE: usize = 0xF060;

pub const VK_TAB: i32 = 0x09;
pub const VK_PRIOR: i32 = 0x21;
pub const VK_NEXT: i32 = 0x22;
pub const VK_END: i32 = 0x23;
pub const VK_R: i32 = 0x52;

/// Cooperative-level flag: exclusive full-screen mode.
pub const DDSCL_FULLSCREEN: u32 = 0x1;

/// Largest game width or height the viewport arithmetic handles: twenty
/// times it must fit in an `i32`.
pub const MAX_GAME_DIM: i32 = 107_374_182;

/// The configuration that shapes the render viewport.
#[derive(Clone, Copy, Debug, PartialEq, Eq, Structural)]
pub struct ViewportConfig {
    pub maintain_aspect_ratio: bool,
    pub windowboxing: bool,
    pub stretch_to_fullscreen: bool,
    pub stretch_to_width: i32,
    pub stretch_to_height: i32,
    pub screen_width: i32,
    pub screen_height: i32,
}

/// The size of the area rendered into and the viewport the game's frame
/// is drawn to within it.
#[derive(Clone, Copy, Debug, PartialEq, Eq, Structural)]
pub struct RenderLayout {
    pub width: i32,
    pub height: i32,
    pub viewport: Rect,
    pub stretched: bool,
}

/// The game size used for layout: at least one pixel each way.
pub open spec fn game_dim(v: i32) -> int {
    if v > 1 { v as int } else { 1 }
}

/// The render area: the configured stretch size (the screen when
/// stretching to full screen), never smaller than the game.
pub open spec fn spec_render_size(cfg: ViewportConfig, game_w: i32, game_h: i32) -> (int, int) {
    let w0 = if cfg.stretch_to_fullscreen { cfg.screen_width as int } else { cfg.stretch_to_width as int };
    let h0 = if cfg.stretch_to_fullscreen { cfg.screen_height as int } else { cfg.stretch_to_height as int };
    (
        if w0 < game_dim(game_w) { game_dim(game_w) } else { w0 },
        if h0 < game_dim(game_h) { game_dim(game_h) } else { h0 },
    )
}

/// The render area: the configured stretch size (the screen when
/// stretching to full screen), never smaller than the game.
pub fn render_size(cfg: &ViewportConfig, game_w: i32, game_h: i32) -> (r: (i32, i32))
    ensures
        r.0 == spec_render_size(*cfg, game_w, game_h).0,
        r.1 == spec_render_size(*cfg, game_w, game_h).1,
        r.0 >= game_dim(game_w),
        r.1 >= game_dim(game_h),
{
    let gw = if game_w > 1 { game_w } else { 1 };
    let gh = if game_h > 1 { game_h } else { 1 };
    let mut render_w = cfg.stretch_to_width;
    let mut render_h = cfg.stretch_to_height;
    if cfg.stretch_to_fullscreen {
        render_w = cfg.screen_width;
        render_h = cfg.screen_height;
    }
    if render_w < gw {
        render_w = gw;
    }
    if render_h < gh {
        render_h = gh;
    }
    (render_w, render_h)
}

/// Whether the game scaled by `i` fits the render area.
pub open spec fn scale_fits(gw: int, gh: int, rw: int, rh: int, i: int) -> bool {
    gw * i <= rw && gh * i <= rh
}

/// The windowboxing scale: the largest factor from 20 down to 2 at which
/// the game fits the render area, 1 when none does.
pub open spec fn spec_windowbox_scale(gw: int, gh: int, rw: int, rh: int) -> int
    decreases 0int,
{
    spec_windowbox_scale_from(gw, gh, rw, rh, 20)
}

/// The first factor from `i` down to 2 at which the game fits, else 1.
pub open spec fn spec_windowbox_scale_from(gw: int, gh: int, rw: int, rh: int, i: int) -> int
    decreases i,
{
    if i < 2 {
        1
    } else if scale_fits(gw, gh, rw, rh, i) {
        i
    } else {
        spec_windowbox_scale_from(gw, gh, rw, rh, i - 1)
    }
}

proof fn lemma_windowbox_scale_from(gw: int, gh: int, rw: int, rh: int, i: int)
    requires
        1 <= gw,
        1 <= gh,
        gw <= rw,
        gh <= rh,
    ensures
        1 <= spec_windowbox_scale_from(gw, gh, rw, rh, i),
        i >= 1 ==> spec_windowbox_scale_from(gw, gh, rw, rh, i) <= i,
        scale_fits(gw, gh, rw, rh, spec_windowbox_scale_from(gw, gh, rw, rh, i)),
        forall|j: int| spec_windowbox_scale_from(gw, gh, rw, rh, i) < j <= i ==> !#[trigger] scale_fits(gw, gh, rw, rh, j),
    decreases i,
{
    if i >= 2 && !scale_fits(gw, gh, rw, rh, i) {
        lemma_windowbox_scale_from(gw, gh, rw, rh, i - 1);
    }
}

/// The windowboxing scale: the largest factor from 20 down to 2 at which
/// the game fits the render area, 1 when none does.
pub fn windowbox_scale(gw: i32, gh: i32, rw: i32, rh: i32) -> (r: i32)
    requires
        1 <= gw <= MAX_GAME_DIM,
        1 <= gh <= MAX_GAME_DIM,
        gw <= rw,
        gh <= rh,
    ensures
        r == spec_windowbox_scale(gw as int, gh as int, rw as int, rh as int),
        1 <= r <= 20,
        scale_fits(gw as int, gh as int, rw as int, rh as int, r as int),
        forall|j: int| r < j <= 20 ==> !#[trigger] scale_fits(gw as int, gh as int, rw as int, rh as int, j),
{
    proof { lemma_windowbox_scale_from(gw as int, gh as int, rw as int, rh as int, 20); }
    let mut i: i32 = 20;
    while i >= 2
        invariant
            1 <= i <= 20,
            1 <= gw <= MAX_GAME_DIM,
            1 <= gh <= MAX_GAME_DIM,
            spec_windowbox_scale(gw as int, gh as int, rw as int, rh as int)
                == spec_windowbox_scale_from(gw as int, gh as int, rw as int, rh as int, i as int),
            forall|j: int| spec_windowbox_scale(gw as int, gh as int, rw as int, rh as int) < j <= 20
                ==> !#[trigger] scale_fits(gw as int, gh as int, rw as int, rh as int, j),
        decreases i,
    {
        proof {
            assert(gw * i <= 20 * MAX_GAME_DIM) by (nonlinear_arith)
                requires 1 <= gw <= MAX_GAME_DIM, 1 <= i <= 20;
            assert(gh * i <= 20 * MAX_GAME_DIM) by (nonlinear_arith)
                requires 1 <= gh <= MAX_GAME_DIM, 1 <= i <= 20;
        }
        if gw * i <= rw && gh * i <= rh {
            assert(scale_fits(gw as int, gh as int, rw as int, rh as int, i as int));
            assert(spec_windowbox_scale_from(gw as int, gh as int, rw as int, rh as int, i as int) == i);
            return i;
        }
        i = i - 1;
    }
    1
}

/// The offset that centres `inner` within `outer`.
pub open spec fn center_offset(outer: int, inner: int) -> int {
    outer / 2 - inner / 2
}

/// The layout for a `vp_w` by `vp_h` viewport: centred unless `centered`
/// is off, in which case it sits at the origin.
pub open spec fn spec_layout(gw: int, gh: int, rw: int, rh: int, vp_w: int, vp_h: int, centered: bool) -> RenderLayout {
    let left = if centered { center_offset(rw, vp_w) } else { 0 };
    let top = if centered { center_offset(rh, vp_h) } else { 0 };
    RenderLayout {
        width: rw as i32,
        height: rh as i32,
        viewport: Rect { left: left as i32, top: top as i32, right: (left + vp_w) as i32, bottom: (top + vp_h) as i32 },
        stretched: vp_w != gw || vp_h != gh || left != 0 || top != 0,
    }
}

/// A fitted size no larger than the render area's.
pub open spec fn fit_within(v: i32, limit: int) -> int {
    if (v as int) < limit { v as int } else { limit }
}

/// The render layout for a game of `game_w` by `game_h` pixels.
/// Windowboxing draws the game at the largest integer scale (up to 20)
/// that fits, centred; keeping the aspect ratio draws it at `aspect_fit`,
/// the size the caller fitted to the render area (never more than the
/// render area), centred; otherwise the game fills the render area.
pub open spec fn spec_compute_viewport(cfg: ViewportConfig, game_w: i32, game_h: i32, aspect_fit: (i32, i32)) -> RenderLayout {
    let gw = game_dim(game_w);
    let gh = game_dim(game_h);
    let (rw, rh) = spec_render_size(cfg, game_w, game_h);
    if cfg.windowboxing {
        let k = spec_windowbox_scale(gw, gh, rw, rh);
        spec_layout(gw, gh, rw, rh, gw * k, gh * k, true)
    } else if cfg.maintain_aspect_ratio {
        spec_layout(gw, gh, rw, rh, fit_within(aspect_fit.0, rw), fit_within(aspect_fit.1, rh), true)
    } else {
        spec_layout(gw, gh, rw, rh, rw, rh, false)
    }
}

/// The render layout for a game of `game_w` by `game_h` pixels (see
/// `spec_compute_viewport`). `aspect_fit` is used only when the aspect
/// ratio is kept without windowboxing.
pub fn compute_viewport(cfg: &ViewportConfig, game_w: i32, game_h: i32, aspect_fit: (i32, i32)) -> (r: RenderLayout)
    requires
        cfg.windowboxing ==> game_w <= MAX_GAME_DIM && game_h <= MAX_GAME_DIM,
        0 <= aspect_fit.0,
        0 <= aspect_fit.1,
    ensures
        r == spec_compute_viewport(*cfg, game_w, game_h, aspect_fit),
        0 <= r.viewport.left <= r.viewport.right <= r.width,
        0 <= r.viewport.top <= r.viewport.bottom <= r.height,
{
    let gw = if game_w > 1 { game_w } else { 1 };
    let gh = if game_h > 1 { game_h } else { 1 };
    let (render_w, render_h) = render_size(cfg, game_w, game_h);
    let mut vp_left: i32 = 0;
    let mut vp_top: i32 = 0;
    let mut vp_w = render_w;
    let mut vp_h = render_h;
    if cfg.windowboxing {
        let k = windowbox_scale(gw, gh, render_w, render_h);
        vp_w = gw * k;
        vp_h = gh * k;
        vp_top = render_h / 2 - vp_h / 2;
        vp_left = render_w / 2 - vp_w / 2;
    } else if cfg.maintain_aspect_ratio {
        vp_w = if aspect_fit.0 < render_w { aspect_fit.0 } else { render_w };
        vp_h = if aspect_fit.1 < render_h { aspect_fit.1 } else { render_h };
        vp_top = render_h / 2 - vp_h / 2;
        vp_left = render_w / 2 - vp_w / 2;
    }
    let stretched = vp_w != gw || vp_h != gh || vp_left != 0 || vp_top != 0;
    RenderLayout {
        width: render_w,
        height: render_h,
        viewport: Rect { left: vp_left, top: vp_top, right: vp_left + vp_w, bottom: vp_top + vp_h },
        stretched,
    }
}

/// The window size: the screen in full-screen mode, the render area
/// otherwise.
pub fn window_size(coop_flags: u32, screen: (i32, i32), render: (i32, i32)) -> (r: (i32, i32))
    ensures
        r == (if coop_flags & DDSCL_FULLSCREEN != 0 { screen } else { render }),
{
    if (coop_flags & DDSCL_FULLSCREEN) != 0 { screen } else { render }
}

/// Whether `v` and the values derived from it stay within `i32`.
pub open spec fn fits_i32(v: int) -> bool {
    i32::MIN <= v <= i32::MAX
}

/// The screen rectangle of a window's client area, from the screen
/// position of the client area's origin and the client rectangle: the
/// rectangle the cursor is confined to.
pub fn client_clip_rect(origin: Point, rc: Rect) -> (r: Rect)
    requires
        fits_i32(origin.x + rc.left),
        fits_i32(origin.y + rc.top),
        fits_i32(origin.x + rc.right),
        fits_i32(origin.y + rc.bottom),
    ensures
        r == (Rect {
            left: (origin.x + rc.left) as i32,
            top: (origin.y + rc.top) as i32,
            right: (origin.x + rc.right) as i32,
            bottom: (origin.y + rc.bottom) as i32,
        }),
{
    Rect { left: origin.x + rc.left, top: origin.y + rc.top, right: origin.x + rc.right, bottom: origin.y + rc.bottom }
}

/// Half of `v`, rounded toward zero.
pub open spec fn half_toward_zero(v: int) -> int {
    if v >= 0 { v / 2 } else { -((-v) / 2) }
}

fn half(v: i32) -> (r: i32)
    ensures
        r == half_toward_zero(v as int),
{
    if v >= 0 {
        v / 2
    } else if v == i32::MIN {
        i32::MIN / 2
    } else {
        -((-v) / 2)
    }
}

/// The screen point at the centre of a window's client area, where the
/// cursor is put, from the screen position of the client area's origin
/// and the client rectangle.
pub fn client_center(origin: Point, rc: Rect) -> (r: Point)
    requires
        fits_i32(rc.left + rc.right),
        fits_i32(rc.top + rc.bottom),
        fits_i32(origin.x + half_toward_zero(rc.left + rc.right)),
        fits_i32(origin.y + half_toward_zero(rc.top + rc.bottom)),
    ensures
        r == (Point {
            x: (origin.x + half_toward_zero(rc.left + rc.right)) as i32,
            y: (origin.y + half_toward_zero(rc.top + rc.bottom)) as i32,
        }),
{
    Point { x: origin.x + half(rc.left + rc.right), y: origin.y + half(rc.top + rc.bottom) }
}

/// What the window procedure does with a message before (in most cases)
/// passing it on to the game's own window procedure.
#[derive(Clone, Copy, Debug, PartialEq, Eq, Structural)]
pub enum WindowAction {
    /// Record the window rectangle; after a resize, re-layout the render.
    UpdateWindowRect { invalidate: bool },
    /// Record whether the application has the focus.
    SetFocus(bool),
    /// Record the focus; lock the cursor when activated, else release it,
    /// minimising a full-screen window first.
    Activate { active: bool, minimize: bool },
    /// Confine the cursor to the window.
    LockMouse,
    /// Release and hide the cursor.
    UnlockMouse,
    /// Repaint the client area.
    Repaint,
    /// Terminate the process.
    Exit,
    /// Claim the background erased: answered with 1, nothing is passed on.
    EraseBackground,
    /// Validate the update region without painting: answered with 0,
    /// nothing is passed on.
    Paint,
    /// Handle a hotkey.
    Hotkey(i32),
    /// Restore the window's size and position.
    FixWindowPos,
    /// Nothing but passing the message on.
    PassOn,
}

/// What the window procedure does with message `msg`.
pub open spec fn spec_window_message(msg: u32, wparam: usize, coop_flags: u32, fix_timer: usize) -> WindowAction {
    if msg == WM_SIZE {
        WindowAction::UpdateWindowRect { invalidate: true }
    } else if msg == WM_MOVE {
        WindowAction::UpdateWindowRect { invalidate: false }
    } else if msg == WM_ACTIVATEAPP {
        WindowAction::SetFocus(wparam != 0)
    } else if msg == WM_ACTIVATE {
        let active = wparam & 0xffff != 0;
        WindowAction::Activate { active, minimize: !active && coop_flags & DDSCL_FULLSCREEN != 0 }
    } else if msg == WM_LBUTTONDOWN || msg == WM_RBUTTONDOWN || msg == WM_MBUTTONDOWN {
        WindowAction::LockMouse
    } else if msg == WM_MOUSELEAVE || msg == WM_CLOSE {
        WindowAction::UnlockMouse
    } else if msg == WM_PARENTNOTIFY {
        WindowAction::Repaint
    } else if msg == WM_SYSCOMMAND {
        if wparam & 0xfff0 == SC_CLOSE { WindowAction::Exit } else { WindowAction::PassOn }
    } else if msg == WM_ERASEBKGND {
        WindowAction::EraseBackground
    } else if msg == WM_PAINT {
        WindowAction::Paint
    } else if msg == WM_KEYDOWN {
        WindowAction::Hotkey(wparam as i32)
    } else if msg == WM_TIMER {
        if wparam == fix_timer { WindowAction::FixWindowPos } else { WindowAction::PassOn }
    } else {
        WindowAction::PassOn
    }
}

/// What the window procedure does with message `msg` (`fix_timer` is the
/// id of the timer that restores the window position).
pub fn window_message(msg: u32, wparam: usize, coop_flags: u32, fix_timer: usize) -> (r: WindowAction)
    ensures
        r == spec_window_message(msg, wparam, coop_flags, fix_timer),
{
    match msg {
        WM_SIZE => WindowAction::UpdateWindowRect { invalidate: true },
        WM_MOVE => WindowAction::UpdateWindowRect { invalidate: false },
        WM_ACTIVATEAPP => WindowAction::SetFocus(wparam != 0),
        WM_ACTIVATE => {
            let active = (wparam & 0xffff) != 0;
            WindowAction::Activate { active, minimize: !active && (coop_flags & DDSCL_FULLSCREEN) != 0 }
        },
        WM_LBUTTONDOWN | WM_RBUTTONDOWN | WM_MBUTTONDOWN => WindowAction::LockMouse,
        WM_MOUSELEAVE => WindowAction::UnlockMouse,
        WM_CLOSE => WindowAction::UnlockMouse,
        WM_PARENTNOTIFY => WindowAction::Repaint,
        WM_SYSCOMMAND => {
            if (wparam & 0xfff0) == SC_CLOSE { WindowAction::Exit } else { WindowAction::PassOn }
        },
        WM_ERASEBKGND => WindowAction::EraseBackground,
        WM_PAINT => WindowAction::Paint,
        WM_KEYDOWN => WindowAction::Hotkey(#[verifier::truncate] (wparam as i32)),
        WM_TIMER => {
            if wparam == fix_timer { WindowAction::FixWindowPos } else { WindowAction::PassOn }
        },
        _ => WindowAction::PassOn,
    }
}

/// The value the window procedure answers a message with itself, when it
/// does not pass the message on: 1 (erased) for erasing the background,
/// 0 for painting (after validating the update region); none for every
/// other action, whose message goes on to the game's window procedure.
pub open spec fn spec_local_answer(a: WindowAction) -> Option<isize> {
    match a {
        WindowAction::EraseBackground => Some(1isize),
        WindowAction::Paint => Some(0isize),
        _ => None,
    }
}

/// The value the window procedure answers the message with itself (see
/// `spec_local_answer`).
pub fn local_answer(a: WindowAction) -> (r: Option<isize>)
    ensures
        r == spec_local_answer(a),
{
    match a {
        WindowAction::EraseBackground => Some(1),
        WindowAction::Paint => Some(0),
        _ => None,
    }
}

/// Whether the message is passed on to the game's window procedure after
/// the action: exactly when the procedure gives no answer of its own.
pub fn passes_on(a: WindowAction) -> (r: bool)
    ensures
        r == !(a is EraseBackground || a is Paint),
        r == spec_local_answer(a) is None,
{
    !matches!(a, WindowAction::EraseBackground | WindowAction::Paint)
}

/// The state the hotkeys read.
#[derive(Clone, Copy, Debug, PartialEq, Eq, Structural)]
pub struct HotkeyState {
    pub auto_renderer: bool,
    pub renderer: Renderer,
    pub target_fps: i32,
    pub mouse_is_locked: bool,
}

/// What a hotkey does.
#[derive(Clone, Copy, Debug, PartialEq, Eq, Structural)]
pub enum HotkeyAction {
    /// Release the cursor and show it.
    UnlockMouse,
    /// Confine the cursor to the window.
    LockMouse,
    /// Switch to another renderer and re-initialise rendering.
    SwitchRenderer(Renderer),
    /// Aim for another frame rate.
    SetTargetFps(i32),
    /// Show or hide the frame-rate counter.
    ToggleDrawFps,
    /// Nothing.
    Nothing,
}

/// The renderer after `r` in the cycle GDI, OpenGL, Direct3D 9.
pub open spec fn spec_next_renderer(r: Renderer) -> Renderer {
    match r {
        Renderer::Gdi => Renderer::OpenGl,
        Renderer::OpenGl => Renderer::D3d9,
        Renderer::D3d9 => Renderer::Gdi,
    }
}

/// The renderer after `r` in the cycle GDI, OpenGL, Direct3D 9.
pub fn next_renderer(r: Renderer) -> (n: Renderer)
    ensures
        n == spec_next_renderer(r),
{
    match r {
        Renderer::Gdi => Renderer::OpenGl,
        Renderer::OpenGl => Renderer::D3d9,
        Renderer::D3d9 => Renderer::Gdi,
    }
}

/// What key `key` does with Control, right Alt and right Control held as
/// given. With Control: Tab releases the cursor, End switches renderer
/// (when the renderer was chosen automatically), Page Up and Page Down
/// raise and lower the target frame rate by 5 within 1 to 1000. Right Alt
/// with right Control toggles the cursor lock; right Control with R
/// toggles the frame-rate counter.
pub open spec fn spec_hotkey(key: i32, ctrl: bool, rmenu: bool, rctrl: bool, st: HotkeyState) -> HotkeyAction {
    if ctrl {
        if key == VK_TAB {
            HotkeyAction::UnlockMouse
        } else if key == VK_END {
            if st.auto_renderer { HotkeyAction::SwitchRenderer(spec_next_renderer(st.renderer)) } else { HotkeyAction::Nothing }
        } else if key == VK_PRIOR {
            HotkeyAction::SetTargetFps(if st.target_fps + 5 < 1000 { (st.target_fps + 5) as i32 } else { 1000 })
        } else if key == VK_NEXT {
            HotkeyAction::SetTargetFps(if st.target_fps - 5 > 1 { (st.target_fps - 5) as i32 } else { 1 })
        } else {
            HotkeyAction::Nothing
        }
    } else if rmenu && rctrl {
        if st.mouse_is_locked { HotkeyAction::UnlockMouse } else { HotkeyAction::LockMouse }
    } else if rctrl && key == VK_R {
        HotkeyAction::ToggleDrawFps
    } else {
        HotkeyAction::Nothing
    }
}

/// What key `key` does (see `spec_hotkey`).
pub fn handle_hotkeys(key: i32, ctrl: bool, rmenu: bool, rctrl: bool, st: &HotkeyState) -> (r: HotkeyAction)
    ensures
        r == spec_hotkey(key, ctrl, rmenu, rctrl, *st),
{
    if ctrl {
        if key == VK_TAB {
            HotkeyAction::UnlockMouse
        } else if key == VK_END {
            if st.auto_renderer { HotkeyAction::SwitchRenderer(next_renderer(st.renderer)) } else { HotkeyAction::Nothing }
        } else if key == VK_PRIOR {
            HotkeyAction::SetTargetFps(if st.target_fps < 995 { st.target_fps + 5 } else { 1000 })
        } else if key == VK_NEXT {
            HotkeyAction::SetTargetFps(if st.target_fps > 6 { st.target_fps - 5 } else { 1 })
        } else {
            HotkeyAction::Nothing
        }
    } else if rmenu && rctrl {
        if st.mouse_is_locked { HotkeyAction::UnlockMouse } else { HotkeyAction::LockMouse }
    } else if rctrl && key == VK_R {
        HotkeyAction::ToggleDrawFps
    } else {
        HotkeyAction::Nothing
    }
}


/// Switching renderer walks a cycle of three: every switch changes the
/// renderer, and three switches come back to the first.
pub proof fn law_renderer_cycle(r: Renderer)
    ensures
        spec_next_renderer(r) != r,
        spec_next_renderer(spec_next_renderer(r)) != r,
        spec_next_renderer(spec_next_renderer(spec_next_renderer(r))) == r,
{
}

/// The frame-rate hotkeys keep a target of 1 to 1000 frames per second
/// within that range, and move it by at most 5.
pub proof fn law_target_fps_stays_in_range(key: i32, ctrl: bool, rmenu: bool, rctrl: bool, st: HotkeyState)
    requires
        1 <= st.target_fps <= 1000,
    ensures
        spec_hotkey(key, ctrl, rmenu, rctrl, st) matches HotkeyAction::SetTargetFps(t) ==> 1 <= t <= 1000
            && st.target_fps - 5 <= t <= st.target_fps + 5,
{
}


/// Page Down undoes Page Up: raising the target frame rate by 5 and
/// lowering it again gives the rate back, from 1 up to 994 (above, the
/// raise stops at 1000).
pub proof fn law_fps_down_undoes_up(st: HotkeyState)
    requires
        1 <= st.target_fps <= 994,
    ensures
        spec_hotkey(VK_PRIOR, true, false, false, st) == HotkeyAction::SetTargetFps((st.target_fps + 5) as i32),
        spec_hotkey(VK_NEXT, true, false, false, HotkeyState { target_fps: (st.target_fps + 5) as i32, ..st })
            == HotkeyAction::SetTargetFps(st.target_fps),
{
}


/// The render layout keeps the game's frame centred: with windowboxing or
/// a kept aspect ratio the viewport sits in the middle of the render area
/// both ways (its left edge at half the area's width less half its own,
/// its top edge likewise); with a kept aspect ratio its size is the fitted
/// size, never more than the render area; otherwise it is the whole render
/// area. The render area is the configured size (the screen when
/// stretching to full screen), never smaller than the game.
pub proof fn law_viewport_is_centred(cfg: ViewportConfig, game_w: i32, game_h: i32, aspect_fit: (i32, i32))
    requires
        cfg.windowboxing ==> game_w <= MAX_GAME_DIM && game_h <= MAX_GAME_DIM,
        0 <= aspect_fit.0,
        0 <= aspect_fit.1,
    ensures
        ({
            let l = spec_compute_viewport(cfg, game_w, game_h, aspect_fit);
            let w0 = if cfg.stretch_to_fullscreen { cfg.screen_width } else { cfg.stretch_to_width };
            let h0 = if cfg.stretch_to_fullscreen { cfg.screen_height } else { cfg.stretch_to_height };
            let vw = l.viewport.right - l.viewport.left;
            let vh = l.viewport.bottom - l.viewport.top;
            &&& l.width == (if w0 > game_dim(game_w) { w0 as int } else { game_dim(game_w) })
            &&& l.height == (if h0 > game_dim(game_h) { h0 as int } else { game_dim(game_h) })
            &&& 0 <= vw <= l.width
            &&& 0 <= vh <= l.height
            &&& (cfg.windowboxing || cfg.maintain_aspect_ratio) ==> {
                &&& l.viewport.left == l.width / 2 - vw / 2
                &&& l.viewport.top == l.height / 2 - vh / 2
            }
            &&& (!cfg.windowboxing && cfg.maintain_aspect_ratio) ==> {
                &&& vw == (if aspect_fit.0 < l.width { aspect_fit.0 as int } else { l.width as int })
                &&& vh == (if aspect_fit.1 < l.height { aspect_fit.1 as int } else { l.height as int })
            }
            &&& (!cfg.windowboxing && !cfg.maintain_aspect_ratio) ==> l.viewport == (Rect {
                left: 0,
                top: 0,
                right: l.width,
                bottom: l.height,
            })
        }),
{
    let gw = game_dim(game_w);
    let gh = game_dim(game_h);
    let (rw, rh) = spec_render_size(cfg, game_w, game_h);
    if cfg.windowboxing {
        lemma_windowbox_scale_from(gw, gh, rw, rh, 20);
        let k = spec_windowbox_scale(gw, gh, rw, rh);
        assert(gw * k <= rw && gh * k <= rh);
        assert(0 <= gw * k && 0 <= gh * k) by (nonlinear_arith) requires gw >= 1, gh >= 1, k >= 1;
    }
}

} // verus!
