use rs_ddraw::config::Renderer;
use rs_ddraw::geometry::{Point, Rect};
use rs_ddraw::window::{
    client_center, client_clip_rect, compute_viewport, handle_hotkeys, local_answer, next_renderer, passes_on, render_size,
    window_message, window_size, windowbox_scale, HotkeyAction, HotkeyState, ViewportConfig, WindowAction,
    DDSCL_FULLSCREEN, SC_CLOSE, VK_END, VK_NEXT, VK_PRIOR, VK_R, VK_TAB, WM_ACTIVATE, WM_ACTIVATEAPP, WM_CLOSE,
    WM_ERASEBKGND, WM_KEYDOWN, WM_LBUTTONDOWN, WM_MOVE, WM_PAINT, WM_SIZE, WM_SYSCOMMAND, WM_TIMER,
};

fn cfg() -> ViewportConfig {
    ViewportConfig {
        maintain_aspect_ratio: false,
        windowboxing: false,
        stretch_to_fullscreen: false,
        stretch_to_width: 1280,
        stretch_to_height: 960,
        screen_width: 1920,
        screen_height: 1080,
    }
}

fn hk(fps: i32) -> HotkeyState {
    HotkeyState { auto_renderer: true, renderer: Renderer::Gdi, target_fps: fps, mouse_is_locked: false }
}

#[test]
fn render_size_never_below_game() {
    assert_eq!(render_size(&cfg(), 640, 480), (1280, 960));
    assert_eq!(render_size(&cfg(), 2000, 100), (2000, 960));
    let mut c = cfg();
    c.stretch_to_fullscreen = true;
    assert_eq!(render_size(&c, 640, 480), (1920, 1080));
    c.stretch_to_fullscreen = false;
    c.stretch_to_width = 0;
    c.stretch_to_height = 0;
    assert_eq!(render_size(&c, 0, -3), (1, 1));
}

#[test]
fn windowbox_scale_largest_fit() {
    assert_eq!(windowbox_scale(320, 240, 1280, 960), 4);
    assert_eq!(windowbox_scale(640, 480, 1920, 1080), 2);
    assert_eq!(windowbox_scale(640, 480, 640, 480), 1);
    assert_eq!(windowbox_scale(1, 1, 1000, 1000), 20);
}

#[test]
fn viewport_fills_render_area_by_default() {
    let l = compute_viewport(&cfg(), 640, 480, (0, 0));
    assert_eq!((l.width, l.height), (1280, 960));
    assert_eq!(l.viewport, Rect::new(0, 0, 1280, 960));
    assert!(l.stretched);
    let mut same = cfg();
    same.stretch_to_width = 640;
    same.stretch_to_height = 480;
    let l2 = compute_viewport(&same, 640, 480, (0, 0));
    assert!(!l2.stretched);
}

#[test]
fn viewport_windowboxed_is_centred() {
    let mut c = cfg();
    c.windowboxing = true;
    c.stretch_to_width = 1920;
    c.stretch_to_height = 1080;
    let l = compute_viewport(&c, 640, 480, (0, 0));
    assert_eq!(l.viewport, Rect::new(320, 60, 1600, 1020));
    assert!(l.stretched);
}

#[test]
fn viewport_keeps_aspect_with_given_fit() {
    let mut c = cfg();
    c.maintain_aspect_ratio = true;
    c.stretch_to_width = 1920;
    c.stretch_to_height = 1080;
    let l = compute_viewport(&c, 640, 480, (1440, 1080));
    assert_eq!(l.viewport, Rect::new(240, 0, 1680, 1080));
}

#[test]
fn window_size_by_mode() {
    assert_eq!(window_size(DDSCL_FULLSCREEN, (1920, 1080), (640, 480)), (1920, 1080));
    assert_eq!(window_size(0, (1920, 1080), (640, 480)), (640, 480));
}

#[test]
fn client_rectangles() {
    let origin = Point { x: 108, y: 81 };
    let rc = Rect::new(0, 0, 800, 600);
    assert_eq!(client_clip_rect(origin, rc), Rect::new(108, 81, 908, 681));
    assert_eq!(client_center(origin, rc), Point { x: 508, y: 381 });
    assert_eq!(client_center(Point { x: 0, y: 0 }, Rect::new(-3, -3, 0, 0)), Point { x: -1, y: -1 });
}

#[test]
fn window_messages() {
    assert_eq!(window_message(WM_SIZE, 0, 0, 7), WindowAction::UpdateWindowRect { invalidate: true });
    assert_eq!(window_message(WM_MOVE, 0, 0, 7), WindowAction::UpdateWindowRect { invalidate: false });
    assert_eq!(window_message(WM_ACTIVATEAPP, 1, 0, 7), WindowAction::SetFocus(true));
    assert_eq!(
        window_message(WM_ACTIVATE, 0x1_0000, DDSCL_FULLSCREEN, 7),
        WindowAction::Activate { active: false, minimize: true }
    );
    assert_eq!(window_message(WM_ACTIVATE, 1, DDSCL_FULLSCREEN, 7), WindowAction::Activate { active: true, minimize: false });
    assert_eq!(window_message(WM_LBUTTONDOWN, 0, 0, 7), WindowAction::LockMouse);
    assert_eq!(window_message(WM_CLOSE, 0, 0, 7), WindowAction::UnlockMouse);
    assert_eq!(window_message(WM_SYSCOMMAND, SC_CLOSE + 3, 0, 7), WindowAction::Exit);
    assert_eq!(window_message(WM_SYSCOMMAND, 0xF020, 0, 7), WindowAction::PassOn);
    assert_eq!(window_message(WM_KEYDOWN, 0x41, 0, 7), WindowAction::Hotkey(0x41));
    assert_eq!(window_message(WM_TIMER, 7, 0, 7), WindowAction::FixWindowPos);
    assert_eq!(window_message(WM_TIMER, 8, 0, 7), WindowAction::PassOn);
    assert_eq!(window_message(0x9999, 0, 0, 7), WindowAction::PassOn);
    assert!(!passes_on(window_message(WM_ERASEBKGND, 0, 0, 7)));
    assert!(!passes_on(window_message(WM_PAINT, 0, 0, 7)));
    assert!(passes_on(WindowAction::LockMouse));
}

#[test]
fn renderer_cycle_returns_after_three() {
    let r = Renderer::Gdi;
    assert_eq!(next_renderer(r), Renderer::OpenGl);
    assert_eq!(next_renderer(next_renderer(r)), Renderer::D3d9);
    assert_eq!(next_renderer(next_renderer(next_renderer(r))), r);
}

#[test]
fn hotkeys() {
    let st = hk(60);
    assert_eq!(handle_hotkeys(VK_TAB, true, false, false, &st), HotkeyAction::UnlockMouse);
    assert_eq!(handle_hotkeys(VK_END, true, false, false, &st), HotkeyAction::SwitchRenderer(Renderer::OpenGl));
    let manual = HotkeyState { auto_renderer: false, ..st };
    assert_eq!(handle_hotkeys(VK_END, true, false, false, &manual), HotkeyAction::Nothing);
    assert_eq!(handle_hotkeys(VK_PRIOR, true, false, false, &st), HotkeyAction::SetTargetFps(65));
    assert_eq!(handle_hotkeys(VK_NEXT, true, false, false, &st), HotkeyAction::SetTargetFps(55));
    assert_eq!(handle_hotkeys(0, false, true, true, &st), HotkeyAction::LockMouse);
    let locked = HotkeyState { mouse_is_locked: true, ..st };
    assert_eq!(handle_hotkeys(0, false, true, true, &locked), HotkeyAction::UnlockMouse);
    assert_eq!(handle_hotkeys(VK_R, false, false, true, &st), HotkeyAction::ToggleDrawFps);
    assert_eq!(handle_hotkeys(VK_R, false, false, false, &st), HotkeyAction::Nothing);
}

#[test]
fn target_fps_hotkeys_stay_in_range() {
    assert_eq!(handle_hotkeys(VK_PRIOR, true, false, false, &hk(998)), HotkeyAction::SetTargetFps(1000));
    assert_eq!(handle_hotkeys(VK_PRIOR, true, false, false, &hk(1000)), HotkeyAction::SetTargetFps(1000));
    assert_eq!(handle_hotkeys(VK_NEXT, true, false, false, &hk(3)), HotkeyAction::SetTargetFps(1));
    assert_eq!(handle_hotkeys(VK_NEXT, true, false, false, &hk(1)), HotkeyAction::SetTargetFps(1));
}

#[test]
fn page_down_undoes_page_up() {
    let st = hk(60);
    let up = handle_hotkeys(VK_PRIOR, true, false, false, &st);
    assert_eq!(up, HotkeyAction::SetTargetFps(65));
    let down = handle_hotkeys(VK_NEXT, true, false, false, &hk(65));
    assert_eq!(down, HotkeyAction::SetTargetFps(60));
}

#[test]
fn local_answers_of_window_procedure() {
    assert_eq!(local_answer(window_message(WM_ERASEBKGND, 0, 0, 7)), Some(1));
    assert_eq!(local_answer(window_message(WM_PAINT, 0, 0, 7)), Some(0));
    assert_eq!(local_answer(window_message(WM_SIZE, 0, 0, 7)), None);
    assert_eq!(local_answer(WindowAction::Exit), None);
}

#[test]
fn aspect_fit_is_kept_inside_render_area() {
    let mut c = cfg();
    c.maintain_aspect_ratio = true;
    c.stretch_to_width = 800;
    c.stretch_to_height = 600;
    let l = compute_viewport(&c, 640, 480, (5000, 7000));
    assert_eq!(l.viewport, Rect::new(0, 0, 800, 600));
    let big = compute_viewport(&cfg(), 200_000_000, 10, (0, 0));
    assert_eq!(big.viewport, Rect::new(0, 0, 200_000_000, 960));
}

#[test]
fn target_fps_hotkeys_at_integer_limits() {
    assert_eq!(handle_hotkeys(VK_PRIOR, true, false, false, &hk(i32::MAX)), HotkeyAction::SetTargetFps(1000));
    assert_eq!(handle_hotkeys(VK_NEXT, true, false, false, &hk(i32::MAX)), HotkeyAction::SetTargetFps(i32::MAX - 5));
    assert_eq!(handle_hotkeys(VK_NEXT, true, false, false, &hk(i32::MIN)), HotkeyAction::SetTargetFps(1));
    assert_eq!(handle_hotkeys(VK_PRIOR, true, false, false, &hk(i32::MIN)), HotkeyAction::SetTargetFps(i32::MIN + 5));
    assert_eq!(handle_hotkeys(VK_END, true, false, false, &hk(i32::MAX)), HotkeyAction::SwitchRenderer(Renderer::OpenGl));
}
