use rs_ddraw::fps::FpsLimiter;
use rs_ddraw::log::{init, log, LogState};
use rs_ddraw::text::{eq_ignore, parse_i32, str_eq, trim};

#[test]
fn trim_white_space() {
    assert_eq!(trim("  a b \t\n"), "a b");
    assert_eq!(trim(""), "");
    assert_eq!(trim(" \u{3000}x\u{a0}"), "x");
}

#[test]
fn compare_strings() {
    assert!(eq_ignore("OpenGL", "opengl"));
    assert!(!eq_ignore("opengl ", "opengl"));
    assert!(!eq_ignore("ÄB", "äb"));
    assert!(str_eq("1", "1"));
    assert!(!str_eq("1", "01"));
}

#[test]
fn parse_like_std() {
    assert_eq!(parse_i32("42"), Some(42));
    assert_eq!(parse_i32("-2147483648"), Some(i32::MIN));
    assert_eq!(parse_i32("2147483647"), Some(i32::MAX));
    assert_eq!(parse_i32("2147483648"), None);
    assert_eq!(parse_i32("+7"), Some(7));
    assert_eq!(parse_i32("-"), None);
    assert_eq!(parse_i32(""), None);
    assert_eq!(parse_i32(" 1"), None);
    assert_eq!(parse_i32("1x"), None);
    for s in ["0", "-0", "007", "123456", "-99"] {
        assert_eq!(parse_i32(s), s.parse::<i32>().ok());
    }
}

#[test]
fn log_lines_only_when_open() {
    let mut st = LogState::new();
    assert!(st.should_open());
    assert_eq!(log(&st, "before"), None);
    let header = init(&mut st);
    assert_eq!(header, "=== rs-ddraw log started ===\n");
    assert!(!st.should_open());
    assert_eq!(log(&st, "SetDisplayMode 640x480"), Some("SetDisplayMode 640x480\n".to_string()));
}

#[test]
fn fps_limiter_spaces_frames() {
    let mut l = FpsLimiter::new(50);
    assert_eq!((l.target_fps, l.last_frame_us), (50, 0));
    assert_eq!(l.wait(100_000), 0);
    assert_eq!(l.last_frame_us, 100_000);
    assert_eq!(l.wait(105_000), 15_000);
    assert_eq!(l.last_frame_us, 120_000);
    assert_eq!(l.wait(130_000), 10_000);
    assert_eq!(l.wait(200_000), 0);
    let mut sixty = FpsLimiter::new(60);
    assert_eq!(sixty.wait(0), 16_667);
    assert_eq!(sixty.last_frame_us, 16_667);
    let mut free = FpsLimiter::new(0);
    assert_eq!(free.wait(5), 0);
    assert_eq!(free.wait(6), 0);
    assert_eq!(free.last_frame_us, 6);
}
