use rs_ddraw::geometry::{Point, Rect};
use rs_ddraw::hook::{
    ascii_lower, clamp_cursor, cursor_clamped, find_iat_slots, ieq, import_rva, set_window_pos_resizes, thunk_slot,
    SWP_NOSIZE,
};

fn put16(img: &mut [u8], off: usize, v: u16) {
    img[off..off + 2].copy_from_slice(&v.to_le_bytes());
}

fn put32(img: &mut [u8], off: usize, v: u32) {
    img[off..off + 4].copy_from_slice(&v.to_le_bytes());
}

fn put_str(img: &mut [u8], off: usize, s: &str) {
    img[off..off + s.len()].copy_from_slice(s.as_bytes());
    img[off + s.len()] = 0;
}

/// A 32-bit image importing GetCursorPos and SetWindowPos from USER32.dll
/// and ExitProcess from KERNEL32.dll.
fn sample_image() -> Vec<u8> {
    let mut img = vec![0u8; 0x400];
    put16(&mut img, 0, 0x5A4D);
    put32(&mut img, 0x3C, 0x80);
    put32(&mut img, 0x80, 0x4550);
    put16(&mut img, 0x98, 0x10B);
    put32(&mut img, 0x98 + 0x60 + 8, 0x200);
    // USER32.dll descriptor
    put32(&mut img, 0x200, 0x280);
    put32(&mut img, 0x200 + 12, 0x300);
    put32(&mut img, 0x200 + 16, 0x2C0);
    // KERNEL32.dll descriptor, without a lookup table
    put32(&mut img, 0x214 + 12, 0x310);
    put32(&mut img, 0x214 + 16, 0x2E0);
    // terminating descriptor at 0x228 is all zero
    put_str(&mut img, 0x300, "USER32.dll");
    put_str(&mut img, 0x310, "KERNEL32.dll");
    put32(&mut img, 0x280, 0x320);
    put32(&mut img, 0x284, 0x340);
    put32(&mut img, 0x2C0, 0x1111_1111);
    put32(&mut img, 0x2C4, 0x2222_2222);
    put32(&mut img, 0x2E0, 0x360);
    put_str(&mut img, 0x322, "GetCursorPos");
    put_str(&mut img, 0x342, "SetWindowPos");
    put_str(&mut img, 0x362, "ExitProcess");
    img
}

#[test]
fn ascii_lower_only_letters() {
    assert_eq!(ascii_lower(b'A'), b'a');
    assert_eq!(ascii_lower(b'z'), b'z');
    assert_eq!(ascii_lower(b'@'), b'@');
    assert_eq!(ascii_lower(0xC4), 0xC4);
}

#[test]
fn ieq_compares_c_strings() {
    assert!(ieq(b"User32.DLL\0rest", b"user32.dll"));
    assert!(!ieq(b"user32.dl\0", b"user32.dll"));
    assert!(!ieq(b"user32.dll", b"user32.dll"));
    assert!(!ieq(b"user32.dllx\0", b"user32.dll"));
    assert!(ieq(b"abc\0", b"ABC\0ignored"));
}

#[test]
fn import_directory_found() {
    let img = sample_image();
    assert_eq!(import_rva(&img), Some(0x200));
    let mut bad = img.clone();
    bad[0] = 0;
    assert_eq!(import_rva(&bad), None);
    assert_eq!(import_rva(&img[0..0x40]), None);
}

#[test]
fn finds_the_slot_to_patch() {
    let img = sample_image();
    assert_eq!(find_iat_slots(&img, b"user32.dll", b"SetWindowPos", 4), vec![0x2C4]);
    assert_eq!(find_iat_slots(&img, b"USER32.DLL", b"getcursorpos", 4), vec![0x2C0]);
    assert_eq!(find_iat_slots(&img, b"kernel32.dll", b"ExitProcess", 4), vec![0x2E0]);
    assert_eq!(find_iat_slots(&img, b"user32.dll", b"ExitProcess", 4), Vec::<usize>::new());
    assert_eq!(find_iat_slots(&img, b"gdi32.dll", b"SetWindowPos", 4), Vec::<usize>::new());
    assert_eq!(thunk_slot(&img, 0x2C0, 0x280, b"SetWindowPos", 4), Some(0x2C4));
    assert_eq!(thunk_slot(&img, 0x2C0, 0x280, b"Nothing", 4), None);
}

#[test]
fn ordinal_imports_are_skipped() {
    let mut img = sample_image();
    put32(&mut img, 0x284, 0x8000_0340);
    assert_eq!(find_iat_slots(&img, b"user32.dll", b"SetWindowPos", 4), Vec::<usize>::new());
}

#[test]
fn truncated_image_finds_nothing() {
    let img = sample_image();
    assert_eq!(find_iat_slots(&img[0..0x2C2], b"user32.dll", b"SetWindowPos", 4), Vec::<usize>::new());
    assert_eq!(find_iat_slots(&[], b"user32.dll", b"SetWindowPos", 8), Vec::<usize>::new());
}

#[test]
fn set_window_pos_resize_check() {
    assert!(set_window_pos_resizes(0, true));
    assert!(!set_window_pos_resizes(SWP_NOSIZE, true));
    assert!(!set_window_pos_resizes(0, false));
}

#[test]
fn cursor_is_clamped_to_window() {
    let wr = Rect::new(10, 20, 110, 220);
    assert_eq!(clamp_cursor(Point { x: 0, y: 500 }, wr), Point { x: 10, y: 220 });
    assert_eq!(clamp_cursor(Point { x: 50, y: 60 }, wr), Point { x: 50, y: 60 });
    let once = clamp_cursor(Point { x: 1000, y: -7 }, wr);
    assert_eq!(once, Point { x: 110, y: 20 });
    assert_eq!(clamp_cursor(once, wr), once);
    assert!(cursor_clamped(true, true));
    assert!(!cursor_clamped(true, false));
    assert!(!cursor_clamped(false, true));
}
