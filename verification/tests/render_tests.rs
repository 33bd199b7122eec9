use rs_ddraw::ddraw::surface::{SourceCopy, SurfaceImpl, GUARD_LINES};
use rs_ddraw::geometry::Rect;
use rs_ddraw::render::d3d9::{
    convert_pixel, d3d_viewport, present_params, source_pixel_bytes, upload, D3D9State, PresentParams, D3DPRESENT_INTERVAL_IMMEDIATE,
    D3DPRESENT_INTERVAL_ONE,
};
use rs_ddraw::render::gdi::{child_blit, present_plan, ChildBlit};
use rs_ddraw::render::opengl::{gl_viewport, next_pow2, texture_format, unpack_row_length, GlTexture, TextureFormat, ViewBox};
use rs_ddraw::render::{FrameAction, FrameTracker};

#[test]
fn frame_tracker_uploads_new_frames_only() {
    let mut t = FrameTracker::new();
    assert_eq!(t.frame(false, None, true), FrameAction::NoPrimary);
    assert_eq!(t.frame(false, Some((640, 480)), true), FrameAction::PresentGl { upload: true });
    assert_eq!(t.frame(false, Some((640, 480)), true), FrameAction::PresentGl { upload: false });
    assert_eq!(t.frame(true, Some((640, 480)), true), FrameAction::PresentGl { upload: true });
    assert_eq!(t.frame(false, Some((640, 480)), false), FrameAction::Skip);
    assert_eq!(t.frame(true, Some((640, 480)), false), FrameAction::PresentGdi);
    assert_eq!(t.frame(false, Some((800, 600)), false), FrameAction::PresentGdi);
    assert_eq!((t.last_w, t.last_h), (800, 600));
}

#[test]
fn gdi_plan_full_client() {
    let p = present_plan(640, 480, Rect::new(0, 0, 640, 480)).unwrap();
    assert_eq!(p.dest, Rect::new(0, 0, 640, 480));
    assert!(p.top.is_none() && p.bottom.is_none() && p.left.is_none() && p.right.is_none());
    let q = present_plan(640, 480, Rect::new(0, 0, 0, 0)).unwrap();
    assert_eq!(q.dest, Rect::new(0, 0, 640, 480));
    assert!(present_plan(0, 480, Rect::new(0, 0, 10, 10)).is_none());
}

#[test]
fn gdi_plan_letterbox_bars() {
    let p = present_plan(800, 600, Rect::new(100, 50, 700, 550)).unwrap();
    assert_eq!(p.dest, Rect::new(100, 50, 700, 550));
    assert_eq!(p.top, Some(Rect::new(0, 0, 800, 50)));
    assert_eq!(p.bottom, Some(Rect::new(0, 550, 800, 600)));
    assert_eq!(p.left, Some(Rect::new(0, 50, 100, 550)));
    assert_eq!(p.right, Some(Rect::new(700, 50, 800, 550)));
    let mut area: i64 = 0;
    for r in [Some(p.dest), p.top, p.bottom, p.left, p.right].iter().flatten() {
        area += ((r.right - r.left) as i64) * ((r.bottom - r.top) as i64);
    }
    assert_eq!(area, 800 * 600);
}

#[test]
fn child_window_blit() {
    let c = child_blit(Rect::new(0, 0, 200, 100), Rect::new(50, 40, 250, 140), 10, 20);
    assert_eq!(c, Some(ChildBlit { width: 200, height: 100, src_x: 40, src_y: 20 }));
    assert_eq!(child_blit(Rect::new(0, 0, 0, 100), Rect::new(0, 0, 0, 0), 0, 0), None);
}

#[test]
fn next_pow2_values() {
    assert_eq!(next_pow2(640), 1024);
    assert_eq!(next_pow2(512), 512);
    assert_eq!(next_pow2(1), 1);
    assert_eq!(next_pow2(3), 4);
    assert_eq!(next_pow2(0), 0);
    assert_eq!(next_pow2(-7), 0);
    assert_eq!(next_pow2(0x4000_0000), 0x4000_0000);
}

#[test]
fn gl_texture_tracking() {
    let mut t = GlTexture::new(640, 480);
    assert_eq!((t.tex_w, t.tex_h, t.surf_bpp), (1024, 512, 16));
    assert!(!t.ensure_texture(640, 480, 16));
    assert!(t.ensure_texture(640, 480, 32));
    assert_eq!((t.tex_w, t.tex_h, t.surf_bpp), (1024, 512, 32));
    assert!(t.ensure_texture(800, 600, 32));
    assert_eq!((t.tex_w, t.tex_h), (1024, 1024));
    assert_eq!(texture_format(32), TextureFormat::Bgra8);
    assert_eq!(texture_format(16), TextureFormat::Rgb565);
    assert_eq!(unpack_row_length(1280, 16), 640);
    assert_eq!(unpack_row_length(100, 8), 100);
}

#[test]
fn gl_viewport_choices() {
    let v = gl_viewport(Rect::new(10, 20, 110, 220), true, 800, 600);
    assert_eq!(v.viewport, Some(ViewBox { x: 10, y: 20, width: 100, height: 200 }));
    assert!(v.use_layout_scale);
    let w = gl_viewport(Rect::new(0, 0, 0, 0), true, 800, 600);
    assert_eq!(w.viewport, Some(ViewBox { x: 0, y: 0, width: 800, height: 600 }));
    assert!(!w.use_layout_scale);
    let z = gl_viewport(Rect::new(0, 0, 0, 0), true, 0, 0);
    assert_eq!(z.viewport, Some(ViewBox { x: 0, y: 0, width: 1, height: 1 }));
}

#[test]
fn d3d9_present_params_and_state() {
    assert_eq!(
        present_params(0, -5, true),
        PresentParams { back_buffer_width: 1, back_buffer_height: 1, presentation_interval: D3DPRESENT_INTERVAL_ONE }
    );
    let mut s = D3D9State::new(640, 480, false);
    assert_eq!(s.ensure_size(640, 480), None);
    let p = s.ensure_size(800, 600).unwrap();
    assert_eq!((p.back_buffer_width, p.back_buffer_height), (800, 600));
    assert_eq!(p.presentation_interval, D3DPRESENT_INTERVAL_IMMEDIATE);
    assert!(s.texture_stale(640, 480, 16));
    s.texture_created(640, 480, 16);
    assert!(!s.texture_stale(640, 480, 16));
    assert!(s.texture_stale(640, 480, 32));
    assert!(s.ensure_size(1024, 768).is_some());
    assert!(s.texture_stale(640, 480, 16));
}

#[test]
fn pixel_conversion_exact_values() {
    assert_eq!(convert_pixel(&[0xFF, 0xFF], 0, 16, false), 0xFFFF_FFFF);
    assert_eq!(convert_pixel(&[0x00, 0x00], 0, 16, false), 0xFF00_0000);
    assert_eq!(convert_pixel(&[0x00, 0xF8], 0, 16, false), 0xFFFF_0000);
    assert_eq!(convert_pixel(&[0xE0, 0x07], 0, 16, false), 0xFF00_FF00);
    assert_eq!(convert_pixel(&[0x1F, 0x00], 0, 16, false), 0xFF00_00FF);
    assert_eq!(convert_pixel(&[0x00, 0x7C], 0, 16, true), 0xFFFF_0000);
    assert_eq!(convert_pixel(&[0x10, 0x00], 0, 16, false), 0xFF00_0083);
    assert_eq!(convert_pixel(&[9, 0x11, 0x22, 0x33, 0x44], 1, 32, false), 0xFF33_2211);
    assert_eq!(convert_pixel(&[], 0, 8, false), 0xFF00_0000);
}

#[test]
fn upload_converts_rows() {
    let src = [0xFFu8, 0xFF, 0x00, 0x00, 0xAA, 0xAA, 0x1F, 0x00, 0x00, 0xF8, 0xAA, 0xAA];
    let mut dst = [0u32; 6];
    upload(&mut dst, &src, 2, 2, 6, 3, 16, false);
    assert_eq!(dst, [0xFFFF_FFFF, 0xFF00_0000, 0, 0xFF00_00FF, 0xFFFF_0000, 0]);
}

#[test]
fn d3d_viewport_choices() {
    assert_eq!(d3d_viewport(Rect::new(10, 20, 110, 220), 800, 600), (10, 20, 100, 200));
    assert_eq!(d3d_viewport(Rect::new(5, 5, 5, 5), 800, 600), (0, 0, 800, 600));
}

#[test]
fn source_bytes_per_depth() {
    assert_eq!(source_pixel_bytes(32), 4);
    assert_eq!(source_pixel_bytes(16), 2);
    assert_eq!(source_pixel_bytes(8), 0);
}

#[test]
fn d3d9_resize_twice_resets_once() {
    let mut s = D3D9State::new(640, 480, true);
    let p = s.ensure_size(1280, 720).unwrap();
    assert_eq!(p.presentation_interval, D3DPRESENT_INTERVAL_ONE);
    let after = s;
    assert_eq!(s.ensure_size(1280, 720), None);
    assert_eq!(s, after);
    assert_eq!(s.ensure_size(0, -1), Some(PresentParams { back_buffer_width: 1, back_buffer_height: 1, presentation_interval: D3DPRESENT_INTERVAL_ONE }));
}

#[test]
fn scaled_blit_picks_nearest_source_pixel() {
    let s = SurfaceImpl::new(3, 1, 16, false);
    let mut mem = vec![0u8; (s.pitch as usize) * ((1 + GUARD_LINES) as usize)];
    let src = SourceCopy { data: vec![1, 2, 3, 4], width: 2, height: 1, pitch: 4 };
    assert_eq!(s.blt_impl(&mut mem, None, Some(&src), None, 0, None), Ok(false));
    assert_eq!(&mem[0..6], &[1, 2, 1, 2, 3, 4]);
}

#[test]
fn d3d9_device_lost_drops_texture() {
    let mut s = D3D9State::new(800, 600, false);
    s.texture_created(640, 480, 16);
    let p = s.device_lost();
    assert_eq!(p, PresentParams { back_buffer_width: 800, back_buffer_height: 600, presentation_interval: D3DPRESENT_INTERVAL_IMMEDIATE });
    assert!(s.texture_stale(640, 480, 16));
    assert_eq!((s.client_w, s.client_h), (800, 600));
}
