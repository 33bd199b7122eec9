use rs_ddraw::ddraw::surface::{
    bytes_per_pixel, color_fill, copy_reads_within, make_buffers, pixel_type, rect_clamp, BlitGeom, SourceCopy,
    SurfaceImpl, BI_BITFIELDS, GUARD_LINES,
};
use rs_ddraw::ddraw::{
    DdError, PixelFormat, SurfaceDesc, DDBLT_COLORFILL, DDPF_PALETTEINDEXED8, DDPF_RGB, DDSCAPS_OFFSCREENPLAIN,
    DDSCAPS_PRIMARYSURFACE, DDSCAPS_SYSTEMMEMORY, DDSCAPS_VIDEOMEMORY, SIZE_SURFACEDESC, SIZE_SURFACEDESC2,
};
use rs_ddraw::geometry::Rect;

fn memory(s: &SurfaceImpl) -> Vec<u8> {
    vec![0u8; (s.pitch as usize) * ((s.height + GUARD_LINES) as usize)]
}

#[test]
fn bytes_per_pixel_never_below_one() {
    assert_eq!(bytes_per_pixel(8), 1);
    assert_eq!(bytes_per_pixel(16), 2);
    assert_eq!(bytes_per_pixel(32), 4);
    assert_eq!(bytes_per_pixel(4), 1);
    assert_eq!(pixel_type(8), DDPF_PALETTEINDEXED8 | DDPF_RGB);
    assert_eq!(pixel_type(16), DDPF_RGB);
}

#[test]
fn dib_header_for_surface() {
    let (info, buf) = make_buffers(320, 240, 16, true);
    assert_eq!(info.height, -440);
    assert_eq!(info.compression, BI_BITFIELDS);
    assert_eq!((info.r_mask, info.g_mask, info.b_mask), (0x7C00, 0x03E0, 0x001F));
    assert_eq!(buf.pitch, 640);
    let (info32, _) = make_buffers(2, 2, 32, true);
    assert_eq!((info32.r_mask, info32.g_mask, info32.b_mask), (0xFF_0000, 0xFF00, 0xFF));
}

#[test]
fn new_surface_caps() {
    let p = SurfaceImpl::new(4, 2, 16, true);
    assert_eq!(p.get_caps_impl(), DDSCAPS_PRIMARYSURFACE | DDSCAPS_VIDEOMEMORY);
    let o = SurfaceImpl::new(4, 2, 16, false);
    assert_eq!(o.get_caps_impl(), DDSCAPS_OFFSCREENPLAIN | DDSCAPS_SYSTEMMEMORY);
    assert_eq!(o.pitch, 8);
    assert!(matches!(o.get_attached_impl(0xFFFF_FFFF), Err(DdError::Generic)));
}

#[test]
fn lock_whole_surface_and_rect() {
    let s = SurfaceImpl::new(10, 8, 32, false);
    let mut d = SurfaceDesc::zeroed();
    s.lock_impl2(None, &mut d, false);
    assert_eq!(d.size, SIZE_SURFACEDESC2);
    assert_eq!((d.width, d.height, d.pitch, d.surface_offset), (10, 8, 40, 0));
    let mut d1 = SurfaceDesc::zeroed();
    s.lock_impl1(Some(Rect::new(2, 3, 6, 7)), &mut d1, false);
    assert_eq!(d1.size, SIZE_SURFACEDESC);
    assert_eq!((d1.width, d1.height), (4, 4));
    assert_eq!(d1.surface_offset, 3 * 40 + 2 * 4);
    assert_eq!(d1.pixel_format.rgb_bit_count, 32);
}

#[test]
fn surface_desc_and_pixel_format() {
    let s = SurfaceImpl::new(6, 5, 16, false);
    let mut d = SurfaceDesc::zeroed();
    s.get_surface_desc_impl2(&mut d, true);
    assert_eq!((d.width, d.height, d.pitch), (6, 5, 12));
    assert_eq!(d.pixel_format.r_mask, 0x7C00);
    let mut pf = PixelFormat::zeroed();
    s.get_pixel_format_impl(&mut pf, false);
    assert_eq!((pf.r_mask, pf.g_mask, pf.b_mask), (0xF800, 0x07E0, 0x001F));
    let mut d1 = SurfaceDesc::zeroed();
    s.get_surface_desc_impl1(&mut d1, false);
    assert_eq!(d1.size, SIZE_SURFACEDESC);
}

#[test]
fn rect_clamp_cases() {
    assert_eq!(rect_clamp(None, 10, 20), (0, 0, 10, 20));
    assert_eq!(rect_clamp(Some(Rect::new(-5, -5, 100, 100)), 10, 20), (0, 0, 10, 20));
    assert_eq!(rect_clamp(Some(Rect::new(3, 4, 2, 1)), 10, 20), (3, 4, 3, 4));
    assert_eq!(rect_clamp(Some(Rect::new(1, 2, 5, 6)), 10, 20), (1, 2, 5, 6));
    assert_eq!(rect_clamp(Some(Rect::new(0, 0, -1, -1)), 10, 10), (0, 0, 0, 0));
    assert_eq!(rect_clamp(Some(Rect::new(-20, -20, -10, 5)), 10, 10), (0, 0, 0, 5));
    assert_eq!(rect_clamp(Some(Rect::new(12, 0, 15, 3)), 10, 10), (12, 0, 12, 3));
}

#[test]
fn color_fill_writes_rectangle_only() {
    let mut buf = vec![0xAAu8; 4 * 8];
    color_fill(&mut buf, 8, 1, 1, 3, 3, 0x1234);
    for y in 0..4usize {
        for x in 0..4usize {
            let inside = (1..3).contains(&x) && (1..3).contains(&y);
            let (lo, hi) = if inside { (0x34, 0x12) } else { (0xAA, 0xAA) };
            assert_eq!(buf[y * 8 + 2 * x], lo);
            assert_eq!(buf[y * 8 + 2 * x + 1], hi);
        }
    }
}

#[test]
fn blt_color_fill_whole_surface() {
    let s = SurfaceImpl::new(4, 2, 16, true);
    let mut mem = memory(&s);
    let r = s.blt_impl(&mut mem, None, None, None, DDBLT_COLORFILL, Some(0x0001_BEEF));
    assert_eq!(r, Ok(true));
    for i in 0..16 {
        assert_eq!(mem[i], if i % 2 == 0 { 0xEF } else { 0xBE });
    }
    assert!(mem[16..].iter().all(|b| *b == 0));
}

#[test]
fn blt_without_fill_flag_ignores_colour() {
    let s = SurfaceImpl::new(4, 2, 16, false);
    let mut mem = memory(&s);
    assert_eq!(s.blt_impl(&mut mem, None, None, None, 0, Some(0xFFFF)), Ok(false));
    assert!(mem.iter().all(|b| *b == 0));
}

#[test]
fn blt_unscaled_copy() {
    let s = SurfaceImpl::new(4, 2, 16, false);
    let mut mem = memory(&s);
    let src = SourceCopy { data: vec![1, 2, 3, 4, 5, 6, 7, 8], width: 2, height: 2, pitch: 4 };
    let r = s.blt_impl(&mut mem, Some(Rect::new(1, 0, 3, 2)), Some(&src), None, 0, None);
    assert_eq!(r, Ok(false));
    assert_eq!(&mem[0..8], &[0, 0, 1, 2, 3, 4, 0, 0]);
    assert_eq!(&mem[8..16], &[0, 0, 5, 6, 7, 8, 0, 0]);
}

#[test]
fn blt_scaled_copy_doubles_pixels() {
    let s = SurfaceImpl::new(4, 4, 8, false);
    let mut mem = memory(&s);
    let src = SourceCopy { data: vec![1, 2, 3, 4], width: 2, height: 2, pitch: 2 };
    let r = s.blt_impl(&mut mem, None, Some(&src), None, 0, None);
    assert_eq!(r, Ok(false));
    assert_eq!(&mem[0..16], &[1, 1, 2, 2, 1, 1, 2, 2, 3, 3, 4, 4, 3, 3, 4, 4]);
}

#[test]
fn blt_refuses_reading_past_source() {
    let s = SurfaceImpl::new(4, 2, 16, false);
    let mut mem = memory(&s);
    let short = SourceCopy { data: vec![9, 9, 9], width: 4, height: 1, pitch: 3 };
    let r = s.blt_impl(&mut mem, None, Some(&short), None, DDBLT_COLORFILL, Some(0x1111));
    assert_eq!(r, Err(DdError::InvalidRect));
    assert!(mem.iter().all(|b| *b == 0));
}

#[test]
fn source_copy_from_lock() {
    let mut d = SurfaceDesc::zeroed();
    d.width = 2;
    d.height = 2;
    d.pitch = 3;
    let locked = [1u8, 2, 3, 4, 5, 6, 7, 8];
    let c = SourceCopy::from_locked(&locked, &d);
    assert_eq!(c.data, vec![1, 2, 3, 4, 5, 6]);
    assert_eq!((c.width, c.height, c.pitch), (2, 2, 3));
}

#[test]
fn copy_reads_within_checks_bounds() {
    let g = BlitGeom { dst_pitch: 8, src_pitch: 4, bpp: 2, dx0: 0, dy0: 0, dw: 2, dh: 2, sx0: 0, sy0: 0, sw: 2, sh: 2 };
    assert!(copy_reads_within(g, 8));
    assert!(!copy_reads_within(g, 7));
}

#[test]
fn flip_copies_back_buffer_to_front() {
    let s = SurfaceImpl::new(2, 2, 8, true).with_backbuffer(2, 2, 8);
    let mut front = memory(&s);
    let back = vec![7u8; 4];
    assert!(s.flip_impl(&mut front, Some(back.as_slice())));
    assert_eq!(&front[0..4], &[7, 7, 7, 7]);
    assert!(front[4..].iter().all(|b| *b == 0));
    let plain = SurfaceImpl::new(2, 2, 8, false);
    let mut mem = memory(&plain);
    assert!(!plain.flip_impl(&mut mem, None));
}

#[test]
fn blt_rect_left_of_surface_copies_nothing() {
    let s = SurfaceImpl::new(4, 2, 16, false);
    let mut mem = memory(&s);
    let src = SourceCopy { data: vec![9; 16], width: 4, height: 2, pitch: 8 };
    let r = s.blt_impl(&mut mem, Some(Rect::new(-4, 0, -1, 2)), Some(&src), None, 0, None);
    assert_eq!(r, Ok(false));
    assert!(mem.iter().all(|b| *b == 0));
}

#[test]
fn blt_source_rectangle_within_whole_source() {
    let s = SurfaceImpl::new(2, 1, 16, false);
    let mut mem = memory(&s);
    let src = SourceCopy { data: vec![1, 2, 3, 4, 5, 6, 7, 8, 9, 10, 11, 12, 13, 14, 15, 16], width: 4, height: 2, pitch: 8 };
    let r = s.blt_impl(&mut mem, None, Some(&src), Some(Rect::new(2, 1, 4, 2)), 0, None);
    assert_eq!(r, Ok(false));
    assert_eq!(&mem[0..4], &[13, 14, 15, 16]);
}
