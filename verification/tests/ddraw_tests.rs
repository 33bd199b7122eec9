use rs_ddraw::ddraw::{
    create_palette, create_surface_from_desc, display_modes, enumeration_continues, fill_caps, fill_desc_v1,
    fill_desc_v2, fill_emulation_caps, fill_mode_desc, mode_filter, monitor_frequency, resolution_list,
    set_cooperative_level, set_display_mode, surface_creatable, surface_dims, surface_request, DdError, DriverCaps,
    GlobalState, PaletteEntry, SurfaceDesc, SurfaceRequest, DDCAPS_BLTSTRETCH, DDPF_PALETTEINDEXED8, DDPF_RGB,
    DDSCAPS_BACKBUFFER, DDSCAPS_FLIP, DDSCAPS_FRONTBUFFER, DDSCAPS_OFFSCREENPLAIN, DDSCAPS_PRIMARYSURFACE,
    DDSD_BACKBUFFERCOUNT, DDSD_HEIGHT, DDSD_PIXELFORMAT, DDSD_WIDTH, SIZE_CAPS_DX7, SIZE_SURFACEDESC,
    SIZE_SURFACEDESC2,
};

fn zero_caps() -> DriverCaps {
    DriverCaps { size: 0, caps: 0, caps2: 0, pal_caps: 0, vid_mem_total: 0, vid_mem_free: 0, surface_caps: 0 }
}

#[test]
fn default_mode_is_640x480x16() {
    let g = GlobalState::default();
    assert_eq!((g.width, g.height, g.bpp), (640, 480, 16));
}

#[test]
fn set_display_mode_then_query_reports_it() {
    let mut g = GlobalState::default();
    assert_eq!(set_display_mode(&mut g, 800, 600, 32), Ok(()));
    let mut d = SurfaceDesc::zeroed();
    fill_desc_v1(&g, &mut d);
    assert_eq!(d.size, SIZE_SURFACEDESC);
    assert_eq!((d.width, d.height, d.pixel_format.rgb_bit_count), (800, 600, 32));
    assert_eq!(d.pitch, 3200);
    assert_eq!(d.pixel_format.r_mask, 0xFF_0000);
    let mut d2 = SurfaceDesc::zeroed();
    fill_desc_v2(&g, &mut d2);
    assert_eq!(d2.size, SIZE_SURFACEDESC2);
    assert_eq!((d2.width, d2.height), (800, 600));
}

#[test]
fn set_display_mode_zero_selects_defaults() {
    let mut g = GlobalState { width: 1024, height: 768, bpp: 8, hwnd: 0, cooperative_level: 0 };
    assert_eq!(set_display_mode(&mut g, 0, 0, 0), Ok(()));
    assert_eq!((g.width, g.height, g.bpp), (640, 480, 16));
}

#[test]
fn set_display_mode_refuses_bad_depth() {
    let mut g = GlobalState::default();
    assert_eq!(set_display_mode(&mut g, 800, 600, 24), Err(DdError::InvalidMode));
    assert_eq!(g, GlobalState::default());
    assert_eq!(DdError::InvalidMode.hresult(), 0x8876_0248);
    assert_eq!(DdError::InvalidRect.hresult(), 0x8876_0096);
    assert_eq!(DdError::Generic.hresult(), 0x8000_4005);
}

#[test]
fn mode_pitch_rounds_to_64_bytes() {
    let d = fill_mode_desc(320, 200, 8);
    assert_eq!(d.pitch, 320);
    let d = fill_mode_desc(1, 1, 16);
    assert_eq!(d.pitch, 64);
    let d = fill_mode_desc(100, 100, 16);
    assert_eq!(d.pitch, 256);
    assert_eq!(d.refresh_rate, 60);
    assert_eq!(d.pixel_format.flags, DDPF_RGB);
    assert_eq!((d.pixel_format.r_mask, d.pixel_format.g_mask, d.pixel_format.b_mask), (0xF800, 0x07E0, 0x001F));
    let d8 = fill_mode_desc(640, 480, 8);
    assert_eq!(d8.pixel_format.flags, DDPF_PALETTEINDEXED8 | DDPF_RGB);
}

#[test]
fn enumeration_offers_every_resolution_at_three_depths() {
    let modes = display_modes(None);
    assert_eq!(modes.len(), 33);
    assert_eq!(resolution_list().len(), 11);
    assert_eq!((modes[0].width, modes[0].height, modes[0].pixel_format.rgb_bit_count), (320, 200, 8));
    assert_eq!(modes[1].pixel_format.rgb_bit_count, 16);
    assert_eq!(modes[2].pixel_format.rgb_bit_count, 32);
    assert_eq!((modes[32].width, modes[32].height), (1920, 1080));
}

#[test]
fn enumeration_respects_filter() {
    let mut f = SurfaceDesc::zeroed();
    f.flags = DDSD_WIDTH | DDSD_HEIGHT;
    f.width = 800;
    f.height = 600;
    let filter = mode_filter(Some(&f));
    assert_eq!(filter, Some((800, 600)));
    let modes = display_modes(filter);
    assert_eq!(modes.len(), 3);
    for m in modes.iter() {
        assert_eq!((m.width, m.height), (800, 600));
    }
    f.flags = DDSD_WIDTH;
    assert_eq!(mode_filter(Some(&f)), None);
    assert_eq!(display_modes(Some((801, 600))).len(), 0);
}

#[test]
fn enumeration_stops_on_cancel() {
    assert!(enumeration_continues(1));
    assert!(!enumeration_continues(0));
}

#[test]
fn caps_report() {
    let mut c = zero_caps();
    fill_caps(&mut c);
    assert_eq!(c.size, SIZE_CAPS_DX7);
    assert_eq!(c.vid_mem_total, 16 * 1024 * 1024);
    assert_eq!(c.vid_mem_free, 16 * 1024 * 1024);
    let mut e = zero_caps();
    e.caps2 = 7;
    fill_emulation_caps(&mut e);
    assert_eq!(e.caps, DDCAPS_BLTSTRETCH);
    assert_eq!(e.caps2, 7);
    assert_eq!(monitor_frequency(), 60);
}

#[test]
fn cooperative_level_recorded() {
    let mut g = GlobalState::default();
    set_cooperative_level(&mut g, 1234, 0x11);
    assert_eq!(g.hwnd, 1234);
    assert_eq!(g.cooperative_level, 0x11);
    assert_eq!(g.width, 640);
}

#[test]
fn surface_request_reads_optional_fields() {
    let mut d = SurfaceDesc::zeroed();
    d.caps = DDSCAPS_OFFSCREENPLAIN;
    d.width = 10;
    d.height = 20;
    d.pixel_format.rgb_bit_count = 32;
    d.backbuffer_count = 2;
    let r = surface_request(&d);
    assert_eq!(r, SurfaceRequest { caps: DDSCAPS_OFFSCREENPLAIN, width: 10, height: 20, bpp: 0, backbuffer_count: 0 });
    d.flags = DDSD_PIXELFORMAT | DDSD_BACKBUFFERCOUNT;
    let r = surface_request(&d);
    assert_eq!(r.bpp, 32);
    assert_eq!(r.backbuffer_count, 2);
}

#[test]
fn primary_surface_takes_display_mode_size() {
    let mut g = GlobalState::default();
    set_display_mode(&mut g, 320, 240, 8).unwrap();
    let req = SurfaceRequest { caps: DDSCAPS_PRIMARYSURFACE | DDSCAPS_FLIP, width: 5, height: 5, bpp: 32, backbuffer_count: 1 };
    assert!(surface_creatable((g.width, g.height, g.bpp)));
    let s = create_surface_from_desc(&g, &req);
    assert_eq!((s.width, s.height, s.bpp), (320, 240, 8));
    assert_eq!(s.pitch, 320);
    assert!(s.is_primary);
    assert!(s.caps & DDSCAPS_FRONTBUFFER != 0);
    assert!(s.backbuffer.is_some());
    let bb = s.get_attached_impl(DDSCAPS_BACKBUFFER).unwrap();
    assert_eq!(bb.caps & DDSCAPS_BACKBUFFER, DDSCAPS_BACKBUFFER);
    assert!(!bb.is_primary);
}

#[test]
fn offscreen_surface_uses_requested_size() {
    let g = GlobalState::default();
    let req = SurfaceRequest { caps: DDSCAPS_OFFSCREENPLAIN, width: 64, height: 32, bpp: 0, backbuffer_count: 0 };
    let s = create_surface_from_desc(&g, &req);
    assert_eq!((s.width, s.height, s.bpp, s.pitch), (64, 32, 16, 128));
    assert!(!s.is_primary);
    assert!(s.backbuffer.is_none());
    assert!(matches!(s.get_attached_impl(DDSCAPS_BACKBUFFER), Err(DdError::Generic)));
    let flip_req = SurfaceRequest { caps: DDSCAPS_FLIP, ..req };
    let t = create_surface_from_desc(&g, &flip_req);
    assert!(t.backbuffer.is_none());
}

#[test]
fn surface_creatable_limits() {
    assert!(surface_creatable((640, 480, 16)));
    assert!(!surface_creatable((0, 480, 16)));
    assert!(!surface_creatable((640, 0, 16)));
    assert!(!surface_creatable((640, 480, 33)));
    assert!(!surface_creatable((100_000, 100_000, 32)));
    assert!(!surface_creatable((u32::MAX, 1, 8)));
}

#[test]
fn palette_copies_given_entries() {
    let mut entries: Vec<PaletteEntry> = Vec::new();
    for i in 0..256u32 {
        entries.push(PaletteEntry { red: i as u8, green: 2, blue: 3, flags: 4 });
    }
    let p = create_palette(9, Some(entries.as_slice()));
    assert_eq!(p.flags, 9);
    assert_eq!(p.entries.len(), 256);
    assert_eq!(p.entries[0], [3, 2, 0, 4]);
    assert_eq!(p.entries[200], [3, 2, 200, 4]);
    let q = create_palette(0, None);
    assert_eq!(q.entries.len(), 256);
    assert!(q.entries.iter().all(|e| *e == [0, 0, 0, 0]));
}

#[test]
fn surface_dims_by_kind() {
    let g = GlobalState { width: 800, height: 600, bpp: 32, hwnd: 0, cooperative_level: 0 };
    let prim = SurfaceRequest { caps: DDSCAPS_PRIMARYSURFACE, width: 1, height: 2, bpp: 8, backbuffer_count: 0 };
    assert_eq!(surface_dims(&g, &prim), (800, 600, 32));
    let off = SurfaceRequest { caps: DDSCAPS_OFFSCREENPLAIN, width: 10, height: 20, bpp: 0, backbuffer_count: 0 };
    assert_eq!(surface_dims(&g, &off), (10, 20, 32));
    let off8 = SurfaceRequest { bpp: 8, ..off };
    assert_eq!(surface_dims(&g, &off8), (10, 20, 8));
}
