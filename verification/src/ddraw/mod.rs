//! Display-mode bookkeeping and the object factory of the DirectDraw
//! interface: which modes are offered, what a display-mode query reports,
//! which surfaces a surface description asks for, and palettes.

pub mod clipper;
pub mod surface;

use vstd::prelude::*;
use self::surface::{SurfaceImpl, valid_dims, bytes_pp, spec_initial_caps};

verus! {

// Flags of a surface description.
pub const DDSD_CAPS: u32 = 0x1;
pub const DDSD_HEIGHT: u32 = 0x2;
pub const DDSD_WIDTH: u32 = 0x4;
pub const DDSD_PITCH: u32 = 0x8;
pub const DDSD_BACKBUFFERCOUNT: u32 = 0x20;
pub const DDSD_LPSURFACE: u32 = 0x800;
pub const DDSD_PIXELFORMAT: u32 = 0x1000;
pub const DDSD_REFRESHRATE: u32 = 0x40000;

// Flags of a pixel format.
pub const DDPF_PALETTEINDEXED8: u32 = 0x20;
pub const DDPF_RGB: u32 = 0x40;

// Surface capabilities.
pub const DDSCAPS_BACKBUFFER: u32 = 0x4;
pub const DDSCAPS_COMPLEX: u32 = 0x8;
pub const DDSCAPS_FLIP: u32 = 0x10;
pub const DDSCAPS_FRONTBUFFER: u32 = 0x20;
pub const DDSCAPS_OFFSCREENPLAIN: u32 = 0x40;
pub const DDSCAPS_PRIMARYSURFACE: u32 = 0x200;
pub const DDSCAPS_SYSTEMMEMORY: u32 = 0x800;
pub const DDSCAPS_VIDEOMEMORY: u32 = 0x4000;
pub const DDSCAPS_OWNDC: u32 = 0x40000;
pub const DDSCAPS_LOCALVIDMEM: u32 = 0x1000_0000;

// Driver capabilities.
pub const DDCAPS_BLT: u32 = 0x40;
pub const DDCAPS_BLTSTRETCH: u32 = 0x200;
pub const DDCAPS_PALETTE: u32 = 0x8000;
pub const DDCAPS_COLORKEY: u32 = 0x40_0000;
pub const DDCAPS_BLTCOLORFILL: u32 = 0x400_0000;
pub const DDCAPS_CANCLIP: u32 = 0x2000_0000;
pub const DDCAPS_CANCLIPSTRETCHED: u32 = 0x4000_0000;
pub const DDCAPS2_NOPAGELOCKREQUIRED: u32 = 0x800;
pub const DDPCAPS_8BIT: u32 = 0x4;
pub const DDPCAPS_PRIMARYSURFACE: u32 = 0x10;

/// Blit flag: fill the destination with a colour.
pub const DDBLT_COLORFILL: u32 = 0x400;

/// Cooperative-level flag: exclusive full-screen mode.
pub const DDSCL_FULLSCREEN: u32 = 0x1;

// Sizes of the DirectDraw structures this library fills.
pub const SIZE_PIXELFORMAT: u32 = 32;
pub const SIZE_SURFACEDESC: u32 = 108;
pub const SIZE_SURFACEDESC2: u32 = 124;
pub const SIZE_CAPS_DX7: u32 = 380;

/// The errors the DirectDraw objects report.
#[derive(Clone, Copy, Debug, PartialEq, Eq, Structural)]
pub enum DdError {
    /// A required argument was missing.
    InvalidArg,
    /// The call is not supported by this implementation.
    Generic,
    /// The operation is not available.
    Unsupported,
    /// The requested display mode is not supported.
    InvalidMode,
    /// A rectangle reaches outside the memory it addresses.
    InvalidRect,
}

impl DdError {
    /// The HRESULT that reports this error.
    pub fn hresult(&self) -> (r: u32)
        ensures
            r == match *self {
                DdError::InvalidArg => 0x8007_0057u32,
                DdError::Generic => 0x8000_4005u32,
                DdError::Unsupported => 0x8000_4001u32,
                DdError::InvalidMode => 0x8876_0248u32,
                DdError::InvalidRect => 0x8876_0096u32,
            },
    {
        match *self {
            DdError::InvalidArg => 0x8007_0057u32,
            DdError::Generic => 0x8000_4005u32,
            DdError::Unsupported => 0x8000_4001u32,
            DdError::InvalidMode => 0x8876_0248u32,
            DdError::InvalidRect => 0x8876_0096u32,
        }
    }
}

/// The fields of a DirectDraw pixel format that this library reads or writes.
#[derive(Clone, Copy, Debug, PartialEq, Eq, Structural)]
pub struct PixelFormat {
    pub size: u32,
    pub flags: u32,
    pub rgb_bit_count: u32,
    pub r_mask: u32,
    pub g_mask: u32,
    pub b_mask: u32,
}

/// The fields of a surface description (either layout) that this library
/// reads or writes. `surface_offset` is where the described pixels start,
/// in bytes from the start of the surface's memory.
#[derive(Clone, Copy, Debug, PartialEq, Eq, Structural)]
pub struct SurfaceDesc {
    pub size: u32,
    pub flags: u32,
    pub width: u32,
    pub height: u32,
    pub pitch: i32,
    pub refresh_rate: u32,
    pub backbuffer_count: u32,
    pub surface_offset: i32,
    pub caps: u32,
    pub pixel_format: PixelFormat,
}

impl PixelFormat {
    /// An all-zero pixel format.
    pub fn zeroed() -> (r: PixelFormat)
        ensures
            r == (PixelFormat { size: 0, flags: 0, rgb_bit_count: 0, r_mask: 0, g_mask: 0, b_mask: 0 }),
    {
        PixelFormat { size: 0, flags: 0, rgb_bit_count: 0, r_mask: 0, g_mask: 0, b_mask: 0 }
    }
}

impl SurfaceDesc {
    /// An all-zero surface description.
    pub fn zeroed() -> (r: SurfaceDesc)
        ensures
            r == SurfaceDesc::spec_zeroed(),
    {
        SurfaceDesc {
            size: 0,
            flags: 0,
            width: 0,
            height: 0,
            pitch: 0,
            refresh_rate: 0,
            backbuffer_count: 0,
            surface_offset: 0,
            caps: 0,
            pixel_format: PixelFormat::zeroed(),
        }
    }

    pub open spec fn spec_zeroed() -> SurfaceDesc {
        SurfaceDesc {
            size: 0,
            flags: 0,
            width: 0,
            height: 0,
            pitch: 0,
            refresh_rate: 0,
            backbuffer_count: 0,
            surface_offset: 0,
            caps: 0,
            pixel_format: PixelFormat { size: 0, flags: 0, rgb_bit_count: 0, r_mask: 0, g_mask: 0, b_mask: 0 },
        }
    }
}


/// The display mode and cooperation settings of the DirectDraw object.
#[derive(Clone, Copy, Debug, PartialEq, Eq, Structural)]
pub struct GlobalState {
    pub width: u32,
    pub height: u32,
    pub bpp: u32,
    pub hwnd: isize,
    pub cooperative_level: u32,
}

impl Default for GlobalState {
    /// 640 by 480 at 16 bits per pixel, no window.
    fn default() -> (r: GlobalState)
        ensures
            r == (GlobalState { width: 640, height: 480, bpp: 16, hwnd: 0, cooperative_level: 0 }),
    {
        GlobalState { width: 640, height: 480, bpp: 16, hwnd: 0, cooperative_level: 0 }
    }
}

/// The resolutions offered when the display modes are enumerated.
pub open spec fn resolutions() -> Seq<(u32, u32)> {
    seq![
        (320u32, 200u32), (320u32, 240u32), (640u32, 400u32), (640u32, 480u32),
        (800u32, 600u32), (1024u32, 768u32), (1280u32, 720u32), (1280u32, 1024u32),
        (1600u32, 900u32), (1600u32, 1200u32), (1920u32, 1080u32),
    ]
}

proof fn lemma_resolution_bounds()
    ensures
        resolutions().len() == 11,
        forall|k: int| 0 <= k < resolutions().len() ==> (#[trigger] resolutions()[k]).0 <= 1920,
{
    assert forall|k: int| 0 <= k < resolutions().len() implies (#[trigger] resolutions()[k]).0 <= 1920 by {
        if k == 0 {} else if k == 1 {} else if k == 2 {} else if k == 3 {} else if k == 4 {}
        else if k == 5 {} else if k == 6 {} else if k == 7 {} else if k == 8 {} else if k == 9 {}
        else {}
    }
}

/// The resolutions offered when the display modes are enumerated.
pub fn resolution_list() -> (r: Vec<(u32, u32)>)
    ensures
        r@ == resolutions(),
{
    let r = vec![
        (320u32, 200u32), (320u32, 240u32), (640u32, 400u32), (640u32, 480u32),
        (800u32, 600u32), (1024u32, 768u32), (1280u32, 720u32), (1280u32, 1024u32),
        (1600u32, 900u32), (1600u32, 1200u32), (1920u32, 1080u32),
    ];
    proof { assert(r@ =~= resolutions()); }
    r
}

/// Bytes per pixel of a display mode, never less than one.
pub open spec fn mode_bytes_pp(bpp: u32) -> int {
    if bpp / 8 >= 1 { (bpp / 8) as int } else { 1 }
}

/// The pitch reported for a display mode: a row of pixels rounded up to a
/// multiple of 64 bytes.
pub open spec fn mode_pitch(width: u32, bpp: u32) -> int {
    ((width * mode_bytes_pp(bpp) + 63) / 64) * 64
}

/// Whether the pitch of a mode can be computed in 32 bits.
pub open spec fn mode_pitch_ok(width: u32, bpp: u32) -> bool {
    width * mode_bytes_pp(bpp) + 63 <= u32::MAX
}

fn mode_pitch_exec(width: u32, bpp: u32) -> (r: i32)
    requires
        mode_pitch_ok(width, bpp),
    ensures
        r == mode_pitch(width, bpp) as i32,
{
    let bytes_pp = if bpp / 8 > 1 { bpp / 8 } else { 1 };
    proof {
        assert(width * bytes_pp <= width * mode_bytes_pp(bpp));
    }
    let x = width * bytes_pp + 63;
    let aligned = x & !63u32;
    proof {
        assert(aligned == (x / 64) * 64) by (bit_vector) requires aligned == x & !63u32;
    }
    aligned as i32
}

/// Fill in the pixel format of a display mode of depth `bpp`: palettized
/// at 8 bits, RGB565 masks at 16, 8-8-8 masks at 24 and 32. The masks of
/// other depths are kept.
pub fn fill_pixel_format(pf: &mut PixelFormat, bpp: u32)
    ensures
        *final(pf) == spec_mode_pf_over(*old(pf), bpp),
{
    pf.size = SIZE_PIXELFORMAT;
    pf.flags = DDPF_RGB;
    pf.rgb_bit_count = bpp;
    match bpp {
        8 => {
            pf.flags = DDPF_PALETTEINDEXED8 | DDPF_RGB;
        },
        16 => {
            pf.r_mask = 0xF800;
            pf.g_mask = 0x07E0;
            pf.b_mask = 0x001F;
        },
        24 | 32 => {
            pf.r_mask = 0xFF_0000;
            pf.g_mask = 0x00_FF00;
            pf.b_mask = 0x00_00FF;
        },
        _ => {},
    }
}

/// The pixel format of a display mode of depth `bpp`, written over `pf`:
/// palettized at 8 bits, RGB565 masks at 16, 8-8-8 masks at 24 and 32; the
/// masks of other depths are those of `pf`.
pub open spec fn spec_mode_pf_over(pf: PixelFormat, bpp: u32) -> PixelFormat {
    PixelFormat {
        size: SIZE_PIXELFORMAT,
        flags: if bpp == 8 { DDPF_PALETTEINDEXED8 | DDPF_RGB } else { DDPF_RGB },
        rgb_bit_count: bpp,
        r_mask: if bpp == 16 { 0xF800 } else if bpp == 24 || bpp == 32 { 0xFF_0000 } else { pf.r_mask },
        g_mask: if bpp == 16 { 0x07E0 } else if bpp == 24 || bpp == 32 { 0x00_FF00 } else { pf.g_mask },
        b_mask: if bpp == 16 { 0x001F } else if bpp == 24 || bpp == 32 { 0x00_00FF } else { pf.b_mask },
    }
}

/// The pixel format reported for a display mode of depth `bpp`, starting
/// from an all-zero one.
pub open spec fn spec_mode_pixel_format(bpp: u32) -> PixelFormat {
    spec_mode_pf_over(PixelFormat { size: 0, flags: 0, rgb_bit_count: 0, r_mask: 0, g_mask: 0, b_mask: 0 }, bpp)
}

/// The description of display mode `width` by `height` at `bpp` offered by
/// the enumeration.
pub open spec fn spec_mode_desc(width: u32, height: u32, bpp: u32) -> SurfaceDesc {
    SurfaceDesc {
        size: SIZE_SURFACEDESC,
        flags: DDSD_WIDTH | DDSD_HEIGHT | DDSD_PITCH | DDSD_PIXELFORMAT | DDSD_REFRESHRATE,
        width,
        height,
        pitch: mode_pitch(width, bpp) as i32,
        refresh_rate: 60,
        pixel_format: spec_mode_pixel_format(bpp),
        ..SurfaceDesc::spec_zeroed()
    }
}

/// Describe display mode `width` by `height` at `bpp` (60 Hz).
pub fn fill_mode_desc(width: u32, height: u32, bpp: u32) -> (r: SurfaceDesc)
    requires
        mode_pitch_ok(width, bpp),
    ensures
        r == spec_mode_desc(width, height, bpp),
{
    let mut desc = SurfaceDesc::zeroed();
    desc.size = SIZE_SURFACEDESC;
    desc.flags = DDSD_WIDTH | DDSD_HEIGHT | DDSD_PITCH | DDSD_PIXELFORMAT | DDSD_REFRESHRATE;
    desc.width = width;
    desc.height = height;
    desc.refresh_rate = 60;
    desc.pitch = mode_pitch_exec(width, bpp);
    fill_pixel_format(&mut desc.pixel_format, bpp);
    desc
}

/// The resolution an enumeration is restricted to: that of the filter
/// description, when it gives both width and height.
pub open spec fn spec_mode_filter(filter: Option<SurfaceDesc>) -> Option<(u32, u32)> {
    match filter {
        Some(d) if d.flags & (DDSD_WIDTH | DDSD_HEIGHT) == DDSD_WIDTH | DDSD_HEIGHT => Some((d.width, d.height)),
        _ => None,
    }
}

/// The resolution an enumeration is restricted to (see `spec_mode_filter`).
pub fn mode_filter(filter: Option<&SurfaceDesc>) -> (r: Option<(u32, u32)>)
    ensures
        r == spec_mode_filter(match filter { Some(d) => Some(*d), None => None }),
{
    match filter {
        Some(d) => {
            if (d.flags & (DDSD_WIDTH | DDSD_HEIGHT)) == (DDSD_WIDTH | DDSD_HEIGHT) {
                Some((d.width, d.height))
            } else {
                None
            }
        },
        None => None,
    }
}

/// The modes offered from resolution `i` on: each resolution passing the
/// filter at 8, 16 and 32 bits per pixel.
pub open spec fn spec_modes_from(filter: Option<(u32, u32)>, i: int) -> Seq<SurfaceDesc>
    decreases resolutions().len() - i,
{
    if i < 0 || i >= resolutions().len() {
        Seq::empty()
    } else {
        let (w, h) = resolutions()[i];
        let here = if filter is None || filter == Some((w, h)) {
            seq![spec_mode_desc(w, h, 8), spec_mode_desc(w, h, 16), spec_mode_desc(w, h, 32)]
        } else {
            Seq::empty()
        };
        here + spec_modes_from(filter, i + 1)
    }
}

/// The display modes offered by the enumeration, in order: every listed
/// resolution (or only the filter's) at 8, 16 and 32 bits per pixel. The
/// enumeration stops early when the game's callback cancels it.
pub fn display_modes(filter: Option<(u32, u32)>) -> (r: Vec<SurfaceDesc>)
    ensures
        r@ == spec_modes_from(filter, 0),
{
    let res = resolution_list();
    let mut out: Vec<SurfaceDesc> = Vec::new();
    let mut i: usize = 0;
    while i < res.len()
        invariant
            i <= res@.len(),
            res@ == resolutions(),
            spec_modes_from(filter, 0) == out@ + spec_modes_from(filter, i as int),
        decreases res@.len() - i,
    {
        proof { lemma_resolution_bounds(); }
        let (w, h) = res[i];
        assert(w <= 1920);
        assert(mode_pitch_ok(w, 8) && mode_pitch_ok(w, 16) && mode_pitch_ok(w, 32)) by {
            assert(mode_bytes_pp(8) == 1 && mode_bytes_pp(16) == 2 && mode_bytes_pp(32) == 4);
            assert(w * 4 <= 1920 * 4) by (nonlinear_arith) requires w <= 1920;
        }
        let ghost before = out@;
        let pass = match filter {
            None => true,
            Some((fw, fh)) => w == fw && h == fh,
        };
        if pass {
            out.push(fill_mode_desc(w, h, 8));
            out.push(fill_mode_desc(w, h, 16));
            out.push(fill_mode_desc(w, h, 32));
        }
        proof {
            let rest = spec_modes_from(filter, i + 1);
            assert(before + spec_modes_from(filter, i as int) =~= out@ + rest);
        }
        i = i + 1;
    }
    proof {
        assert(out@ + spec_modes_from(filter, i as int) =~= out@);
    }
    out
}

/// Whether the enumeration goes on after the callback returned `hr`: it
/// stops when the callback returns zero (cancel).
pub fn enumeration_continues(hr: i32) -> (r: bool)
    ensures
        r == (hr != 0),
{
    hr != 0
}

/// The description of the current display mode written over `old`, in the
/// layout of `size` bytes: size, pitch rounded to 64 bytes, pixel format;
/// every other field is kept.
pub open spec fn spec_current_mode_desc(g: GlobalState, old: SurfaceDesc, size: u32) -> SurfaceDesc {
    SurfaceDesc {
        size,
        flags: DDSD_WIDTH | DDSD_HEIGHT | DDSD_PIXELFORMAT,
        width: g.width,
        height: g.height,
        pitch: mode_pitch(g.width, g.bpp) as i32,
        pixel_format: spec_mode_pf_over(old.pixel_format, g.bpp),
        ..old
    }
}

/// The mode a description reports: width, height and bits per pixel.
pub open spec fn reported_mode(desc: SurfaceDesc) -> (u32, u32, u32) {
    (desc.width, desc.height, desc.pixel_format.rgb_bit_count)
}

/// The mode of a display state: width, height and bits per pixel.
pub open spec fn mode_of(g: GlobalState) -> (u32, u32, u32) {
    (g.width, g.height, g.bpp)
}

/// Describe the current display mode in the older layout, over `desc`.
pub fn fill_desc_v1(g: &GlobalState, desc: &mut SurfaceDesc)
    requires
        mode_pitch_ok(g.width, g.bpp),
    ensures
        *final(desc) == spec_current_mode_desc(*g, *old(desc), SIZE_SURFACEDESC),
        reported_mode(*final(desc)) == mode_of(*g),
{
    desc.size = SIZE_SURFACEDESC;
    desc.flags = DDSD_WIDTH | DDSD_HEIGHT | DDSD_PIXELFORMAT;
    desc.width = g.width;
    desc.height = g.height;
    desc.pitch = mode_pitch_exec(g.width, g.bpp);
    fill_pixel_format(&mut desc.pixel_format, g.bpp);
}

/// Describe the current display mode in the newer layout, over `desc`.
pub fn fill_desc_v2(g: &GlobalState, desc: &mut SurfaceDesc)
    requires
        mode_pitch_ok(g.width, g.bpp),
    ensures
        *final(desc) == spec_current_mode_desc(*g, *old(desc), SIZE_SURFACEDESC2),
        reported_mode(*final(desc)) == mode_of(*g),
{
    desc.size = SIZE_SURFACEDESC2;
    desc.flags = DDSD_WIDTH | DDSD_HEIGHT | DDSD_PIXELFORMAT;
    desc.width = g.width;
    desc.height = g.height;
    desc.pitch = mode_pitch_exec(g.width, g.bpp);
    fill_pixel_format(&mut desc.pixel_format, g.bpp);
}

/// The driver capabilities the DirectDraw object reports.
#[derive(Clone, Copy, Debug, PartialEq, Eq, Structural)]
pub struct DriverCaps {
    pub size: u32,
    pub caps: u32,
    pub caps2: u32,
    pub pal_caps: u32,
    pub vid_mem_total: u32,
    pub vid_mem_free: u32,
    pub surface_caps: u32,
}

/// Capabilities of the driver: blits (stretched, colour-filled, clipped),
/// palettes and colour keys, 16 MiB of video memory all free, and the
/// surface kinds it supports.
pub open spec fn spec_driver_caps() -> DriverCaps {
    DriverCaps {
        size: SIZE_CAPS_DX7,
        caps: DDCAPS_BLT | DDCAPS_PALETTE | DDCAPS_BLTCOLORFILL | DDCAPS_BLTSTRETCH | DDCAPS_CANCLIP
            | DDCAPS_CANCLIPSTRETCHED | DDCAPS_COLORKEY,
        caps2: DDCAPS2_NOPAGELOCKREQUIRED,
        pal_caps: DDPCAPS_8BIT | DDPCAPS_PRIMARYSURFACE,
        vid_mem_total: 0x100_0000,
        vid_mem_free: 0x100_0000,
        surface_caps: DDSCAPS_BACKBUFFER | DDSCAPS_COMPLEX | DDSCAPS_FLIP | DDSCAPS_FRONTBUFFER
            | DDSCAPS_OFFSCREENPLAIN | DDSCAPS_PRIMARYSURFACE | DDSCAPS_VIDEOMEMORY | DDSCAPS_OWNDC
            | DDSCAPS_LOCALVIDMEM,
    }
}

/// Fill in the driver capabilities.
pub fn fill_caps(caps: &mut DriverCaps)
    ensures
        *final(caps) == spec_driver_caps(),
{
    caps.size = SIZE_CAPS_DX7;
    caps.caps = DDCAPS_BLT | DDCAPS_PALETTE | DDCAPS_BLTCOLORFILL | DDCAPS_BLTSTRETCH | DDCAPS_CANCLIP
        | DDCAPS_CANCLIPSTRETCHED | DDCAPS_COLORKEY;
    caps.caps2 = DDCAPS2_NOPAGELOCKREQUIRED;
    caps.pal_caps = DDPCAPS_8BIT | DDPCAPS_PRIMARYSURFACE;
    caps.vid_mem_total = 16 * 1024 * 1024;
    caps.vid_mem_free = 16 * 1024 * 1024;
    caps.surface_caps = DDSCAPS_BACKBUFFER | DDSCAPS_COMPLEX | DDSCAPS_FLIP | DDSCAPS_FRONTBUFFER
        | DDSCAPS_OFFSCREENPLAIN | DDSCAPS_PRIMARYSURFACE | DDSCAPS_VIDEOMEMORY | DDSCAPS_OWNDC
        | DDSCAPS_LOCALVIDMEM;
}

/// Fill in the emulation capabilities: only stretched blits; the other
/// fields are kept.
pub fn fill_emulation_caps(caps: &mut DriverCaps)
    ensures
        *final(caps) == (DriverCaps { size: SIZE_CAPS_DX7, caps: DDCAPS_BLTSTRETCH, ..*old(caps) }),
{
    caps.size = SIZE_CAPS_DX7;
    caps.caps = DDCAPS_BLTSTRETCH;
}

/// The refresh rate reported for the monitor.
pub fn monitor_frequency() -> (r: u32)
    ensures
        r == 60,
{
    60
}

/// The display mode after `set_display_mode(width, height, bpp)`: a zero
/// size or depth selects 640, 480 or 16 bits per pixel.
pub open spec fn spec_set_mode(g: GlobalState, width: u32, height: u32, bpp: u32) -> GlobalState {
    GlobalState {
        width: if width > 0 { width } else { 640 },
        height: if height > 0 { height } else { 480 },
        bpp: if bpp > 0 { bpp } else { 16 },
        ..g
    }
}

/// The depths a display mode may have (0 selects the default).
pub open spec fn valid_mode_bpp(bpp: u32) -> bool {
    bpp == 0 || bpp == 8 || bpp == 16 || bpp == 32
}

/// Switch the display mode: depths other than 8, 16 and 32 bits per pixel
/// (or 0, the default) are refused; zero sizes select the defaults.
pub fn set_display_mode(g: &mut GlobalState, width: u32, height: u32, bpp: u32) -> (r: Result<(), DdError>)
    ensures
        valid_mode_bpp(bpp) ==> r is Ok && *final(g) == spec_set_mode(*old(g), width, height, bpp),
        !valid_mode_bpp(bpp) ==> r == Err::<(), DdError>(DdError::InvalidMode) && *final(g) == *old(g),
{
    if bpp != 0 && bpp != 8 && bpp != 16 && bpp != 32 {
        return Err(DdError::InvalidMode);
    }
    g.width = if width > 0 { width } else { 640 };
    g.height = if height > 0 { height } else { 480 };
    g.bpp = if bpp > 0 { bpp } else { 16 };
    Ok(())
}

/// Record the game's window and cooperation flags.
pub fn set_cooperative_level(g: &mut GlobalState, hwnd: isize, flags: u32)
    ensures
        *final(g) == (GlobalState { hwnd, cooperative_level: flags, ..*old(g) }),
{
    g.hwnd = hwnd;
    g.cooperative_level = flags;
}

/// What a surface description asks for: capabilities, size, depth (0 when
/// no pixel format is given) and back-buffer count (0 when not given).
#[derive(Clone, Copy, Debug, PartialEq, Eq, Structural)]
pub struct SurfaceRequest {
    pub caps: u32,
    pub width: u32,
    pub height: u32,
    pub bpp: u32,
    pub backbuffer_count: u32,
}

/// What a surface description asks for.
pub open spec fn spec_surface_request(desc: SurfaceDesc) -> SurfaceRequest {
    SurfaceRequest {
        caps: desc.caps,
        width: desc.width,
        height: desc.height,
        bpp: if desc.flags & DDSD_PIXELFORMAT != 0 { desc.pixel_format.rgb_bit_count } else { 0 },
        backbuffer_count: if desc.flags & DDSD_BACKBUFFERCOUNT != 0 { desc.backbuffer_count } else { 0 },
    }
}

/// What a surface description asks for (see `spec_surface_request`).
pub fn surface_request(desc: &SurfaceDesc) -> (r: SurfaceRequest)
    ensures
        r == spec_surface_request(*desc),
{
    SurfaceRequest {
        caps: desc.caps,
        width: desc.width,
        height: desc.height,
        bpp: if (desc.flags & DDSD_PIXELFORMAT) != 0 { desc.pixel_format.rgb_bit_count } else { 0 },
        backbuffer_count: if (desc.flags & DDSD_BACKBUFFERCOUNT) != 0 { desc.backbuffer_count } else { 0 },
    }
}

/// The size and depth of the surface a request creates: the display mode
/// for the primary surface; otherwise the requested size, at the requested
/// depth or the display mode's.
pub open spec fn spec_surface_dims(g: GlobalState, req: SurfaceRequest) -> (u32, u32, u32) {
    if req.caps & DDSCAPS_PRIMARYSURFACE != 0 {
        (g.width, g.height, g.bpp)
    } else {
        (req.width, req.height, if req.bpp > 0 { req.bpp } else { g.bpp })
    }
}

/// The size and depth of the surface a request creates (see
/// `spec_surface_dims`).
pub fn surface_dims(g: &GlobalState, req: &SurfaceRequest) -> (r: (u32, u32, u32))
    ensures
        r == spec_surface_dims(*g, *req),
{
    if (req.caps & DDSCAPS_PRIMARYSURFACE) != 0 {
        (g.width, g.height, g.bpp)
    } else {
        (req.width, req.height, if req.bpp > 0 { req.bpp } else { g.bpp })
    }
}

/// Whether a surface of the given size and depth can be created.
pub open spec fn creatable(dims: (u32, u32, u32)) -> bool {
    &&& dims.0 <= i32::MAX
    &&& dims.1 <= i32::MAX
    &&& dims.2 <= i32::MAX
    &&& valid_dims(dims.0 as i32, dims.1 as i32, dims.2 as i32)
}

/// Whether a surface of the given size and depth can be created.
pub fn surface_creatable(dims: (u32, u32, u32)) -> (r: bool)
    ensures
        r == creatable(dims),
{
    let (w, h, b) = dims;
    if w > 0x7FFF_FFFF || h > 0x7FFF_FFFF || b > 0x7FFF_FFFF {
        return false;
    }
    if w < 1 || h < 1 || b < 1 || b > 32 {
        return false;
    }
    let bytes_pp: u64 = if b >= 8 { (b / 8) as u64 } else { 1 };
    assert(1 <= bytes_pp <= 4);
    proof {
        assert((w as u64) * bytes_pp <= 0x7FFF_FFFF * 4) by (nonlinear_arith)
            requires w <= 0x7FFF_FFFF, bytes_pp <= 4;
    }
    let total = (w as u64) * bytes_pp;
    if total > 0x7FFF_FFFF {
        proof {
            assert(total * (h as u64 + 200) >= total) by (nonlinear_arith)
                requires h >= 1;
        }
        return false;
    }
    let rows = (h as u64) + 200;
    proof {
        assert(total * rows <= 0x7FFF_FFFF * (0x7FFF_FFFF + 200)) by (nonlinear_arith)
            requires total <= 0x7FFF_FFFF, rows <= 0x7FFF_FFFF + 200;
    }
    total * rows <= 0x7FFF_FFFF
}

/// The surface a request creates: of the size and depth given by
/// `spec_surface_dims`; a flipping primary is also the front buffer and,
/// when back buffers are asked for, gets one back buffer of its size.
pub fn create_surface_from_desc(g: &GlobalState, req: &SurfaceRequest) -> (r: SurfaceImpl)
    requires
        creatable(spec_surface_dims(*g, *req)),
    ensures
        r.wf(),
        r.width == spec_surface_dims(*g, *req).0 as i32,
        r.height == spec_surface_dims(*g, *req).1 as i32,
        r.bpp == spec_surface_dims(*g, *req).2 as i32,
        r.pitch == r.width * bytes_pp(r.bpp),
        r.is_primary == (req.caps & DDSCAPS_PRIMARYSURFACE != 0),
        r.caps == (if r.is_primary && req.caps & DDSCAPS_FLIP != 0 {
            spec_initial_caps(r.is_primary) | DDSCAPS_FRONTBUFFER
        } else {
            spec_initial_caps(r.is_primary)
        }),
        r.backbuffer is Some <==> (r.is_primary && req.caps & DDSCAPS_FLIP != 0 && req.backbuffer_count > 0),
        r.backbuffer matches Some(bb) ==> bb == r.buffers,
{
    let is_primary = (req.caps & DDSCAPS_PRIMARYSURFACE) != 0;
    let has_flip = (req.caps & DDSCAPS_FLIP) != 0;
    let (width, height, bpp) = if is_primary {
        (g.width, g.height, g.bpp)
    } else {
        let b = if req.bpp > 0 { req.bpp } else { g.bpp };
        (req.width, req.height, b)
    };
    let mut surface = SurfaceImpl::new(width as i32, height as i32, bpp as i32, is_primary);
    if is_primary && has_flip {
        surface.caps = surface.caps | DDSCAPS_FRONTBUFFER;
        if req.backbuffer_count > 0 {
            surface = surface.with_backbuffer(width as i32, height as i32, bpp as i32);
        }
    }
    surface
}

/// One colour of a palette as the game gives it.
#[derive(Clone, Copy, Debug, PartialEq, Eq, Structural)]
pub struct PaletteEntry {
    pub red: u8,
    pub green: u8,
    pub blue: u8,
    pub flags: u8,
}

/// A 256-colour palette: its creation flags and its entries in DIB order
/// (blue, green, red, flags).
#[derive(Debug)]
pub struct Palette {
    pub flags: u32,
    pub entries: Vec<[u8; 4]>,
}

/// A new palette: 256 entries taken from `colors` when given, black
/// otherwise.
pub fn create_palette(flags: u32, colors: Option<&[PaletteEntry]>) -> (r: Palette)
    requires
        colors matches Some(c) ==> c@.len() >= 256,
    ensures
        r.flags == flags,
        r.entries@.len() == 256,
        forall|i: int| 0 <= i < 256 ==> (#[trigger] r.entries@[i])@ == match colors {
            Some(c) => seq![c@[i].blue, c@[i].green, c@[i].red, c@[i].flags],
            None => seq![0u8, 0u8, 0u8, 0u8],
        },
{
    let mut entries: Vec<[u8; 4]> = Vec::new();
    let mut i: usize = 0;
    while i < 256
        invariant
            i <= 256,
            entries@.len() == i,
            colors matches Some(c) ==> c@.len() >= 256,
            forall|j: int| 0 <= j < i ==> (#[trigger] entries@[j])@ == match colors {
                Some(c) => seq![c@[j].blue, c@[j].green, c@[j].red, c@[j].flags],
                None => seq![0u8, 0u8, 0u8, 0u8],
            },
        decreases 256 - i,
    {
        let e: [u8; 4] = match colors {
            Some(c) => {
                let pe = c[i];
                [pe.blue, pe.green, pe.red, pe.flags]
            },
            None => [0u8; 4],
        };
        proof {
            match colors {
                Some(c) => assert(e@ =~= seq![c@[i as int].blue, c@[i as int].green, c@[i as int].red, c@[i as int].flags]),
                None => assert(e@ =~= seq![0u8, 0u8, 0u8, 0u8]),
            }
        }
        entries.push(e);
        i = i + 1;
    }
    Palette { flags, entries }
}

/// A display-mode query made after a successful mode switch reports the
/// mode that was set, a zero width, height or depth reading as 640, 480
/// and 16 bits per pixel.
pub proof fn law_mode_read_after_write(g: GlobalState, width: u32, height: u32, bpp: u32, desc: SurfaceDesc)
    requires
        valid_mode_bpp(bpp),
        reported_mode(desc) == mode_of(spec_set_mode(g, width, height, bpp)),
    ensures
        reported_mode(desc) == (
            if width > 0 { width } else { 640u32 },
            if height > 0 { height } else { 480u32 },
            if bpp > 0 { bpp } else { 16u32 },
        ),
{
}

/// After a successful mode switch the primary surface is created at the
/// new mode's size and depth, whatever size the request gave.
pub proof fn law_primary_follows_mode(g: GlobalState, width: u32, height: u32, bpp: u32, req: SurfaceRequest)
    requires
        valid_mode_bpp(bpp),
        req.caps & DDSCAPS_PRIMARYSURFACE != 0,
    ensures
        spec_surface_dims(spec_set_mode(g, width, height, bpp), req) == mode_of(spec_set_mode(g, width, height, bpp)),
        spec_surface_dims(spec_set_mode(g, width, height, bpp), req) == (
            if width > 0 { width } else { 640u32 },
            if height > 0 { height } else { 480u32 },
            if bpp > 0 { bpp } else { 16u32 },
        ),
{
}

/// Whether `m` is one of the offered modes: a listed resolution at 8, 16
/// or 32 bits per pixel, described as `spec_mode_desc` does.
pub open spec fn is_offered_mode(m: SurfaceDesc) -> bool {
    exists|k: int| 0 <= k < resolutions().len() && {
        let (w, h) = #[trigger] resolutions()[k];
        m == spec_mode_desc(w, h, 8) || m == spec_mode_desc(w, h, 16) || m == spec_mode_desc(w, h, 32)
    }
}

proof fn lemma_modes_from(filter: Option<(u32, u32)>, i: int)
    requires
        0 <= i,
    ensures
        forall|k: int| 0 <= k < spec_modes_from(filter, i).len() ==> {
            let m = #[trigger] spec_modes_from(filter, i)[k];
            &&& is_offered_mode(m)
            &&& (filter matches Some(f) ==> m.width == f.0 && m.height == f.1)
        },
    decreases resolutions().len() - i,
{
    if i < resolutions().len() {
        lemma_modes_from(filter, i + 1);
        let (w, h) = resolutions()[i];
        let here = if filter is None || filter == Some((w, h)) {
            seq![spec_mode_desc(w, h, 8), spec_mode_desc(w, h, 16), spec_mode_desc(w, h, 32)]
        } else {
            Seq::<SurfaceDesc>::empty()
        };
        let rest = spec_modes_from(filter, i + 1);
        assert(spec_modes_from(filter, i) == here + rest);
        assert forall|k: int| 0 <= k < spec_modes_from(filter, i).len() implies {
            let m = #[trigger] spec_modes_from(filter, i)[k];
            &&& is_offered_mode(m)
            &&& (filter matches Some(f) ==> m.width == f.0 && m.height == f.1)
        } by {
            if k < here.len() {
                assert(spec_modes_from(filter, i)[k] == here[k]);
                assert(resolutions()[i] == (w, h));
            } else {
                assert(spec_modes_from(filter, i)[k] == rest[k - here.len()]);
            }
        }
    }
}

/// Every mode the enumeration offers is a listed resolution at 8, 16 or
/// 32 bits per pixel, and under a filter it has the filter's size.
pub proof fn law_enumeration_respects_filter(filter: Option<(u32, u32)>, k: int)
    requires
        0 <= k < spec_modes_from(filter, 0).len(),
    ensures
        is_offered_mode(spec_modes_from(filter, 0)[k]),
        filter matches Some(f) ==> spec_modes_from(filter, 0)[k].width == f.0
            && spec_modes_from(filter, 0)[k].height == f.1,
{
    lemma_modes_from(filter, 0);
}

} // verus!
