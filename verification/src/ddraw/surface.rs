//! DirectDraw surfaces: the layout of a surface's pixel memory, the
//! descriptions handed out by Lock and GetSurfaceDesc, and the pixel work of
//! Blt and Flip. The pixel memory itself (a DIB section) is allocated by the
//! caller; the operations here take it as a byte slice.

use vstd::prelude::*;
use crate::geometry::Rect;
use super::{
    DdError, PixelFormat, SurfaceDesc, DDBLT_COLORFILL, DDPF_PALETTEINDEXED8, DDPF_RGB,
    DDSCAPS_BACKBUFFER, DDSCAPS_OFFSCREENPLAIN, DDSCAPS_PRIMARYSURFACE, DDSCAPS_SYSTEMMEMORY,
    DDSCAPS_VIDEOMEMORY, DDSD_CAPS, DDSD_HEIGHT, DDSD_LPSURFACE, DDSD_PITCH, DDSD_PIXELFORMAT,
    DDSD_WIDTH, SIZE_PIXELFORMAT, SIZE_SURFACEDESC, SIZE_SURFACEDESC2,
};

verus! {

/// Scanlines allocated below every surface, so that games which write past
/// the bottom of the frame buffer stay inside the allocation.
pub const GUARD_LINES: i32 = 200;

/// Compression tag of a DIB whose colour layout is given by bit masks.
pub const BI_BITFIELDS: u32 = 3;

/// Bytes one pixel occupies at `bpp` bits per pixel, never less than one.
pub open spec fn bytes_pp(bpp: i32) -> int {
    if bpp >= 8 { (bpp / 8) as int } else { 1 }
}

/// Bytes one pixel occupies at `bpp` bits per pixel, never less than one.
pub fn bytes_per_pixel(bpp: i32) -> (r: i32)
    ensures
        r == bytes_pp(bpp),
        r >= 1,
{
    if bpp >= 8 { bpp / 8 } else { 1 }
}

/// Pixel-format flags of a surface of the given depth.
pub open spec fn spec_pixel_type(bpp: i32) -> u32 {
    if bpp == 8 { DDPF_PALETTEINDEXED8 | DDPF_RGB } else { DDPF_RGB }
}

/// Pixel-format flags of a surface of the given depth.
pub fn pixel_type(bpp: i32) -> (r: u32)
    ensures
        r == spec_pixel_type(bpp),
{
    match bpp {
        8 => DDPF_PALETTEINDEXED8 | DDPF_RGB,
        _ => DDPF_RGB,
    }
}

/// Colour masks (red, green, blue) of a surface: 32-bit surfaces are BGRX,
/// 16-bit ones RGB555 or RGB565 as configured.
pub open spec fn spec_masks(bpp: i32, rgb555: bool) -> (u32, u32, u32) {
    if bpp == 32 {
        (0x00FF_0000u32, 0x0000_FF00u32, 0x0000_00FFu32)
    } else if rgb555 {
        (0x7C00u32, 0x03E0u32, 0x001Fu32)
    } else {
        (0xF800u32, 0x07E0u32, 0x001Fu32)
    }
}

/// The pixel format of a surface of depth `bpp`, written over `pf`: the
/// colour masks are written only for 16-bit surfaces; other depths keep
/// those of `pf`.
pub open spec fn spec_surface_pf(pf: PixelFormat, bpp: i32, rgb555: bool) -> PixelFormat {
    PixelFormat {
        size: SIZE_PIXELFORMAT,
        flags: spec_pixel_type(bpp),
        rgb_bit_count: bpp as u32,
        r_mask: if bpp == 16 { spec_masks(bpp, rgb555).0 } else { pf.r_mask },
        g_mask: if bpp == 16 { spec_masks(bpp, rgb555).1 } else { pf.g_mask },
        b_mask: if bpp == 16 { spec_masks(bpp, rgb555).2 } else { pf.b_mask },
    }
}

/// Fill in the pixel format of a surface of depth `bpp` (see
/// `spec_surface_pf`).
pub fn fill_pixel_format(pf: &mut PixelFormat, bpp: i32, rgb555: bool)
    ensures
        *final(pf) == spec_surface_pf(*old(pf), bpp, rgb555),
{
    pf.size = SIZE_PIXELFORMAT;
    pf.flags = pixel_type(bpp);
    pf.rgb_bit_count = bpp as u32;
    if bpp == 16 {
        if rgb555 {
            pf.r_mask = 0x7C00;
            pf.g_mask = 0x03E0;
            pf.b_mask = 0x001F;
        } else {
            pf.r_mask = 0xF800;
            pf.g_mask = 0x07E0;
            pf.b_mask = 0x001F;
        }
    }
}

/// Layout of a surface's pixel memory: `pitch` bytes per row, `height`
/// visible rows followed by the guard rows.
#[derive(Clone, Copy, Debug, PartialEq, Eq, Structural)]
pub struct SurfaceBuffers {
    pub width: i32,
    pub height: i32,
    pub pitch: i32,
    pub bpp: i32,
}

/// The header of the DIB section that backs a surface: a top-down bitmap
/// (negative height) with the guard rows included, described by bit masks.
#[derive(Clone, Copy, Debug, PartialEq, Eq, Structural)]
pub struct DibInfo {
    pub width: i32,
    pub height: i32,
    pub planes: u16,
    pub bit_count: u16,
    pub compression: u32,
    pub r_mask: u32,
    pub g_mask: u32,
    pub b_mask: u32,
}

/// Dimensions a surface can be created with: positive, 1 to 32 bits per
/// pixel, and small enough that every byte of the memory (guard rows
/// included) has an `i32` offset.
pub open spec fn valid_dims(width: i32, height: i32, bpp: i32) -> bool {
    &&& 1 <= width
    &&& 1 <= height
    &&& 1 <= bpp <= 32
    &&& width * bytes_pp(bpp) * (height + GUARD_LINES) <= i32::MAX
}

impl SurfaceBuffers {
    /// Well-formed layout: valid dimensions and a pitch of one packed row.
    pub open spec fn wf(self) -> bool {
        &&& valid_dims(self.width, self.height, self.bpp)
        &&& self.pitch == self.width * bytes_pp(self.bpp)
    }

    /// Bytes of memory the layout needs, guard rows included.
    pub open spec fn mem_len(self) -> int {
        self.pitch * (self.height + GUARD_LINES)
    }
}

proof fn lemma_dims_bounds(width: i32, height: i32, bpp: i32)
    requires
        valid_dims(width, height, bpp),
    ensures
        1 <= bytes_pp(bpp) <= 4,
        width <= width * bytes_pp(bpp),
        width * bytes_pp(bpp) <= width * bytes_pp(bpp) * height,
        width * bytes_pp(bpp) * height <= width * bytes_pp(bpp) * (height + GUARD_LINES),
        width * bytes_pp(bpp) * (height + GUARD_LINES) == width * bytes_pp(bpp) * height
            + width * bytes_pp(bpp) * GUARD_LINES,
        height + GUARD_LINES <= width * bytes_pp(bpp) * (height + GUARD_LINES),
{
    let b = bytes_pp(bpp);
    assert(width <= width * b) by (nonlinear_arith)
        requires 1 <= b, 1 <= width;
    let p = width * b;
    assert(p <= p * height) by (nonlinear_arith)
        requires 1 <= p, 1 <= height;
    assert(p * height <= p * (height + GUARD_LINES)) by (nonlinear_arith)
        requires 1 <= p, 1 <= height;
    assert(p * (height + GUARD_LINES) == p * height + p * GUARD_LINES) by (nonlinear_arith);
    assert(height + GUARD_LINES <= p * (height + GUARD_LINES)) by (nonlinear_arith)
        requires 1 <= p, 1 <= height;
}

/// The DIB header and memory layout for a surface of the given size.
pub fn make_buffers(width: i32, height: i32, bpp: i32, rgb555: bool) -> (r: (DibInfo, SurfaceBuffers))
    requires
        valid_dims(width, height, bpp),
    ensures
        r.1.wf(),
        r.1 == (SurfaceBuffers { width, height, pitch: (width * bytes_pp(bpp)) as i32, bpp }),
        r.0 == (DibInfo {
            width,
            height: -(height + GUARD_LINES) as i32,
            planes: 1,
            bit_count: bpp as u16,
            compression: BI_BITFIELDS,
            r_mask: spec_masks(bpp, rgb555).0,
            g_mask: spec_masks(bpp, rgb555).1,
            b_mask: spec_masks(bpp, rgb555).2,
        }),
{
    proof { lemma_dims_bounds(width, height, bpp); }
    let bytes_pp = bytes_per_pixel(bpp);
    let pitch = width * bytes_pp;
    let dev_height = height + GUARD_LINES;
    let (r_mask, g_mask, b_mask) = if bpp == 32 {
        (0x00FF_0000u32, 0x0000_FF00u32, 0x0000_00FFu32)
    } else if rgb555 {
        (0x7C00u32, 0x03E0u32, 0x001Fu32)
    } else {
        (0xF800u32, 0x07E0u32, 0x001Fu32)
    };
    let info = DibInfo {
        width,
        height: -dev_height,
        planes: 1,
        bit_count: bpp as u16,
        compression: BI_BITFIELDS,
        r_mask,
        g_mask,
        b_mask,
    };
    (info, SurfaceBuffers { width, height, pitch, bpp })
}


/// Capabilities of a new surface: the primary lives in video memory, every
/// other surface is an off-screen plain surface in system memory.
pub open spec fn spec_initial_caps(is_primary: bool) -> u32 {
    if is_primary {
        DDSCAPS_PRIMARYSURFACE | DDSCAPS_VIDEOMEMORY
    } else {
        DDSCAPS_OFFSCREENPLAIN | DDSCAPS_SYSTEMMEMORY
    }
}

/// Capabilities of the surface handed out for an attached back buffer.
pub open spec fn spec_backbuffer_caps() -> u32 {
    DDSCAPS_BACKBUFFER | DDSCAPS_OFFSCREENPLAIN | DDSCAPS_SYSTEMMEMORY
}

/// Flags of a description filled from a surface.
pub open spec fn spec_desc_flags() -> u32 {
    DDSD_CAPS | DDSD_WIDTH | DDSD_HEIGHT | DDSD_PITCH | DDSD_PIXELFORMAT | DDSD_LPSURFACE
}

/// A DirectDraw surface: its size and format, its capabilities, the layout
/// of its pixel memory and, for a flipping primary, of its back buffer.
#[derive(Clone, Copy, Debug)]
pub struct SurfaceImpl {
    pub width: i32,
    pub height: i32,
    pub bpp: i32,
    pub pitch: i32,
    pub caps: u32,
    pub is_primary: bool,
    pub buffers: SurfaceBuffers,
    pub backbuffer: Option<SurfaceBuffers>,
}

impl SurfaceImpl {
    /// Well-formed surface: its size and format are those of its memory.
    pub open spec fn wf(self) -> bool {
        &&& self.buffers.wf()
        &&& self.width == self.buffers.width
        &&& self.height == self.buffers.height
        &&& self.bpp == self.buffers.bpp
        &&& self.pitch == self.buffers.pitch
        &&& (self.backbuffer matches Some(bb) ==> bb.wf())
    }

    /// A new surface of the given size with memory laid out by `make_buffers`.
    pub fn new(width: i32, height: i32, bpp: i32, is_primary: bool) -> (r: SurfaceImpl)
        requires
            valid_dims(width, height, bpp),
        ensures
            r.wf(),
            r.width == width,
            r.height == height,
            r.bpp == bpp,
            r.pitch == width * bytes_pp(bpp),
            r.caps == spec_initial_caps(is_primary),
            r.is_primary == is_primary,
            r.backbuffer is None,
    {
        let (_info, buffers) = make_buffers(width, height, bpp, false);
        let caps = if is_primary {
            DDSCAPS_PRIMARYSURFACE | DDSCAPS_VIDEOMEMORY
        } else {
            DDSCAPS_OFFSCREENPLAIN | DDSCAPS_SYSTEMMEMORY
        };
        SurfaceImpl {
            width,
            height,
            bpp,
            pitch: buffers.pitch,
            caps,
            is_primary,
            buffers,
            backbuffer: None,
        }
    }

    /// Attach a back buffer with its own memory of the given size.
    pub fn with_backbuffer(self, width: i32, height: i32, bpp: i32) -> (r: SurfaceImpl)
        requires
            self.wf(),
            valid_dims(width, height, bpp),
        ensures
            r.wf(),
            r == (SurfaceImpl {
                backbuffer: Some(SurfaceBuffers { width, height, pitch: (width * bytes_pp(bpp)) as i32, bpp }),
                ..self
            }),
    {
        let (_info, bb) = make_buffers(width, height, bpp, false);
        let mut s = self;
        s.backbuffer = Some(bb);
        s
    }

    /// A surface over existing memory.
    pub fn from_buffers(buffers: SurfaceBuffers, width: i32, height: i32, bpp: i32, is_primary: bool) -> (r: SurfaceImpl)
        ensures
            r == (SurfaceImpl {
                width,
                height,
                bpp,
                pitch: buffers.pitch,
                caps: spec_initial_caps(is_primary),
                is_primary,
                buffers,
                backbuffer: None,
            }),
    {
        let caps = if is_primary {
            DDSCAPS_PRIMARYSURFACE | DDSCAPS_VIDEOMEMORY
        } else {
            DDSCAPS_OFFSCREENPLAIN | DDSCAPS_SYSTEMMEMORY
        };
        SurfaceImpl { width, height, bpp, pitch: buffers.pitch, caps, is_primary, buffers, backbuffer: None }
    }

    /// The description a lock of `rect` (or of the whole surface) writes
    /// over `old`, in the layout of `size` bytes: the surface's size, pitch,
    /// capabilities and pixel format, the pixels starting at the beginning
    /// of its memory; for a rectangle, its size and the offset of its
    /// top-left pixel. The refresh rate and back-buffer count are kept.
    pub open spec fn spec_locked_desc(self, old: SurfaceDesc, rect: Option<Rect>, rgb555: bool, size: u32) -> SurfaceDesc {
        let whole = SurfaceDesc {
            size,
            flags: spec_desc_flags(),
            width: self.width as u32,
            height: self.height as u32,
            pitch: self.pitch,
            surface_offset: 0,
            caps: self.caps,
            pixel_format: spec_surface_pf(old.pixel_format, self.bpp, rgb555),
            ..old
        };
        match rect {
            None => whole,
            Some(r) => SurfaceDesc {
                width: (r.right - r.left) as u32,
                height: (r.bottom - r.top) as u32,
                surface_offset: self.lock_offset(r) as i32,
                ..whole
            },
        }
    }

    /// The description of the whole surface, written over `desc`: the pixels
    /// start at the beginning of the surface's memory.
    pub fn fill_desc2(&self, desc: &mut SurfaceDesc, rgb555: bool)
        ensures
            *final(desc) == self.spec_locked_desc(*old(desc), None, rgb555, SIZE_SURFACEDESC2),
    {
        desc.size = SIZE_SURFACEDESC2;
        desc.flags = DDSD_CAPS | DDSD_WIDTH | DDSD_HEIGHT | DDSD_PITCH | DDSD_PIXELFORMAT | DDSD_LPSURFACE;
        desc.width = self.width as u32;
        desc.height = self.height as u32;
        desc.pitch = self.pitch;
        desc.surface_offset = 0;
        desc.caps = self.caps;
        fill_pixel_format(&mut desc.pixel_format, self.bpp, rgb555);
    }

    /// Whether locking `rect` stays within `i32` arithmetic.
    pub open spec fn lock_rect_ok(self, r: Rect) -> bool {
        &&& i32::MIN <= r.top * self.pitch <= i32::MAX
        &&& i32::MIN <= r.left * bytes_pp(self.bpp) <= i32::MAX
        &&& i32::MIN <= r.top * self.pitch + r.left * bytes_pp(self.bpp) <= i32::MAX
        &&& i32::MIN <= r.right - r.left <= i32::MAX
        &&& i32::MIN <= r.bottom - r.top <= i32::MAX
    }

    /// Where a lock of `rect` starts, in bytes from the start of the memory.
    pub open spec fn lock_offset(self, r: Rect) -> int {
        r.top * self.pitch + r.left * bytes_pp(self.bpp)
    }

    /// Lock the surface (or the part `rect` of it) for direct access: the
    /// description of the whole surface, then, for a rectangle, the start of
    /// its top-left pixel and its size.
    pub fn lock_impl2(&self, rect: Option<Rect>, desc: &mut SurfaceDesc, rgb555: bool)
        requires
            self.wf(),
            rect matches Some(r) ==> self.lock_rect_ok(r),
        ensures
            *final(desc) == self.spec_locked_desc(*old(desc), rect, rgb555, SIZE_SURFACEDESC2),

    {
        self.fill_desc2(desc, rgb555);
        if let Some(r) = rect {
            let bytes_pp = bytes_per_pixel(self.bpp);
            let offset = (r.top * self.pitch) + (r.left * bytes_pp);
            desc.surface_offset = offset;
            desc.width = (r.right - r.left) as u32;
            desc.height = (r.bottom - r.top) as u32;
        }
    }

    /// Lock through the first interface versions: the same description in
    /// the older layout. The pixel format of `desc` is filled in place.
    pub fn lock_impl1(&self, rect: Option<Rect>, desc: &mut SurfaceDesc, rgb555: bool)
        requires
            self.wf(),
            rect matches Some(r) ==> self.lock_rect_ok(r),
        ensures
            *final(desc) == self.spec_locked_desc(*old(desc), rect, rgb555, SIZE_SURFACEDESC),

    {
        let mut d2 = SurfaceDesc::zeroed();
        self.lock_impl2(rect, &mut d2, rgb555);
        desc.size = SIZE_SURFACEDESC;
        desc.flags = d2.flags;
        desc.height = d2.height;
        desc.width = d2.width;
        desc.pitch = d2.pitch;
        desc.surface_offset = d2.surface_offset;
        desc.caps = d2.caps;
        fill_pixel_format(&mut desc.pixel_format, self.bpp, rgb555);
    }

    /// The description of the whole surface in the newer layout.
    pub fn get_surface_desc_impl2(&self, desc: &mut SurfaceDesc, rgb555: bool)
        requires
            self.wf(),
        ensures
            *final(desc) == self.spec_locked_desc(*old(desc), None, rgb555, SIZE_SURFACEDESC2),

    {
        self.fill_desc2(desc, rgb555);
    }

    /// The description of the whole surface in the older layout.
    pub fn get_surface_desc_impl1(&self, desc: &mut SurfaceDesc, rgb555: bool)
        requires
            self.wf(),
        ensures
            *final(desc) == self.spec_locked_desc(*old(desc), None, rgb555, SIZE_SURFACEDESC),

    {
        self.lock_impl1(None, desc, rgb555);
    }

    /// The surface's capabilities.
    pub fn get_caps_impl(&self) -> (r: u32)
        ensures
            r == self.caps,
    {
        self.caps
    }

    /// The surface attached with the requested capabilities: only the back
    /// buffer of a flipping primary is attached, and it is found only when
    /// the back-buffer capability is asked for.
    pub fn get_attached_impl(&self, requested: u32) -> (r: Result<SurfaceImpl, DdError>)
        ensures
            (requested & DDSCAPS_BACKBUFFER != 0 && self.backbuffer is Some) ==> r == Ok::<SurfaceImpl, DdError>(
                SurfaceImpl {
                    width: self.width,
                    height: self.height,
                    bpp: self.bpp,
                    pitch: self.backbuffer->0.pitch,
                    caps: spec_backbuffer_caps(),
                    is_primary: false,
                    buffers: self.backbuffer->0,
                    backbuffer: None,
                }),
            !(requested & DDSCAPS_BACKBUFFER != 0 && self.backbuffer is Some) ==> r == Err::<SurfaceImpl, DdError>(DdError::Generic),
    {
        if (requested & DDSCAPS_BACKBUFFER) != 0 {
            if let Some(bb) = self.backbuffer {
                let mut s = SurfaceImpl::from_buffers(bb, self.width, self.height, self.bpp, false);
                s.caps = DDSCAPS_BACKBUFFER | DDSCAPS_OFFSCREENPLAIN | DDSCAPS_SYSTEMMEMORY;
                return Ok(s);
            }
        }
        Err(DdError::Generic)
    }

    /// The surface's pixel format, written over `pf`.
    pub fn get_pixel_format_impl(&self, pf: &mut PixelFormat, rgb555: bool)
        ensures
            *final(pf) == spec_surface_pf(*old(pf), self.bpp, rgb555),

    {
        fill_pixel_format(pf, self.bpp, rgb555);
    }
}


/// The lower edge of a rectangle clamped at zero.
pub open spec fn clamp_low(v: i32) -> int {
    if v > 0 { v as int } else { 0 }
}

/// The upper edge of a rectangle clamped to `0..=limit`.
pub open spec fn clamp_high(v: i32, limit: int) -> int {
    if v <= 0 { 0 } else if (v as int) < limit { v as int } else { limit }
}

/// The rectangle `r` clamped to a `w` by `h` area, as (x0, y0, x1, y1)
/// with x0 <= x1 and y0 <= y1; no rectangle means the whole area.
pub open spec fn spec_rect_clamp(r: Option<Rect>, w: int, h: int) -> (int, int, int, int) {
    match r {
        None => (0, 0, w, h),
        Some(rc) => {
            let x0 = clamp_low(rc.left);
            let y0 = clamp_low(rc.top);
            let x1 = clamp_high(rc.right, w);
            let y1 = clamp_high(rc.bottom, h);
            (x0, y0, if x1 >= x0 { x1 } else { x0 }, if y1 >= y0 { y1 } else { y0 })
        },
    }
}

/// Clamp a rectangle (or the whole area when there is none) to a `w` by
/// `h` area.
pub fn rect_clamp(r: Option<Rect>, w: usize, h: usize) -> (c: (usize, usize, usize, usize))
    ensures
        c.0 as int == spec_rect_clamp(r, w as int, h as int).0,
        c.1 as int == spec_rect_clamp(r, w as int, h as int).1,
        c.2 as int == spec_rect_clamp(r, w as int, h as int).2,
        c.3 as int == spec_rect_clamp(r, w as int, h as int).3,
        c.0 <= c.2,
        c.1 <= c.3,
        r is None ==> c.2 == w && c.3 == h,
        c.2 <= w || c.2 == c.0,
        c.3 <= h || c.3 == c.1,
{
    match r {
        None => (0, 0, w, h),
        Some(rc) => {
            let x0: usize = if rc.left > 0 { rc.left as usize } else { 0 };
            let y0: usize = if rc.top > 0 { rc.top as usize } else { 0 };
            let xr: usize = if rc.right > 0 { rc.right as usize } else { 0 };
            let yb: usize = if rc.bottom > 0 { rc.bottom as usize } else { 0 };
            let x1: usize = if xr < w { xr } else { w };
            let y1: usize = if yb < h { yb } else { h };
            (x0, y0, if x1 >= x0 { x1 } else { x0 }, if y1 >= y0 { y1 } else { y0 })
        },
    }
}

/// `pix` with the 16-bit value (`lo`, `hi`) stored little-endian at every
/// second byte of `[base + 2 * x0, base + 2 * x1)`: one row of a colour fill.
pub open spec fn fill_row(pix: Seq<u8>, base: int, x0: int, x1: int, lo: u8, hi: u8) -> Seq<u8> {
    Seq::new(
        pix.len(),
        |i: int|
            if base + 2 * x0 <= i < base + 2 * x1 {
                if (i - base) % 2 == 0 { lo } else { hi }
            } else {
                pix[i]
            },
    )
}

/// `pix` after the colour fill of rows `y0` to `y1` (exclusive), row by row
/// from the top, `pitch` bytes apart.
pub open spec fn fill_rows(pix: Seq<u8>, pitch: int, x0: int, x1: int, y0: int, y1: int, lo: u8, hi: u8) -> Seq<u8>
    decreases y1 - y0,
{
    if y1 <= y0 {
        pix
    } else {
        fill_row(fill_rows(pix, pitch, x0, x1, y0, y1 - 1, lo, hi), (y1 - 1) * pitch, x0, x1, lo, hi)
    }
}

/// Whether a colour fill of rows `y0..y1`, columns `x0..x1` writes only
/// inside `len` bytes.
pub open spec fn fill_in_bounds(len: int, pitch: int, x0: int, x1: int, y0: int, y1: int) -> bool {
    x0 < x1 && y0 < y1 ==> (y1 - 1) * pitch + 2 * x1 <= len
}

proof fn lemma_fill_rows_len(pix: Seq<u8>, pitch: int, x0: int, x1: int, y0: int, y1: int, lo: u8, hi: u8)
    ensures
        fill_rows(pix, pitch, x0, x1, y0, y1, lo, hi).len() == pix.len(),
    decreases y1 - y0,
{
    if y1 > y0 {
        lemma_fill_rows_len(pix, pitch, x0, x1, y0, y1 - 1, lo, hi);
    }
}

proof fn lemma_row_base_bound(pitch: int, y: int, y1: int)
    requires
        0 <= pitch,
        0 <= y < y1,
    ensures
        y * pitch <= (y1 - 1) * pitch,
{
    assert(y * pitch <= (y1 - 1) * pitch) by (nonlinear_arith)
        requires 0 <= pitch, y <= y1 - 1;
}

/// Store `fill` as a 16-bit little-endian value at every pixel column
/// `x0..x1` of rows `y0..y1`: the colour fill of a blit. Columns are two
/// bytes apart whatever the surface's depth.
pub fn color_fill(dst: &mut [u8], pitch: usize, x0: usize, y0: usize, x1: usize, y1: usize, fill: u16)
    requires
        x0 <= x1,
        y0 <= y1,
        fill_in_bounds(old(dst)@.len() as int, pitch as int, x0 as int, x1 as int, y0 as int, y1 as int),
    ensures
        final(dst)@ == fill_rows(old(dst)@, pitch as int, x0 as int, x1 as int, y0 as int, y1 as int,
            (fill % 256) as u8, (fill / 256) as u8),
{
    let lo: u8 = (fill % 256) as u8;
    let hi: u8 = (fill / 256) as u8;
    if x0 == x1 {
        let mut y = y0;
        while y < y1
            invariant
                y0 <= y <= y1,
                x0 == x1,
                dst@ == fill_rows(old(dst)@, pitch as int, x0 as int, x1 as int, y0 as int, y as int, lo, hi),
            decreases y1 - y,
        {
            proof {
                let prev = fill_rows(old(dst)@, pitch as int, x0 as int, x1 as int, y0 as int, y as int, lo, hi);
                assert(fill_row(prev, y * pitch, x0 as int, x1 as int, lo, hi) =~= prev);
            }
            y = y + 1;
        }
        return;
    }
    let len = dst.len();
    let mut y = y0;
    while y < y1
        invariant
            y0 <= y <= y1,
            x0 < x1,
            len == dst@.len(),
            dst@.len() == old(dst)@.len(),
            fill_in_bounds(dst@.len() as int, pitch as int, x0 as int, x1 as int, y0 as int, y1 as int),
            dst@ == fill_rows(old(dst)@, pitch as int, x0 as int, x1 as int, y0 as int, y as int, lo, hi),
        decreases y1 - y,
    {
        proof { lemma_row_base_bound(pitch as int, y as int, y1 as int); }
        let row = y * pitch;
        let ghost start = dst@;
        let mut x = x0;
        while x < x1
            invariant
                x0 <= x <= x1,
                row == y * pitch,
                len == dst@.len(),
                row + 2 * x1 <= dst@.len(),
                dst@.len() == start.len(),
                dst@ == fill_row(start, row as int, x0 as int, x as int, lo, hi),
            decreases x1 - x,
        {
            let idx = row + 2 * x;
            dst[idx] = lo;
            dst[idx + 1] = hi;
            proof {
                assert(dst@ =~= fill_row(start, row as int, x0 as int, (x + 1) as int, lo, hi));
            }
            x = x + 1;
        }
        y = y + 1;
    }
}


/// The pixels a blit reads from its source: the whole source surface,
/// copied while it is locked, `height` rows of `pitch` bytes, `width`
/// pixels wide. The blit's source rectangle is taken within it.
#[derive(Debug)]
pub struct SourceCopy {
    pub data: Vec<u8>,
    pub width: usize,
    pub height: usize,
    pub pitch: usize,
}

impl SourceCopy {
    /// The copy holds exactly its rows.
    pub open spec fn wf(self) -> bool {
        self.data@.len() == self.height * self.pitch
    }

    /// Copy the rows a lock of the whole surface handed out: `locked`
    /// starts at the surface's first pixel, `desc` is the lock's
    /// description.
    pub fn from_locked(locked: &[u8], desc: &SurfaceDesc) -> (r: SourceCopy)
        requires
            desc.pitch >= 0,
            (desc.height as int) * (desc.pitch as int) <= locked@.len(),
        ensures
            r.wf(),
            r.width == desc.width as usize,
            r.height == desc.height as usize,
            r.pitch == desc.pitch as usize,
            r.data@ == locked@.subrange(0, (desc.height as int) * (desc.pitch as int)),
    {
        let w = desc.width as usize;
        let h = desc.height as usize;
        let p = desc.pitch as usize;
        let _len = locked.len();
        let n = h * p;
        let mut data: Vec<u8> = Vec::new();
        let mut i: usize = 0;
        while i < n
            invariant
                i <= n,
                n == (desc.height as int) * (desc.pitch as int),
                n <= locked@.len(),
                data@ == locked@.subrange(0, i as int),
            decreases n - i,
        {
            data.push(locked[i]);
            proof {
                assert(data@ =~= locked@.subrange(0, (i + 1) as int));
            }
            i = i + 1;
        }
        SourceCopy { data, width: w, height: h, pitch: p }
    }
}

/// Where a blit copies: destination and source pitch, bytes per pixel, the
/// clamped destination rectangle's corner and size, and the clamped source
/// rectangle's corner and size.
#[derive(Clone, Copy, Debug, PartialEq, Eq, Structural)]
pub struct BlitGeom {
    pub dst_pitch: usize,
    pub src_pitch: usize,
    pub bpp: usize,
    pub dx0: usize,
    pub dy0: usize,
    pub dw: usize,
    pub dh: usize,
    pub sx0: usize,
    pub sy0: usize,
    pub sw: usize,
    pub sh: usize,
}

/// The corners and sizes of a blit add up within `usize`.
pub open spec fn geom_ok(g: BlitGeom) -> bool {
    &&& g.dx0 + g.dw <= usize::MAX
    &&& g.dy0 + g.dh <= usize::MAX
    &&& g.sx0 + g.sw <= usize::MAX
    &&& g.sy0 + g.sh <= usize::MAX
}

/// `pix` with the `n` bytes at `dbase` replaced by the `n` bytes of `data`
/// at `sbase`.
pub open spec fn copy_span(pix: Seq<u8>, data: Seq<u8>, dbase: int, sbase: int, n: int) -> Seq<u8> {
    Seq::new(pix.len(), |i: int| if dbase <= i < dbase + n { data[sbase + (i - dbase)] } else { pix[i] })
}

/// `pix` after the first `rows` rows of an unscaled blit, row by row.
pub open spec fn copy_rows(pix: Seq<u8>, data: Seq<u8>, g: BlitGeom, rows: int) -> Seq<u8>
    decreases rows,
{
    if rows <= 0 {
        pix
    } else {
        copy_span(
            copy_rows(pix, data, g, rows - 1),
            data,
            (g.dy0 + rows - 1) * g.dst_pitch + g.dx0 * g.bpp,
            (g.sy0 + rows - 1) * g.src_pitch + g.sx0 * g.bpp,
            g.dw * g.bpp,
        )
    }
}

/// The source column of destination column `x` in a scaled blit.
pub open spec fn scale_src_x(g: BlitGeom, x: int) -> int {
    g.sx0 + (x * g.sw) / (g.dw as int)
}

/// The source row of destination row `y` in a scaled blit.
pub open spec fn scale_src_y(g: BlitGeom, y: int) -> int {
    g.sy0 + (y * g.sh) / (g.dh as int)
}

/// `pix` after the first `n` pixels of row `y` of a scaled blit.
pub open spec fn scale_row(pix: Seq<u8>, data: Seq<u8>, g: BlitGeom, y: int, n: int) -> Seq<u8>
    decreases n,
{
    if n <= 0 {
        pix
    } else {
        copy_span(
            scale_row(pix, data, g, y, n - 1),
            data,
            (g.dy0 + y) * g.dst_pitch + (g.dx0 + n - 1) * g.bpp,
            scale_src_y(g, y) * g.src_pitch + scale_src_x(g, n - 1) * g.bpp,
            g.bpp as int,
        )
    }
}

/// `pix` after the first `rows` rows of a scaled blit, row by row.
pub open spec fn scale_rows(pix: Seq<u8>, data: Seq<u8>, g: BlitGeom, rows: int) -> Seq<u8>
    decreases rows,
{
    if rows <= 0 {
        pix
    } else {
        scale_row(scale_rows(pix, data, g, rows - 1), data, g, rows - 1, g.dw as int)
    }
}

/// Whether a blit is unscaled: source and destination rectangles have the
/// same size after clamping.
pub open spec fn is_unscaled(g: BlitGeom) -> bool {
    g.dw == g.sw && g.dh == g.sh
}

/// Whether a blit is scaled: sizes differ and none of them is empty.
pub open spec fn is_scaled(g: BlitGeom) -> bool {
    !is_unscaled(g) && g.dw > 0 && g.dh > 0 && g.sw > 0 && g.sh > 0
}

/// `pix` after the copy part of a blit: unscaled blits copy row by row,
/// scaled ones pick the nearest source pixel, blits between an empty and a
/// non-empty rectangle copy nothing.
pub open spec fn copy_result(pix: Seq<u8>, data: Seq<u8>, g: BlitGeom) -> Seq<u8> {
    if is_unscaled(g) {
        copy_rows(pix, data, g, g.dh as int)
    } else if is_scaled(g) {
        scale_rows(pix, data, g, g.dh as int)
    } else {
        pix
    }
}

/// Whether the copy part of a blit reads only inside `len` bytes of source
/// data, with its index arithmetic within `usize`.
pub open spec fn copy_reads_ok(g: BlitGeom, len: int) -> bool {
    if is_unscaled(g) {
        g.dw == 0 || g.dh == 0 || (g.sy0 + g.dh - 1) * g.src_pitch + (g.sx0 + g.dw) * g.bpp <= len
    } else if is_scaled(g) {
        &&& (g.dh - 1) * g.sh <= usize::MAX
        &&& (g.dw - 1) * g.sw <= usize::MAX
        &&& scale_src_y(g, g.dh - 1) * g.src_pitch + scale_src_x(g, g.dw - 1) * g.bpp + g.bpp <= len
    } else {
        true
    }
}

/// Whether the copy part of a blit writes only inside `len` bytes of
/// destination memory.
pub open spec fn copy_writes_ok(g: BlitGeom, len: int) -> bool {
    g.dw == 0 || g.dh == 0 || (g.dy0 + g.dh - 1) * g.dst_pitch + (g.dx0 + g.dw) * g.bpp <= len
}

/// Copy `n` bytes of `data` at `sbase` to `dst` at `dbase`.
fn copy_bytes(dst: &mut [u8], data: &[u8], dbase: usize, sbase: usize, n: usize)
    requires
        dbase + n <= old(dst)@.len(),
        sbase + n <= data@.len(),
    ensures
        final(dst)@ == copy_span(old(dst)@, data@, dbase as int, sbase as int, n as int),
{
    let dlen = dst.len();
    let slen = data.len();
    let mut k: usize = 0;
    while k < n
        invariant
            k <= n,
            dlen == dst@.len(),
            slen == data@.len(),
            dbase + n <= dst@.len(),
            sbase + n <= data@.len(),
            dst@.len() == old(dst)@.len(),
            dst@ == copy_span(old(dst)@, data@, dbase as int, sbase as int, k as int),
        decreases n - k,
    {
        dst[dbase + k] = data[sbase + k];
        proof {
            assert(dst@ =~= copy_span(old(dst)@, data@, dbase as int, sbase as int, (k + 1) as int));
        }
        k = k + 1;
    }
}

proof fn lemma_row_le(a: int, b: int, p: int)
    requires
        0 <= a <= b,
        0 <= p,
    ensures
        a * p <= b * p,
{
    assert(a * p <= b * p) by (nonlinear_arith)
        requires a <= b, 0 <= p;
}

proof fn lemma_distrib(a: int, b: int, p: int)
    ensures
        (a + b) * p == a * p + b * p,
{
    assert((a + b) * p == a * p + b * p) by (nonlinear_arith);
}

/// Copy the rows of an unscaled blit.
fn copy_unscaled(dst: &mut [u8], data: &[u8], g: BlitGeom)
    requires
        geom_ok(g),
        is_unscaled(g),
        g.dw > 0,
        g.dh > 0,
        copy_writes_ok(g, old(dst)@.len() as int),
        (g.sy0 + g.dh - 1) * g.src_pitch + (g.sx0 + g.dw) * g.bpp <= data@.len(),
    ensures
        final(dst)@ == copy_rows(old(dst)@, data@, g, g.dh as int),
{
    let dlen = dst.len();
    let slen = data.len();
    let mut y: usize = 0;
    while y < g.dh
        invariant
            y <= g.dh,
            g.dw > 0,
            geom_ok(g),
            is_unscaled(g),
            dlen == dst@.len(),
            slen == data@.len(),
            dst@.len() == old(dst)@.len(),
            copy_writes_ok(g, dst@.len() as int),
            (g.sy0 + g.dh - 1) * g.src_pitch + (g.sx0 + g.dw) * g.bpp <= data@.len(),
            dst@ == copy_rows(old(dst)@, data@, g, y as int),
        decreases g.dh - y,
    {
        proof {
            lemma_row_le((g.dy0 + y) as int, (g.dy0 + g.dh - 1) as int, g.dst_pitch as int);
            lemma_row_le((g.sy0 + y) as int, (g.sy0 + g.dh - 1) as int, g.src_pitch as int);
            lemma_distrib(g.dx0 as int, g.dw as int, g.bpp as int);
            lemma_distrib(g.sx0 as int, g.dw as int, g.bpp as int);
            lemma_row_le(0, g.dx0 as int, g.bpp as int);
        }
        let d = (g.dy0 + y) * g.dst_pitch + g.dx0 * g.bpp;
        let s = (g.sy0 + y) * g.src_pitch + g.sx0 * g.bpp;
        copy_bytes(dst, data, d, s, g.dw * g.bpp);
        y = y + 1;
    }
}

proof fn lemma_scaled_index(x: int, n: int, s: int)
    requires
        0 <= x < n,
        0 <= s,
        (n - 1) * s <= usize::MAX,
    ensures
        x * s <= (n - 1) * s,
        x * s / n <= (n - 1) * s / n,
        (n - 1) * s / n <= (n - 1) * s,
        0 <= x * s / n,
        x * s / n <= s,
{
    lemma_row_le(x, n - 1, s);
    vstd::arithmetic::div_mod::lemma_div_is_ordered(x * s, (n - 1) * s, n);
    assert(0 <= x * s) by (nonlinear_arith) requires 0 <= x, 0 <= s;
    assert(0 <= x * s / n) by (nonlinear_arith) requires 0 <= x * s, 0 < n;
    assert((n - 1) * s / n <= (n - 1) * s) by (nonlinear_arith) requires 0 <= (n - 1) * s, 1 <= n;
    lemma_row_le(n - 1, n, s);
    vstd::arithmetic::div_mod::lemma_div_is_ordered((n - 1) * s, n * s, n);
    vstd::arithmetic::div_mod::lemma_div_by_multiple(s, n);
    assert(n * s == s * n) by (nonlinear_arith);
}

/// Copy the rows of a scaled blit, nearest source pixel first.
fn copy_scaled(dst: &mut [u8], data: &[u8], g: BlitGeom)
    requires
        geom_ok(g),
        is_scaled(g),
        copy_writes_ok(g, old(dst)@.len() as int),
        copy_reads_ok(g, data@.len() as int),
    ensures
        final(dst)@ == scale_rows(old(dst)@, data@, g, g.dh as int),
{
    let dlen = dst.len();
    let slen = data.len();
    let mut y: usize = 0;
    while y < g.dh
        invariant
            y <= g.dh,
            geom_ok(g),
            dlen == dst@.len(),
            slen == data@.len(),
            is_scaled(g),
            dst@.len() == old(dst)@.len(),
            copy_writes_ok(g, dst@.len() as int),
            copy_reads_ok(g, data@.len() as int),
            dst@ == scale_rows(old(dst)@, data@, g, y as int),
        decreases g.dh - y,
    {
        proof {
            lemma_scaled_index(y as int, g.dh as int, g.sh as int);
            lemma_row_le(scale_src_y(g, y as int), scale_src_y(g, g.dh - 1), g.src_pitch as int);
            lemma_row_le((g.dy0 + y) as int, (g.dy0 + g.dh - 1) as int, g.dst_pitch as int);
        }
        let sy = g.sy0 + (y * g.sh) / g.dh;
        let drow = (g.dy0 + y) * g.dst_pitch;
        let srow = sy * g.src_pitch;
        let ghost start = dst@;
        let mut x: usize = 0;
        while x < g.dw
            invariant
                x <= g.dw,
                y < g.dh,
                geom_ok(g),
                dlen == dst@.len(),
                slen == data@.len(),
                is_scaled(g),
                sy == scale_src_y(g, y as int),
                drow == (g.dy0 + y) * g.dst_pitch,
                srow == sy * g.src_pitch,
                dst@.len() == start.len(),
                copy_writes_ok(g, dst@.len() as int),
                copy_reads_ok(g, data@.len() as int),
                srow <= scale_src_y(g, g.dh - 1) * g.src_pitch,
                drow <= (g.dy0 + g.dh - 1) * g.dst_pitch,
                dst@ == scale_row(start, data@, g, y as int, x as int),
            decreases g.dw - x,
        {
            proof {
                lemma_scaled_index(x as int, g.dw as int, g.sw as int);
                lemma_row_le(scale_src_x(g, x as int), scale_src_x(g, g.dw - 1), g.bpp as int);
                lemma_row_le((g.dx0 + x) as int, (g.dx0 + g.dw - 1) as int, g.bpp as int);
                lemma_distrib((g.dx0 + g.dw - 1) as int, 1, g.bpp as int);
                lemma_row_le(0, scale_src_x(g, x as int), g.bpp as int);
            }
            let sx = g.sx0 + (x * g.sw) / g.dw;
            let d = drow + (g.dx0 + x) * g.bpp;
            let s = srow + sx * g.bpp;
            copy_bytes(dst, data, d, s, g.bpp);
            x = x + 1;
        }
        y = y + 1;
    }
}


/// Whether the copy part of a blit reads only inside `len` bytes of source
/// data, with its index arithmetic within `usize`.
pub fn copy_reads_within(g: BlitGeom, len: usize) -> (ok: bool)
    requires
        geom_ok(g),
    ensures
        ok == copy_reads_ok(g, len as int),
{
    if g.dw == g.sw && g.dh == g.sh {
        if g.dw == 0 || g.dh == 0 {
            return true;
        }
        let rows = g.sy0 + g.dh - 1;
        let cols = g.sx0 + g.dw;
        proof {
            lemma_row_le(0, rows as int, g.src_pitch as int);
            lemma_row_le(0, cols as int, g.bpp as int);
        }
        match rows.checked_mul(g.src_pitch) {
            None => false,
            Some(a) => match cols.checked_mul(g.bpp) {
                None => false,
                Some(b) => match a.checked_add(b) {
                    None => false,
                    Some(n) => n <= len,
                },
            },
        }
    } else if g.dw > 0 && g.dh > 0 && g.sw > 0 && g.sh > 0 {
        match (g.dh - 1).checked_mul(g.sh) {
            None => false,
            Some(ph) => match (g.dw - 1).checked_mul(g.sw) {
                None => false,
                Some(pw) => {
                    proof {
                        lemma_scaled_index((g.dh - 1) as int, g.dh as int, g.sh as int);
                        lemma_scaled_index((g.dw - 1) as int, g.dw as int, g.sw as int);
                    }
                    let sy = g.sy0 + ph / g.dh;
                    let sx = g.sx0 + pw / g.dw;
                    proof {
                        lemma_row_le(0, sy as int, g.src_pitch as int);
                        lemma_row_le(0, sx as int, g.bpp as int);
                    }
                    match sy.checked_mul(g.src_pitch) {
                        None => false,
                        Some(a) => match sx.checked_mul(g.bpp) {
                            None => false,
                            Some(b) => match a.checked_add(b) {
                                None => false,
                                Some(c) => match c.checked_add(g.bpp) {
                                    None => false,
                                    Some(n) => n <= len,
                                },
                            },
                        },
                    }
                },
            },
        }
    } else {
        true
    }
}

/// The 16-bit fill value's low byte.
pub open spec fn fill_lo(c: u32) -> u8 {
    (c % 256) as u8
}

/// The 16-bit fill value's high byte.
pub open spec fn fill_hi(c: u32) -> u8 {
    ((c % 65536) / 256) as u8
}

impl SurfaceImpl {
    /// Where a blit onto this surface copies, from a source copy `width`
    /// by `height` pixels with rows `pitch` bytes apart.
    pub open spec fn spec_blit_geom(self, dr: Option<Rect>, width: usize, height: usize, pitch: usize, sr: Option<Rect>) -> BlitGeom {
        let d = spec_rect_clamp(dr, self.width as int, self.height as int);
        let s = spec_rect_clamp(sr, width as int, height as int);
        BlitGeom {
            dst_pitch: self.pitch as usize,
            src_pitch: pitch,
            bpp: bytes_pp(self.bpp) as usize,
            dx0: d.0 as usize,
            dy0: d.1 as usize,
            dw: (d.2 - d.0) as usize,
            dh: (d.3 - d.1) as usize,
            sx0: s.0 as usize,
            sy0: s.1 as usize,
            sw: (s.2 - s.0) as usize,
            sh: (s.3 - s.1) as usize,
        }
    }

    /// Whether a blit onto this surface can read everything it copies.
    pub open spec fn blt_reads_ok(self, dr: Option<Rect>, src: Option<&SourceCopy>, sr: Option<Rect>) -> bool {
        match src {
            None => true,
            Some(sc) => copy_reads_ok(
                self.spec_blit_geom(dr, sc.width, sc.height, sc.pitch, sr),
                sc.data@.len() as int,
            ),
        }
    }

    /// The surface's memory after a blit: first the colour fill of the
    /// clamped destination rectangle (when asked for and a fill colour is
    /// given), then the copy from the source.
    pub open spec fn spec_blt(self, pix: Seq<u8>, dr: Option<Rect>, src: Option<&SourceCopy>, sr: Option<Rect>, flags: u32, fill_color: Option<u32>) -> Seq<u8> {
        let d = spec_rect_clamp(dr, self.width as int, self.height as int);
        let filled = match fill_color {
            Some(c) if flags & DDBLT_COLORFILL != 0 =>
                fill_rows(pix, self.pitch as int, d.0, d.2, d.1, d.3, fill_lo(c), fill_hi(c)),
            _ => pix,
        };
        match src {
            None => filled,
            Some(sc) => copy_result(filled, sc.data@, self.spec_blit_geom(dr, sc.width, sc.height, sc.pitch, sr)),
        }
    }

    /// Blit onto this surface: optionally fill the destination rectangle
    /// `dr` (or the whole surface) with `fill_color`, then copy the source
    /// rectangle `sr` (or the whole source) of `src`, a copy of the whole
    /// source surface, into it, scaling by nearest pixel when the sizes
    /// differ. `dst` is this surface's memory. Returns whether the
    /// primary surface changed. A copy that would read outside the source
    /// data is refused and leaves the memory alone.
    pub fn blt_impl(&self, dst: &mut [u8], dr: Option<Rect>, src: Option<&SourceCopy>, sr: Option<Rect>, flags: u32, fill_color: Option<u32>) -> (r: Result<bool, DdError>)
        requires
            self.wf(),
            old(dst)@.len() >= self.buffers.mem_len(),
            src matches Some(sc) ==> sc.wf(),
        ensures
            r is Err <==> !self.blt_reads_ok(dr, src, sr),
            r is Err ==> r == Err::<bool, DdError>(DdError::InvalidRect) && final(dst)@ == old(dst)@,
            r matches Ok(dirty) ==> dirty == self.is_primary
                && final(dst)@ == self.spec_blt(old(dst)@, dr, src, sr, flags, fill_color),
    {
        let dst_pitch = self.pitch as usize;
        let dst_w = self.width as usize;
        let dst_h = self.height as usize;
        let bytes_pp = bytes_per_pixel(self.bpp) as usize;
        let (x0, y0, x1, y1) = rect_clamp(dr, dst_w, dst_h);
        let len = dst.len();
        proof {
            lemma_dims_bounds(self.width, self.height, self.bpp);
            lemma_surface_bounds(self.width as int, self.height as int, bytes_pp as int);
        }
        let geom: Option<BlitGeom> = match src {
            None => None,
            Some(sc) => {
                let (sx0, sy0, sx1, sy1) = rect_clamp(sr, sc.width, sc.height);
                let g = BlitGeom {
                    dst_pitch,
                    src_pitch: sc.pitch,
                    bpp: bytes_pp,
                    dx0: x0,
                    dy0: y0,
                    dw: x1 - x0,
                    dh: y1 - y0,
                    sx0,
                    sy0,
                    sw: sx1 - sx0,
                    sh: sy1 - sy0,
                };
                if !copy_reads_within(g, sc.data.len()) {
                    return Err(DdError::InvalidRect);
                }
                Some(g)
            },
        };
        if (flags & DDBLT_COLORFILL) != 0 {
            if let Some(c) = fill_color {
                let fill = c as u16;
                proof {
                    assert(fill % 256 == c % 256) by (bit_vector) requires fill == c as u16;
                    assert(fill / 256 == (c % 65536) / 256) by (bit_vector) requires fill == c as u16;
                    if x0 < x1 && y0 < y1 {
                        lemma_fill_bound(self.width as int, self.height as int, bytes_pp as int, x1 as int, y1 as int);
                    }
                }
                color_fill(dst, dst_pitch, x0, y0, x1, y1, fill);
                proof {
                    lemma_fill_rows_len(old(dst)@, dst_pitch as int, x0 as int, x1 as int, y0 as int, y1 as int,
                        (fill % 256) as u8, (fill / 256) as u8);
                }
            }
        }
        if let Some(sc) = src {
            if let Some(g) = geom {
                proof {
                    if g.dw > 0 && g.dh > 0 {
                        lemma_copy_bound(self.width as int, self.height as int, bytes_pp as int, x1 as int, y1 as int);
                    }
                }
                if g.dw == g.sw && g.dh == g.sh {
                    if g.dw > 0 && g.dh > 0 {
                        copy_unscaled(dst, sc.data.as_slice(), g);
                    } else {
                        proof {
                            lemma_copy_rows_empty(dst@, sc.data@, g, g.dh as int);
                        }
                    }
                } else if g.dw > 0 && g.dh > 0 && g.sw > 0 && g.sh > 0 {
                    copy_scaled(dst, sc.data.as_slice(), g);
                }
            }
        }
        Ok(self.is_primary)
    }
}

impl SurfaceImpl {
    /// Flip: copy the back buffer's visible rows (`pitch * height` bytes)
    /// over the front buffer. `front` is this surface's memory, `back` the
    /// back buffer's, given exactly when the surface has one. Returns
    /// whether the primary surface changed and a frame is ready.
    pub fn flip_impl(&self, front: &mut [u8], back: Option<&[u8]>) -> (dirty: bool)
        requires
            self.wf(),
            old(front)@.len() >= self.buffers.mem_len(),
            back is Some <==> self.backbuffer is Some,
            back matches Some(b) ==> b@.len() >= self.pitch * self.height,
        ensures
            dirty == self.is_primary,
            back matches Some(b) ==> final(front)@ == copy_span(old(front)@, b@, 0, 0, self.pitch * self.height),
            back is None ==> final(front)@ == old(front)@,
    {
        if let Some(b) = back {
            proof {
                lemma_dims_bounds(self.width, self.height, self.bpp);
            }
            let len = (self.pitch as usize) * (self.height as usize);
            copy_bytes(front, b, 0, 0, len);
        }
        self.is_primary
    }
}

proof fn lemma_surface_bounds(w: int, h: int, b: int)
    requires
        1 <= w,
        1 <= h,
        1 <= b,
    ensures
        (h - 1) * (w * b) + w * b == h * (w * b),
        h * (w * b) <= (w * b) * (h + GUARD_LINES),
        w <= w * b,
{
    assert((h - 1) * (w * b) + w * b == h * (w * b)) by (nonlinear_arith);
    assert(h * (w * b) <= (w * b) * (h + GUARD_LINES)) by (nonlinear_arith)
        requires 1 <= w, 1 <= b, 1 <= h;
    assert(w <= w * b) by (nonlinear_arith) requires 1 <= w, 1 <= b;
}

proof fn lemma_fill_bound(w: int, h: int, b: int, x1: int, y1: int)
    requires
        1 <= w,
        1 <= h,
        1 <= b,
        1 <= x1 <= w,
        1 <= y1 <= h,
    ensures
        (y1 - 1) * (w * b) + 2 * x1 <= (w * b) * (h + GUARD_LINES),
{
    assert((y1 - 1) * (w * b) + 2 * x1 <= (w * b) * (h + GUARD_LINES)) by (nonlinear_arith)
        requires 1 <= w, 1 <= b, 1 <= x1 <= w, 1 <= y1 <= h;
}

proof fn lemma_copy_bound(w: int, h: int, b: int, x1: int, y1: int)
    requires
        1 <= w,
        1 <= h,
        1 <= b,
        0 <= x1 <= w,
        1 <= y1 <= h,
    ensures
        (y1 - 1) * (w * b) + x1 * b <= (w * b) * (h + GUARD_LINES),
{
    assert((y1 - 1) * (w * b) + x1 * b <= (w * b) * (h + GUARD_LINES)) by (nonlinear_arith)
        requires 1 <= w, 1 <= b, 0 <= x1 <= w, 1 <= y1 <= h;
}

proof fn lemma_copy_rows_empty(pix: Seq<u8>, data: Seq<u8>, g: BlitGeom, rows: int)
    requires
        g.dw == 0 || g.dh == 0,
        0 <= rows <= g.dh,
    ensures
        copy_rows(pix, data, g, rows) == pix,
    decreases rows,
{
    if rows > 0 {
        lemma_copy_rows_empty(pix, data, g, rows - 1);
        assert(g.dw * g.bpp == 0) by (nonlinear_arith) requires g.dw == 0;
        assert(copy_span(pix, data, (g.dy0 + rows - 1) * g.dst_pitch + g.dx0 * g.bpp,
            (g.sy0 + rows - 1) * g.src_pitch + g.sx0 * g.bpp, g.dw * g.bpp) =~= pix);
    }
}


/// Byte offset of column `x` of row `y` in a colour fill (columns two
/// bytes apart).
pub open spec fn fill_cell(pitch: int, y: int, x: int) -> int {
    y * pitch + 2 * x
}

/// Whether byte `i` lies in one of the rows a colour fill writes.
pub open spec fn in_fill(pitch: int, x0: int, x1: int, y0: int, y1: int, i: int) -> bool {
    exists|y: int| y0 <= y < y1 && fill_cell(pitch, y, x0) <= i < #[trigger] fill_cell(pitch, y, x1)
}

proof fn lemma_rows_apart(pitch: int, y: int, y1: int)
    requires
        0 <= pitch,
        0 <= y,
        y + 1 <= y1,
    ensures
        y * pitch + pitch <= y1 * pitch,
{
    assert(y * pitch + pitch <= y1 * pitch) by (nonlinear_arith)
        requires 0 <= pitch, y + 1 <= y1;
}

/// A colour fill stores the fill value at every column of every row of the
/// rectangle and leaves every other byte alone, when a row of the fill fits
/// within the pitch (true of every surface of 16 bits per pixel or more).
pub proof fn law_color_fill(pix: Seq<u8>, pitch: int, x0: int, x1: int, y0: int, y1: int, lo: u8, hi: u8)
    requires
        0 <= x0 <= x1,
        0 <= y0 <= y1,
        2 * x1 <= pitch,
        fill_in_bounds(pix.len() as int, pitch, x0, x1, y0, y1),
    ensures
        fill_rows(pix, pitch, x0, x1, y0, y1, lo, hi).len() == pix.len(),
        forall|y: int, x: int| y0 <= y < y1 && x0 <= x < x1 ==> {
            &&& fill_rows(pix, pitch, x0, x1, y0, y1, lo, hi)[#[trigger] fill_cell(pitch, y, x)] == lo
            &&& fill_rows(pix, pitch, x0, x1, y0, y1, lo, hi)[fill_cell(pitch, y, x) + 1] == hi
        },
        forall|i: int| 0 <= i < pix.len() && !in_fill(pitch, x0, x1, y0, y1, i)
            ==> #[trigger] fill_rows(pix, pitch, x0, x1, y0, y1, lo, hi)[i] == pix[i],
    decreases y1 - y0,
{
    lemma_fill_rows_len(pix, pitch, x0, x1, y0, y1, lo, hi);
    if y1 > y0 {
        let prev = fill_rows(pix, pitch, x0, x1, y0, y1 - 1, lo, hi);
        let r = fill_rows(pix, pitch, x0, x1, y0, y1, lo, hi);
        let base = (y1 - 1) * pitch;
        if x0 < x1 {
            assert(fill_in_bounds(pix.len() as int, pitch, x0, x1, y0, y1 - 1)) by {
                if y0 < y1 - 1 {
                    lemma_row_le(y1 - 2, y1 - 1, pitch);
                }
            }
        }
        law_color_fill(pix, pitch, x0, x1, y0, y1 - 1, lo, hi);
        assert(r == fill_row(prev, base, x0, x1, lo, hi));
        assert forall|y: int, x: int| y0 <= y < y1 && x0 <= x < x1 implies {
            &&& r[#[trigger] fill_cell(pitch, y, x)] == lo
            &&& r[fill_cell(pitch, y, x) + 1] == hi
        } by {
            lemma_row_le(y, y1 - 1, pitch);
            if y < y1 - 1 {
                lemma_rows_apart(pitch, y, y1 - 1);
                assert(prev[fill_cell(pitch, y, x)] == lo);
                assert(prev[fill_cell(pitch, y, x) + 1] == hi);
            } else {
                assert(fill_cell(pitch, y, x) - base == 2 * x);
                assert((2 * x) % 2 == 0);
                assert((2 * x + 1) % 2 == 1);
            }
        }
        assert forall|i: int| 0 <= i < pix.len() && !in_fill(pitch, x0, x1, y0, y1, i)
            implies #[trigger] r[i] == pix[i] by {
            if in_fill(pitch, x0, x1, y0, y1 - 1, i) {
                let y = choose|y: int| y0 <= y < y1 - 1 && fill_cell(pitch, y, x0) <= i < #[trigger] fill_cell(pitch, y, x1);
                assert(fill_cell(pitch, y, x0) <= i < fill_cell(pitch, y, x1));
            }
            if base + 2 * x0 <= i < base + 2 * x1 {
                assert(fill_cell(pitch, y1 - 1, x0) <= i < fill_cell(pitch, y1 - 1, x1));
            }
        }
    }
}

/// Byte `k` of row `y` of an unscaled blit, in the destination.
pub open spec fn blit_dst_at(g: BlitGeom, y: int, k: int) -> int {
    (g.dy0 + y) * g.dst_pitch + g.dx0 * g.bpp + k
}

/// Byte `k` of row `y` of an unscaled blit, in the source.
pub open spec fn blit_src_at(g: BlitGeom, y: int, k: int) -> int {
    (g.sy0 + y) * g.src_pitch + g.sx0 * g.bpp + k
}

/// Whether byte `i` lies in one of the first `rows` destination rows an
/// unscaled blit writes.
pub open spec fn in_blit(g: BlitGeom, rows: int, i: int) -> bool {
    exists|y: int| 0 <= y < rows && blit_dst_at(g, y, 0) <= i < #[trigger] blit_dst_at(g, y, g.dw * g.bpp)
}

/// An unscaled blit puts byte `k` of source row `sy0 + y` at byte `k` of
/// destination row `dy0 + y`, for every row and every byte of the
/// rectangle, and leaves every other byte alone, when a copied row fits
/// within the destination pitch.
pub proof fn law_unscaled_blit(pix: Seq<u8>, data: Seq<u8>, g: BlitGeom, rows: int)
    requires
        0 <= rows <= g.dh,
        g.dw * g.bpp <= g.dst_pitch,
        g.dw > 0 && g.dh > 0 ==> copy_writes_ok(g, pix.len() as int),
    ensures
        copy_rows(pix, data, g, rows).len() == pix.len(),
        forall|y: int, k: int| 0 <= y < rows && 0 <= k < g.dw * g.bpp
            ==> copy_rows(pix, data, g, rows)[#[trigger] blit_dst_at(g, y, k)] == data[blit_src_at(g, y, k)],
        forall|i: int| 0 <= i < pix.len() && !in_blit(g, rows, i)
            ==> #[trigger] copy_rows(pix, data, g, rows)[i] == pix[i],
    decreases rows,
{
    if rows > 0 {
        let prev = copy_rows(pix, data, g, rows - 1);
        let r = copy_rows(pix, data, g, rows);
        law_unscaled_blit(pix, data, g, rows - 1);
        let n = g.dw * g.bpp;
        assert(r == copy_span(prev, data, blit_dst_at(g, rows - 1, 0), blit_src_at(g, rows - 1, 0), n));
        assert forall|y: int, k: int| 0 <= y < rows && 0 <= k < g.dw * g.bpp
            implies r[#[trigger] blit_dst_at(g, y, k)] == data[blit_src_at(g, y, k)] by {
            if y < rows - 1 {
                lemma_rows_apart(g.dst_pitch as int, g.dy0 + y, g.dy0 + rows - 1);
                lemma_row_le(0, g.dx0 as int, g.bpp as int);
                assert(prev[blit_dst_at(g, y, k)] == data[blit_src_at(g, y, k)]);
            }
            lemma_row_le((g.dy0 + y) as int, (g.dy0 + g.dh - 1) as int, g.dst_pitch as int);
            lemma_row_le(0, g.dx0 as int, g.bpp as int);
            lemma_distrib(g.dx0 as int, g.dw as int, g.bpp as int);
        }
        assert forall|i: int| 0 <= i < pix.len() && !in_blit(g, rows, i)
            implies #[trigger] r[i] == pix[i] by {
            if in_blit(g, rows - 1, i) {
                let y = choose|y: int| 0 <= y < rows - 1 && blit_dst_at(g, y, 0) <= i < #[trigger] blit_dst_at(g, y, g.dw * g.bpp);
                assert(blit_dst_at(g, y, 0) <= i < blit_dst_at(g, y, g.dw * g.bpp));
            }
            if blit_dst_at(g, rows - 1, 0) <= i < blit_dst_at(g, rows - 1, 0) + n {
                assert(blit_dst_at(g, rows - 1, 0) <= i < blit_dst_at(g, rows - 1, g.dw * g.bpp));
            }
        }
    }
}


/// Byte `b` of destination pixel `x` of row `y` of a scaled blit.
pub open spec fn scaled_dst_at(g: BlitGeom, y: int, x: int, b: int) -> int {
    blit_dst_at(g, y, x * g.bpp + b)
}

/// Byte `b` of the source pixel that destination pixel `x` of row `y` of a
/// scaled blit takes: the nearest one below, by proportion.
pub open spec fn scaled_src_at(g: BlitGeom, y: int, x: int, b: int) -> int {
    scale_src_y(g, y) * g.src_pitch + scale_src_x(g, x) * g.bpp + b
}

proof fn lemma_scale_row(pix: Seq<u8>, data: Seq<u8>, g: BlitGeom, y: int, n: int)
    requires
        0 <= n <= g.dw,
        0 <= y,
        blit_dst_at(g, y, g.dw * g.bpp) <= pix.len(),
    ensures
        scale_row(pix, data, g, y, n).len() == pix.len(),
        forall|x: int, b: int| 0 <= x < n && 0 <= b < g.bpp
            ==> scale_row(pix, data, g, y, n)[#[trigger] scaled_dst_at(g, y, x, b)] == data[scaled_src_at(g, y, x, b)],
        forall|i: int| 0 <= i < pix.len() && !(blit_dst_at(g, y, 0) <= i < blit_dst_at(g, y, n * g.bpp))
            ==> #[trigger] scale_row(pix, data, g, y, n)[i] == pix[i],
    decreases n,
{
    if n > 0 {
        lemma_scale_row(pix, data, g, y, n - 1);
        let prev = scale_row(pix, data, g, y, n - 1);
        let r = scale_row(pix, data, g, y, n);
        let bpp = g.bpp as int;
        lemma_distrib(g.dx0 as int, n - 1, bpp);
        lemma_distrib(n - 1, 1, bpp);
        lemma_row_le(n, g.dw as int, bpp);
        let base = blit_dst_at(g, y, (n - 1) * bpp);
        assert((g.dy0 + y) * g.dst_pitch + (g.dx0 + n - 1) * g.bpp == base);
        assert(r == copy_span(prev, data, base, scaled_src_at(g, y, n - 1, 0), bpp));
        assert forall|x: int, b: int| 0 <= x < n && 0 <= b < g.bpp
            implies r[#[trigger] scaled_dst_at(g, y, x, b)] == data[scaled_src_at(g, y, x, b)] by {
            lemma_distrib(x, 1, bpp);
            if x < n - 1 {
                lemma_row_le(x + 1, n - 1, bpp);
                assert(prev[scaled_dst_at(g, y, x, b)] == data[scaled_src_at(g, y, x, b)]);
            } else {
                assert(scaled_dst_at(g, y, x, b) == base + b);
            }
        }
        assert forall|i: int| 0 <= i < pix.len() && !(blit_dst_at(g, y, 0) <= i < blit_dst_at(g, y, n * g.bpp))
            implies #[trigger] r[i] == pix[i] by {
            lemma_row_le(n - 1, n, bpp);
        }
    }
}

/// A scaled blit puts into byte `b` of destination pixel `x` of row `y`
/// byte `b` of source pixel (`sx0 + x * sw / dw`, `sy0 + y * sh / dh`), for
/// every row, pixel and byte of the rectangle, and leaves every other byte
/// alone, when a copied row fits within the destination pitch.
pub proof fn law_scaled_blit(pix: Seq<u8>, data: Seq<u8>, g: BlitGeom, rows: int)
    requires
        0 <= rows <= g.dh,
        g.dw > 0,
        g.dw * g.bpp <= g.dst_pitch,
        g.dh > 0 ==> copy_writes_ok(g, pix.len() as int),
    ensures
        scale_rows(pix, data, g, rows).len() == pix.len(),
        forall|y: int, x: int, b: int| 0 <= y < rows && 0 <= x < g.dw && 0 <= b < g.bpp
            ==> scale_rows(pix, data, g, rows)[#[trigger] scaled_dst_at(g, y, x, b)] == data[scaled_src_at(g, y, x, b)],
        forall|i: int| 0 <= i < pix.len() && !in_blit(g, rows, i)
            ==> #[trigger] scale_rows(pix, data, g, rows)[i] == pix[i],
    decreases rows,
{
    if rows > 0 {
        law_scaled_blit(pix, data, g, rows - 1);
        let prev = scale_rows(pix, data, g, rows - 1);
        let r = scale_rows(pix, data, g, rows);
        let bpp = g.bpp as int;
        let p = g.dst_pitch as int;
        lemma_row_le((g.dy0 + rows - 1) as int, (g.dy0 + g.dh - 1) as int, p);
        lemma_distrib(g.dx0 as int, g.dw as int, bpp);
        lemma_scale_row(prev, data, g, rows - 1, g.dw as int);
        assert forall|y: int, x: int, b: int| 0 <= y < rows && 0 <= x < g.dw && 0 <= b < g.bpp
            implies r[#[trigger] scaled_dst_at(g, y, x, b)] == data[scaled_src_at(g, y, x, b)] by {
            if y < rows - 1 {
                lemma_distrib(x, 1, bpp);
                lemma_row_le(x + 1, g.dw as int, bpp);
                lemma_rows_apart(p, g.dy0 + y, g.dy0 + rows - 1);
                assert(prev[scaled_dst_at(g, y, x, b)] == data[scaled_src_at(g, y, x, b)]);
            }
        }
        assert forall|i: int| 0 <= i < pix.len() && !in_blit(g, rows, i) implies #[trigger] r[i] == pix[i] by {
            if in_blit(g, rows - 1, i) {
                let y = choose|y: int| 0 <= y < rows - 1 && blit_dst_at(g, y, 0) <= i < #[trigger] blit_dst_at(g, y, g.dw * g.bpp);
                assert(blit_dst_at(g, y, 0) <= i < blit_dst_at(g, y, g.dw * g.bpp));
            }
            if blit_dst_at(g, rows - 1, 0) <= i < blit_dst_at(g, rows - 1, g.dw * g.bpp) {
                assert(blit_dst_at(g, rows - 1, 0) <= i < blit_dst_at(g, rows - 1, g.dw * g.bpp));
            }
        }
    }
}

/// After a flip the front buffer starts with the back buffer's `n` bytes
/// of pixels, and every byte after them (the guard rows) is as it was.
pub proof fn law_flip_shows_back(front: Seq<u8>, back: Seq<u8>, n: int)
    requires
        0 <= n <= front.len(),
        n <= back.len(),
    ensures
        copy_span(front, back, 0, 0, n).len() == front.len(),
        copy_span(front, back, 0, 0, n).subrange(0, n) == back.subrange(0, n),
        copy_span(front, back, 0, 0, n).subrange(n, front.len() as int) == front.subrange(n, front.len() as int),
{
    assert(copy_span(front, back, 0, 0, n).subrange(0, n) =~= back.subrange(0, n));
    assert(copy_span(front, back, 0, 0, n).subrange(n, front.len() as int)
        =~= front.subrange(n, front.len() as int));
}


/// A lock of a rectangle inside the surface hands out memory inside the
/// surface: its first pixel lies at or after the start, and the last byte
/// of its last row lies within the visible rows.
pub proof fn law_lock_stays_in_memory(s: SurfaceImpl, r: Rect)
    requires
        s.wf(),
        0 <= r.left < r.right <= s.width,
        0 <= r.top < r.bottom <= s.height,
    ensures
        0 <= s.lock_offset(r),
        s.lock_offset(r) + (r.bottom - 1 - r.top) * s.pitch + (r.right - r.left) * bytes_pp(s.bpp)
            <= s.pitch * s.height,
        s.pitch * s.height <= s.buffers.mem_len(),
{
    let b = bytes_pp(s.bpp);
    let p = s.pitch as int;
    assert(1 <= b);
    assert(p == s.width * b);
    assert(0 <= r.top * p) by (nonlinear_arith) requires 0 <= r.top, 0 <= p;
    assert(0 <= r.left * b) by (nonlinear_arith) requires 0 <= r.left, 1 <= b;
    assert(r.top * p + (r.bottom - 1 - r.top) * p == (r.bottom - 1) * p) by (nonlinear_arith);
    assert(r.left * b + (r.right - r.left) * b == r.right * b) by (nonlinear_arith);
    assert((r.bottom - 1) * p <= (s.height - 1) * p) by (nonlinear_arith)
        requires r.bottom <= s.height, 0 <= p;
    assert(r.right * b <= s.width * b) by (nonlinear_arith) requires r.right <= s.width, 1 <= b;
    assert((s.height - 1) * p + p == s.height * p) by (nonlinear_arith);
    assert(p * s.height <= p * (s.height + GUARD_LINES)) by (nonlinear_arith)
        requires 0 <= p, 0 <= s.height;
}


proof fn lemma_fill_rows_empty_columns(pix: Seq<u8>, pitch: int, x: int, y0: int, y1: int, lo: u8, hi: u8)
    ensures
        fill_rows(pix, pitch, x, x, y0, y1, lo, hi) == pix,
    decreases y1 - y0,
{
    if y1 > y0 {
        lemma_fill_rows_empty_columns(pix, pitch, x, y0, y1 - 1, lo, hi);
        assert(fill_row(pix, (y1 - 1) * pitch, x, x, lo, hi) =~= pix);
    }
}

/// A colour-fill blit without a source writes the fill colour (low byte,
/// then high byte) into every pixel column of the destination rectangle
/// clamped to the surface, and every byte of the surface's memory outside
/// that rectangle keeps its value, on surfaces of 16 bits per pixel or
/// more. Such a blit always succeeds.
pub proof fn law_fill_blit_writes_only_the_rectangle(
    s: SurfaceImpl,
    pix: Seq<u8>,
    dr: Option<Rect>,
    sr: Option<Rect>,
    flags: u32,
    c: u32,
)
    requires
        s.wf(),
        s.bpp >= 16,
        pix.len() >= s.buffers.mem_len(),
        flags & DDBLT_COLORFILL != 0,
    ensures
        s.blt_reads_ok(dr, None, sr),
        s.spec_blt(pix, dr, None, sr, flags, Some(c)).len() == pix.len(),
        forall|y: int, x: int|
            spec_rect_clamp(dr, s.width as int, s.height as int).1 <= y < spec_rect_clamp(dr, s.width as int, s.height as int).3
            && spec_rect_clamp(dr, s.width as int, s.height as int).0 <= x < spec_rect_clamp(dr, s.width as int, s.height as int).2
            ==> {
                &&& s.spec_blt(pix, dr, None, sr, flags, Some(c))[#[trigger] fill_cell(s.pitch as int, y, x)] == (c % 256) as u8
                &&& s.spec_blt(pix, dr, None, sr, flags, Some(c))[fill_cell(s.pitch as int, y, x) + 1] == ((c % 65536) / 256) as u8
            },
        forall|i: int| 0 <= i < pix.len() && !in_fill(
            s.pitch as int,
            spec_rect_clamp(dr, s.width as int, s.height as int).0,
            spec_rect_clamp(dr, s.width as int, s.height as int).2,
            spec_rect_clamp(dr, s.width as int, s.height as int).1,
            spec_rect_clamp(dr, s.width as int, s.height as int).3,
            i,
        ) ==> #[trigger] s.spec_blt(pix, dr, None, sr, flags, Some(c))[i] == pix[i],
{
    let d = spec_rect_clamp(dr, s.width as int, s.height as int);
    let p = s.pitch as int;
    let b = bytes_pp(s.bpp);
    lemma_dims_bounds(s.width, s.height, s.bpp);
    assert(b >= 2);
    assert(p == s.width * b);
    assert(2 * s.width <= p) by (nonlinear_arith) requires p == s.width * b, b >= 2, s.width >= 1;
    if d.0 < d.2 && d.1 < d.3 {
        assert(d.2 <= s.width && d.3 <= s.height);
        lemma_fill_bound(s.width as int, s.height as int, b, d.2, d.3);
        law_color_fill(pix, p, d.0, d.2, d.1, d.3, fill_lo(c), fill_hi(c));
    } else if d.0 == d.2 {
        lemma_fill_rows_empty_columns(pix, p, d.0, d.1, d.3, fill_lo(c), fill_hi(c));
    } else {
        assert(d.1 == d.3);
    }
}


/// Locking a rectangle inside the surface describes exactly that
/// rectangle: its width is `right - left` and its height `bottom - top`,
/// rows keep the surface's pitch, the described pixels start at the
/// rectangle's top-left pixel and end at its bottom-right pixel. Locking
/// the whole surface describes the surface from its first pixel.
pub proof fn law_lock_describes_rectangle(s: SurfaceImpl, old: SurfaceDesc, r: Rect, rgb555: bool, size: u32)
    requires
        s.wf(),
        0 <= r.left < r.right <= s.width,
        0 <= r.top < r.bottom <= s.height,
    ensures
        ({
            let d = s.spec_locked_desc(old, Some(r), rgb555, size);
            let b = bytes_pp(s.bpp);
            &&& d.width == r.right - r.left
            &&& d.height == r.bottom - r.top
            &&& d.pitch == s.pitch
            &&& d.surface_offset == r.top * s.pitch + r.left * b
            &&& d.surface_offset + (d.height - 1) * d.pitch + (d.width - 1) * b
                == (r.bottom - 1) * s.pitch + (r.right - 1) * b
        }),
        ({
            let w = s.spec_locked_desc(old, None, rgb555, size);
            &&& w.width == s.width
            &&& w.height == s.height
            &&& w.pitch == s.pitch
            &&& w.surface_offset == 0
        }),
{
    law_lock_stays_in_memory(s, r);
    lemma_dims_bounds(s.width, s.height, s.bpp);
    let b = bytes_pp(s.bpp);
    let p = s.pitch as int;
    assert(s.pitch * s.height <= i32::MAX) by {
        assert(p * s.height <= p * (s.height + GUARD_LINES)) by (nonlinear_arith)
            requires p >= 0, s.height >= 0;
    }
    assert(r.top * p + (r.bottom - r.top - 1) * p == (r.bottom - 1) * p) by (nonlinear_arith);
    assert(r.left * b + (r.right - r.left - 1) * b == (r.right - 1) * b) by (nonlinear_arith);
}

} // verus!
