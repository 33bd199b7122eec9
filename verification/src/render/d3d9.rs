//! Direct3D 9 presentation: swap-chain parameters, when the device and
//! texture are rebuilt, the conversion of surface pixels to A8R8G8B8, and
//! the viewport the frame is drawn to.

use vstd::prelude::*;
use crate::geometry::Rect;
use super::gdi::has_viewport;

verus! {

/// Present interval: wait for one vertical blank.
pub const D3DPRESENT_INTERVAL_ONE: u32 = 0x1;
/// Present interval: present at once.
pub const D3DPRESENT_INTERVAL_IMMEDIATE: u32 = 0x8000_0000;

/// The parts of the presentation parameters that depend on the window.
#[derive(Clone, Copy, Debug, PartialEq, Eq, Structural)]
pub struct PresentParams {
    pub back_buffer_width: u32,
    pub back_buffer_height: u32,
    pub presentation_interval: u32,
}

/// At least one.
pub open spec fn at_least_one(v: i32) -> i32 {
    if v > 1 { v } else { 1 }
}

/// Presentation parameters for a `w` by `h` client area: a back buffer of
/// the client's size (at least one pixel each way), presenting on the
/// vertical blank when `vsync` is on.
pub fn present_params(w: i32, h: i32, vsync: bool) -> (r: PresentParams)
    ensures
        r == (PresentParams {
            back_buffer_width: at_least_one(w) as u32,
            back_buffer_height: at_least_one(h) as u32,
            presentation_interval: if vsync { D3DPRESENT_INTERVAL_ONE } else { D3DPRESENT_INTERVAL_IMMEDIATE },
        }),
{
    let bw = if w > 1 { w } else { 1 };
    let bh = if h > 1 { h } else { 1 };
    PresentParams {
        back_buffer_width: bw as u32,
        back_buffer_height: bh as u32,
        presentation_interval: if vsync { D3DPRESENT_INTERVAL_ONE } else { D3DPRESENT_INTERVAL_IMMEDIATE },
    }
}

/// The device's record of the client size and of the texture it holds.
#[derive(Clone, Copy, Debug, PartialEq, Eq, Structural)]
pub struct D3D9State {
    pub client_w: i32,
    pub client_h: i32,
    pub has_texture: bool,
    pub tex_w: i32,
    pub tex_h: i32,
    pub surf_bpp: i32,
    pub vsync: bool,
}

impl D3D9State {
    /// The state of a new device for a `cw` by `ch` client area.
    pub fn new(cw: i32, ch: i32, vsync: bool) -> (r: D3D9State)
        ensures
            r == (D3D9State {
                client_w: at_least_one(cw),
                client_h: at_least_one(ch),
                has_texture: false,
                tex_w: 0,
                tex_h: 0,
                surf_bpp: 0,
                vsync,
            }),
    {
        D3D9State {
            client_w: if cw > 1 { cw } else { 1 },
            client_h: if ch > 1 { ch } else { 1 },
            has_texture: false,
            tex_w: 0,
            tex_h: 0,
            surf_bpp: 0,
            vsync,
        }
    }

    /// The presentation parameters for the recorded client size.
    pub fn present_params(&self, w: i32, h: i32) -> (r: PresentParams)
        ensures
            r == (PresentParams {
                back_buffer_width: at_least_one(w) as u32,
                back_buffer_height: at_least_one(h) as u32,
                presentation_interval: if self.vsync { D3DPRESENT_INTERVAL_ONE } else { D3DPRESENT_INTERVAL_IMMEDIATE },
            }),
    {
        present_params(w, h, self.vsync)
    }

    /// The state and the reset parameters after following the client area
    /// to `cw` by `ch`: unchanged and nothing when the (at least one pixel)
    /// size is the recorded one; otherwise the new size recorded, the
    /// texture dropped, and the parameters for the new size.
    pub open spec fn spec_resize(self, cw: i32, ch: i32) -> (D3D9State, Option<PresentParams>) {
        if at_least_one(cw) == self.client_w && at_least_one(ch) == self.client_h {
            (self, None)
        } else {
            (
                D3D9State { client_w: at_least_one(cw), client_h: at_least_one(ch), has_texture: false, ..self },
                Some(PresentParams {
                    back_buffer_width: at_least_one(cw) as u32,
                    back_buffer_height: at_least_one(ch) as u32,
                    presentation_interval: if self.vsync { D3DPRESENT_INTERVAL_ONE } else { D3DPRESENT_INTERVAL_IMMEDIATE },
                }),
            )
        }
    }

    /// Follow the client area to a new size: returns the parameters to
    /// reset the swap chain with when the size changed (the texture is
    /// dropped then), none otherwise.
    pub fn ensure_size(&mut self, cw: i32, ch: i32) -> (r: Option<PresentParams>)
        ensures
            (*final(self), r) == old(self).spec_resize(cw, ch),
    {
        let w = if cw > 1 { cw } else { 1 };
        let h = if ch > 1 { ch } else { 1 };
        if w == self.client_w && h == self.client_h {
            return None;
        }
        self.client_w = w;
        self.client_h = h;
        self.has_texture = false;
        Some(self.present_params(w, h))
    }

    /// Recover from a lost device: the texture is dropped, and the swap
    /// chain is reset with the parameters for the recorded client size. When
    /// that reset fails the frame is skipped.
    pub fn device_lost(&mut self) -> (r: PresentParams)
        ensures
            *final(self) == (D3D9State { has_texture: false, ..*old(self) }),
            r == (PresentParams {
                back_buffer_width: at_least_one(old(self).client_w) as u32,
                back_buffer_height: at_least_one(old(self).client_h) as u32,
                presentation_interval: if old(self).vsync { D3DPRESENT_INTERVAL_ONE } else { D3DPRESENT_INTERVAL_IMMEDIATE },
            }),
    {
        self.has_texture = false;
        self.present_params(self.client_w, self.client_h)
    }

    /// Whether the texture must be (re)created before uploading a surface
    /// of the given size and depth.
    pub fn texture_stale(&self, w: i32, h: i32, bpp: i32) -> (r: bool)
        ensures
            r == !(self.has_texture && w == self.tex_w && h == self.tex_h && bpp == self.surf_bpp),
    {
        !(self.has_texture && w == self.tex_w && h == self.tex_h && bpp == self.surf_bpp)
    }

    /// Record a texture created for a surface of the given size and depth.
    pub fn texture_created(&mut self, w: i32, h: i32, bpp: i32)
        ensures
            *final(self) == (D3D9State { has_texture: true, tex_w: w, tex_h: h, surf_bpp: bpp, ..*old(self) }),
    {
        self.has_texture = true;
        self.tex_w = w;
        self.tex_h = h;
        self.surf_bpp = bpp;
    }
}

/// An 8-bit channel from a `bits`-bit one: `c * 255 / (2^bits - 1)`.
pub open spec fn widen(c: int, max: int) -> int {
    c * 255 / max
}

/// The A8R8G8B8 value (opaque) of red, green and blue bytes.
pub open spec fn argb(r: int, g: int, b: int) -> int {
    b + g * 0x100 + r * 0x1_0000 + 0xFF00_0000
}

/// A 16-bit pixel as A8R8G8B8: five bits each of red, green, blue (or six
/// of green in RGB565), each widened to eight bits.
pub open spec fn spec_convert16(v: int, rgb555: bool) -> int {
    if rgb555 {
        argb(widen((v / 1024) % 32, 31), widen((v / 32) % 32, 31), widen(v % 32, 31))
    } else {
        argb(widen((v / 2048) % 32, 31), widen((v / 32) % 64, 63), widen(v % 32, 31))
    }
}

/// The A8R8G8B8 value of the pixel at `off` of a surface of depth `bpp`:
/// 32-bit pixels are BGRX bytes, 16-bit ones little-endian RGB555 or
/// RGB565; other depths give opaque black.
pub open spec fn spec_convert_pixel(src: Seq<u8>, off: int, bpp: i32, rgb555: bool) -> u32 {
    if bpp == 32 {
        argb(src[off + 2] as int, src[off + 1] as int, src[off] as int) as u32
    } else if bpp == 16 {
        spec_convert16(src[off] + src[off + 1] * 256, rgb555) as u32
    } else {
        0xFF00_0000u32
    }
}

/// Bytes of source a pixel conversion reads.
pub open spec fn src_bytes(bpp: i32) -> int {
    if bpp == 32 { 4 } else if bpp == 16 { 2 } else { 0 }
}

/// Bytes of source a pixel conversion reads (see `src_bytes`).
pub fn source_pixel_bytes(bpp: i32) -> (r: usize)
    ensures
        r == src_bytes(bpp),
{
    if bpp == 32 { 4 } else if bpp == 16 { 2 } else { 0 }
}

proof fn lemma_widen(c: int, max: int)
    requires
        0 <= c <= max,
        1 <= max,
    ensures
        0 <= widen(c, max) <= 255,
{
    assert(c * 255 <= max * 255) by (nonlinear_arith) requires c <= max, 0 <= c;
    assert(0 <= c * 255) by (nonlinear_arith) requires 0 <= c;
    assert(c * 255 / max <= 255) by (nonlinear_arith) requires c * 255 <= max * 255, 1 <= max;
    assert(0 <= c * 255 / max) by (nonlinear_arith) requires 0 <= c * 255, 1 <= max;
}

/// Convert the pixel at `off` of a surface of depth `bpp` to A8R8G8B8.
pub fn convert_pixel(src: &[u8], off: usize, bpp: i32, rgb555: bool) -> (r: u32)
    requires
        off + src_bytes(bpp) <= src@.len(),
    ensures
        r == spec_convert_pixel(src@, off as int, bpp, rgb555),
{
    if bpp == 32 {
        let b = src[off] as u32;
        let g = src[off + 1] as u32;
        let r = src[off + 2] as u32;
        b + g * 0x100 + r * 0x1_0000 + 0xFF00_0000
    } else if bpp == 16 {
        let v = (src[off] as u32) + (src[off + 1] as u32) * 256;
        let (r, g, b, gmax) = if rgb555 {
            ((v / 1024) % 32, (v / 32) % 32, v % 32, 31u32)
        } else {
            ((v / 2048) % 32, (v / 32) % 64, v % 32, 63u32)
        };
        proof {
            lemma_widen(r as int, 31);
            lemma_widen(g as int, gmax as int);
            lemma_widen(b as int, 31);
        }
        let r8 = r * 255 / 31;
        let g8 = g * 255 / gmax;
        let b8 = b * 255 / 31;
        b8 + g8 * 0x100 + r8 * 0x1_0000 + 0xFF00_0000
    } else {
        0xFF00_0000
    }
}

/// `dst` after converting the first `n` pixels of row `y`.
pub open spec fn upload_row(dst: Seq<u32>, src: Seq<u8>, y: int, n: int, src_pitch: int, dst_pitch: int, bpp: i32, rgb555: bool) -> Seq<u32>
    decreases n,
{
    if n <= 0 {
        dst
    } else {
        upload_row(dst, src, y, n - 1, src_pitch, dst_pitch, bpp, rgb555).update(
            y * dst_pitch + n - 1,
            spec_convert_pixel(src, y * src_pitch + (n - 1) * src_bytes(bpp), bpp, rgb555),
        )
    }
}

/// `dst` after converting the first `rows` rows of `width` pixels.
pub open spec fn upload_rows(dst: Seq<u32>, src: Seq<u8>, rows: int, width: int, src_pitch: int, dst_pitch: int, bpp: i32, rgb555: bool) -> Seq<u32>
    decreases rows,
{
    if rows <= 0 {
        dst
    } else {
        upload_row(upload_rows(dst, src, rows - 1, width, src_pitch, dst_pitch, bpp, rgb555), src, rows - 1, width, src_pitch, dst_pitch, bpp, rgb555)
    }
}

/// Convert a `width` by `height` surface (rows `src_pitch` bytes apart)
/// into the locked texture `dst` (rows `dst_pitch` pixels apart), row by
/// row.
pub fn upload(dst: &mut [u32], src: &[u8], width: usize, height: usize, src_pitch: usize, dst_pitch: usize, bpp: i32, rgb555: bool)
    requires
        width <= dst_pitch,
        height > 0 ==> (height - 1) * dst_pitch + width <= old(dst)@.len(),
        height > 0 ==> (height - 1) * src_pitch + width * src_bytes(bpp) <= src@.len(),
    ensures
        final(dst)@ == upload_rows(old(dst)@, src@, height as int, width as int, src_pitch as int, dst_pitch as int, bpp, rgb555),
{
    let sb: usize = source_pixel_bytes(bpp);
    let dlen = dst.len();
    let slen = src.len();
    let mut y: usize = 0;
    while y < height
        invariant
            y <= height,
            sb as int == src_bytes(bpp),
            width <= dst_pitch,
            dlen == dst@.len(),
            slen == src@.len(),
            dst@.len() == old(dst)@.len(),
            height > 0 ==> (height - 1) * dst_pitch + width <= dst@.len(),
            height > 0 ==> (height - 1) * src_pitch + width * src_bytes(bpp) <= src@.len(),
            dst@ == upload_rows(old(dst)@, src@, y as int, width as int, src_pitch as int, dst_pitch as int, bpp, rgb555),
        decreases height - y,
    {
        proof {
            assert(y * dst_pitch <= (height - 1) * dst_pitch) by (nonlinear_arith)
                requires y <= height - 1;
            assert(y * src_pitch <= (height - 1) * src_pitch) by (nonlinear_arith)
                requires y <= height - 1;
        }
        let drow = y * dst_pitch;
        let srow = y * src_pitch;
        let ghost start = dst@;
        let mut x: usize = 0;
        while x < width
            invariant
                x <= width,
                y < height,
                sb as int == src_bytes(bpp),
                drow == y * dst_pitch,
                srow == y * src_pitch,
                dlen == dst@.len(),
                slen == src@.len(),
                dst@.len() == start.len(),
                drow + width <= dst@.len(),
                srow + width * sb <= src@.len(),
                dst@ == upload_row(start, src@, y as int, x as int, src_pitch as int, dst_pitch as int, bpp, rgb555),
            decreases width - x,
        {
            proof {
                assert(x * sb + sb <= width * sb) by (nonlinear_arith)
                    requires x < width;
            }
            let v = convert_pixel(src, srow + x * sb, bpp, rgb555);
            dst[drow + x] = v;
            x = x + 1;
        }
        y = y + 1;
    }
}

/// The Direct3D viewport `(x, y, width, height)`: the laid-out render
/// viewport, or the whole client area when none is laid out.
pub open spec fn spec_d3d_viewport(vp: Rect, client_w: i32, client_h: i32) -> (u32, u32, u32, u32) {
    if has_viewport(vp) {
        (vp.left as u32, vp.top as u32, (vp.right - vp.left) as u32, (vp.bottom - vp.top) as u32)
    } else {
        (0u32, 0u32, client_w as u32, client_h as u32)
    }
}

/// The Direct3D viewport (see `spec_d3d_viewport`).
pub fn d3d_viewport(vp: Rect, client_w: i32, client_h: i32) -> (r: (u32, u32, u32, u32))
    requires
        i32::MIN <= vp.right - vp.left <= i32::MAX,
        i32::MIN <= vp.bottom - vp.top <= i32::MAX,
    ensures
        r == spec_d3d_viewport(vp, client_w, client_h),
{
    if vp.right > vp.left && vp.bottom > vp.top {
        (vp.left as u32, vp.top as u32, (vp.right - vp.left) as u32, (vp.bottom - vp.top) as u32)
    } else {
        (0, 0, client_w as u32, client_h as u32)
    }
}


/// Every converted pixel is opaque: its alpha byte is 0xFF.
pub proof fn law_converted_pixels_opaque(src: Seq<u8>, off: int, bpp: i32, rgb555: bool)
    requires
        0 <= off,
        off + src_bytes(bpp) <= src.len(),
    ensures
        spec_convert_pixel(src, off, bpp, rgb555) / 0x100_0000 == 0xFF,
{
    if bpp == 16 {
        let v = src[off] + src[off + 1] * 256;
        if rgb555 {
            lemma_widen((v / 1024) % 32, 31);
            lemma_widen((v / 32) % 32, 31);
            lemma_widen(v % 32, 31);
        } else {
            lemma_widen((v / 2048) % 32, 31);
            lemma_widen((v / 32) % 64, 63);
            lemma_widen(v % 32, 31);
        }
    }
}


/// Following the client area twice to the same size resets the swap chain
/// at most once: the second call changes nothing and asks for no reset.
pub proof fn law_resize_is_idempotent(s: D3D9State, cw: i32, ch: i32)
    ensures
        s.spec_resize(cw, ch).0.spec_resize(cw, ch) == (s.spec_resize(cw, ch).0, None::<PresentParams>),
{
}


/// The bytes of an opaque A8R8G8B8 value built from channel bytes: blue
/// lowest, then green, then red, then alpha 0xFF.
proof fn lemma_argb_bytes(r: int, g: int, b: int)
    requires
        0 <= r <= 255,
        0 <= g <= 255,
        0 <= b <= 255,
    ensures
        0 <= argb(r, g, b) <= u32::MAX,
        argb(r, g, b) % 256 == b,
        (argb(r, g, b) / 256) % 256 == g,
        (argb(r, g, b) / 65536) % 256 == r,
        argb(r, g, b) / 0x100_0000 == 0xFF,
{
    let x = argb(r, g, b);
    let q1 = g + 256 * (r + 256 * 255);
    assert(x == q1 * 256 + b);
    vstd::arithmetic::div_mod::lemma_fundamental_div_mod_converse(x, 256, q1, b);
    let q2 = r + 256 * 255;
    assert(q1 == q2 * 256 + g);
    vstd::arithmetic::div_mod::lemma_fundamental_div_mod_converse(q1, 256, q2, g);
    assert(q2 == 255 * 256 + r);
    vstd::arithmetic::div_mod::lemma_fundamental_div_mod_converse(q2, 256, 255, r);
    vstd::arithmetic::div_mod::lemma_div_denominator(x, 256, 256);
    vstd::arithmetic::div_mod::lemma_div_denominator(x, 65536, 256);
    assert(x == 0x100_0000 * 255 + (r * 65536 + g * 256 + b));
    assert(r * 65536 + g * 256 + b < 0x100_0000) by (nonlinear_arith)
        requires 0 <= r <= 255, 0 <= g <= 255, 0 <= b <= 255;
    vstd::arithmetic::div_mod::lemma_fundamental_div_mod_converse(x, 0x100_0000, 255, r * 65536 + g * 256 + b);
}

/// What a pixel converts to, channel by channel: the result is opaque
/// (alpha 0xFF); a 32-bit pixel's blue, green and red bytes are taken as
/// they are; a 16-bit pixel's 5-bit channels c become c * 255 / 31 and, in
/// RGB565, the 6-bit green g becomes g * 255 / 63, so a channel at its
/// maximum becomes 0xFF and a channel at 0 stays 0.
pub proof fn law_pixel_channels(src: Seq<u8>, off: int, bpp: i32, rgb555: bool)
    requires
        0 <= off,
        off + src_bytes(bpp) <= src.len(),
    ensures
        spec_convert_pixel(src, off, bpp, rgb555) / 0x100_0000 == 0xFF,
        bpp == 32 ==> {
            &&& spec_convert_pixel(src, off, bpp, rgb555) % 256 == src[off]
            &&& (spec_convert_pixel(src, off, bpp, rgb555) / 256) % 256 == src[off + 1]
            &&& (spec_convert_pixel(src, off, bpp, rgb555) / 65536) % 256 == src[off + 2]
        },
        bpp == 16 && rgb555 ==> {
            let v = src[off] + src[off + 1] * 256;
            &&& spec_convert_pixel(src, off, bpp, rgb555) % 256 == (v % 32) * 255 / 31
            &&& (spec_convert_pixel(src, off, bpp, rgb555) / 256) % 256 == ((v / 32) % 32) * 255 / 31
            &&& (spec_convert_pixel(src, off, bpp, rgb555) / 65536) % 256 == ((v / 1024) % 32) * 255 / 31
        },
        bpp == 16 && !rgb555 ==> {
            let v = src[off] + src[off + 1] * 256;
            &&& spec_convert_pixel(src, off, bpp, rgb555) % 256 == (v % 32) * 255 / 31
            &&& (spec_convert_pixel(src, off, bpp, rgb555) / 256) % 256 == ((v / 32) % 64) * 255 / 63
            &&& (spec_convert_pixel(src, off, bpp, rgb555) / 65536) % 256 == ((v / 2048) % 32) * 255 / 31
        },
        bpp == 16 && rgb555 && ((src[off] + src[off + 1] * 256) / 32) % 32 == 31
            ==> (spec_convert_pixel(src, off, bpp, rgb555) / 256) % 256 == 0xFF,
        bpp == 16 && !rgb555 && ((src[off] + src[off + 1] * 256) / 32) % 64 == 63
            ==> (spec_convert_pixel(src, off, bpp, rgb555) / 256) % 256 == 0xFF,
{
    if bpp == 32 {
        lemma_argb_bytes(src[off + 2] as int, src[off + 1] as int, src[off] as int);
    } else if bpp == 16 {
        let v = src[off] + src[off + 1] * 256;
        if rgb555 {
            lemma_widen((v / 1024) % 32, 31);
            lemma_widen((v / 32) % 32, 31);
            lemma_widen(v % 32, 31);
            lemma_argb_bytes(widen((v / 1024) % 32, 31), widen((v / 32) % 32, 31), widen(v % 32, 31));
        } else {
            lemma_widen((v / 2048) % 32, 31);
            lemma_widen((v / 32) % 64, 63);
            lemma_widen(v % 32, 31);
            lemma_argb_bytes(widen((v / 2048) % 32, 31), widen((v / 32) % 64, 63), widen(v % 32, 31));
        }
    }
}

} // verus!
