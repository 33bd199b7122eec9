//! OpenGL presentation: texture sizes and formats, and the viewport the
//! frame is drawn to.

use vstd::prelude::*;
use crate::geometry::Rect;
use super::gdi::has_viewport;

verus! {

/// Whether `r` is a power of two.
pub open spec fn is_pow2(r: i32) -> bool {
    r > 0 && r & (r - 1) as i32 == 0
}

/// The smallest power of two not below `v` (0 for `v` not above 0), by
/// smearing the bits of `v - 1` downwards.
pub fn next_pow2(v: i32) -> (r: i32)
    requires
        i32::MIN < v <= 0x4000_0000,
    ensures
        v <= 0 ==> r == 0,
        v >= 1 ==> is_pow2(r) && r >= v && (r == 1 || r / 2 < v),
{
    let mut x = v - 1;
    x |= x >> 1;
    x |= x >> 2;
    x |= x >> 4;
    x |= x >> 8;
    x |= x >> 16;
    proof {
        let x0 = (v - 1) as i32;
        let x1 = x0 | (x0 >> 1);
        let x2 = x1 | (x1 >> 2);
        let x3 = x2 | (x2 >> 4);
        let x4 = x3 | (x3 >> 8);
        let x5 = x4 | (x4 >> 16);
        assert(x == x5);
        assert(v <= 0 ==> x5 == -1i32) by (bit_vector)
            requires
                i32::MIN < v <= 0x4000_0000,
                x0 == (v - 1) as i32,
                x1 == x0 | (x0 >> 1),
                x2 == x1 | (x1 >> 2),
                x3 == x2 | (x2 >> 4),
                x4 == x3 | (x3 >> 8),
                x5 == x4 | (x4 >> 16);
        assert(v >= 1 ==> {
            &&& 0 <= x5 < 0x4000_0000
            &&& (x5 + 1) as i32 > 0
            &&& (x5 + 1) as i32 & x5 == 0
            &&& (x5 + 1) as i32 >= v
            &&& ((x5 + 1) as i32 == 1 || ((x5 + 1) as i32) >> 1 < v)
        }) by (bit_vector)
            requires
                i32::MIN < v <= 0x4000_0000,
                x0 == (v - 1) as i32,
                x1 == x0 | (x0 >> 1),
                x2 == x1 | (x1 >> 2),
                x3 == x2 | (x2 >> 4),
                x4 == x3 | (x3 >> 8),
                x5 == x4 | (x4 >> 16);
        if v >= 1 {
            let r = (x5 + 1) as i32;
            assert(r >> 1 == r / 2) by (bit_vector) requires r > 0;
        }
    }
    x + 1
}

/// Pixel layout of the texture the surface is uploaded to.
#[derive(Clone, Copy, Debug, PartialEq, Eq, Structural)]
pub enum TextureFormat {
    /// 32-bit surfaces: four bytes per pixel, blue first.
    Bgra8,
    /// Every other depth: 16-bit RGB565.
    Rgb565,
}

/// The texture layout for a surface of `bpp` bits per pixel.
pub fn texture_format(bpp: i32) -> (r: TextureFormat)
    ensures
        r == (if bpp == 32 { TextureFormat::Bgra8 } else { TextureFormat::Rgb565 }),
{
    if bpp == 32 { TextureFormat::Bgra8 } else { TextureFormat::Rgb565 }
}

/// The texture for a surface: its power-of-two size and what it was
/// configured for.
#[derive(Clone, Copy, Debug, PartialEq, Eq, Structural)]
pub struct GlTexture {
    pub tex_w: i32,
    pub tex_h: i32,
    pub surf_w: i32,
    pub surf_h: i32,
    pub surf_bpp: i32,
}

impl GlTexture {
    /// The texture made when the context is created: sized for the
    /// surface, in the 16-bit layout.
    pub fn new(width: i32, height: i32) -> (r: GlTexture)
        requires
            i32::MIN < width <= 0x4000_0000,
            i32::MIN < height <= 0x4000_0000,
        ensures
            r.surf_w == width,
            r.surf_h == height,
            r.surf_bpp == 16,
            width >= 1 ==> is_pow2(r.tex_w) && r.tex_w >= width && (r.tex_w == 1 || r.tex_w / 2 < width),
            height >= 1 ==> is_pow2(r.tex_h) && r.tex_h >= height && (r.tex_h == 1 || r.tex_h / 2 < height),
            width <= 0 ==> r.tex_w == 0,
            height <= 0 ==> r.tex_h == 0,
    {
        GlTexture { tex_w: next_pow2(width), tex_h: next_pow2(height), surf_w: width, surf_h: height, surf_bpp: 16 }
    }

    /// Reconfigure the texture for a surface of the given size and depth;
    /// returns whether it had to be recreated (the size or depth changed).
    pub fn ensure_texture(&mut self, width: i32, height: i32, bpp: i32) -> (recreated: bool)
        requires
            width <= 0x4000_0000,
            height <= 0x4000_0000,
        ensures
            recreated == !(width == old(self).surf_w && height == old(self).surf_h && bpp == old(self).surf_bpp),
            !recreated ==> *final(self) == *old(self),
            recreated ==> {
                &&& final(self).surf_w == width
                &&& final(self).surf_h == height
                &&& final(self).surf_bpp == bpp
                &&& is_pow2(final(self).tex_w)
                &&& final(self).tex_w >= width
                &&& (final(self).tex_w == 1 || final(self).tex_w / 2 < (if width > 1 { width } else { 1i32 }))
                &&& is_pow2(final(self).tex_h)
                &&& final(self).tex_h >= height
                &&& (final(self).tex_h == 1 || final(self).tex_h / 2 < (if height > 1 { height } else { 1i32 }))
            },
    {
        if width == self.surf_w && height == self.surf_h && bpp == self.surf_bpp {
            return false;
        }
        let w = if width > 1 { width } else { 1 };
        let h = if height > 1 { height } else { 1 };
        self.tex_w = next_pow2(w);
        self.tex_h = next_pow2(h);
        self.surf_w = width;
        self.surf_h = height;
        self.surf_bpp = bpp;
        true
    }
}

/// A viewport given by corner and size.
#[derive(Clone, Copy, Debug, PartialEq, Eq, Structural)]
pub struct ViewBox {
    pub x: i32,
    pub y: i32,
    pub width: i32,
    pub height: i32,
}

/// What an OpenGL present draws to: the GL viewport when one is set, and
/// whether the render layout's scale is applied.
#[derive(Clone, Copy, Debug, PartialEq, Eq, Structural)]
pub struct GlViewport {
    pub viewport: Option<ViewBox>,
    pub use_layout_scale: bool,
}

/// The GL viewport for render viewport `vp` in a `cw` by `ch` client area:
/// the laid-out viewport (with the layout's scale when it is stretched),
/// else the client area, else a one-pixel area.
pub open spec fn spec_gl_viewport(vp: Rect, stretched: bool, cw: i32, ch: i32) -> GlViewport {
    let (vl, vt, vr, vb, scaled) = if has_viewport(vp) {
        (vp.left, vp.top, vp.right, vp.bottom, stretched)
    } else if cw > 0 && ch > 0 {
        (0i32, 0i32, cw, ch, false)
    } else {
        (0i32, 0i32, 1i32, 1i32, false)
    };
    GlViewport {
        viewport: if vr > vl && vb > vt {
            Some(ViewBox { x: vl, y: vt, width: (vr - vl) as i32, height: (vb - vt) as i32 })
        } else if cw > 0 && ch > 0 {
            Some(ViewBox { x: 0, y: 0, width: cw, height: ch })
        } else {
            None
        },
        use_layout_scale: scaled,
    }
}

/// The GL viewport for render viewport `vp` in a `cw` by `ch` client area
/// (see `spec_gl_viewport`).
pub fn gl_viewport(vp: Rect, stretched: bool, cw: i32, ch: i32) -> (r: GlViewport)
    requires
        i32::MIN <= vp.right - vp.left <= i32::MAX,
        i32::MIN <= vp.bottom - vp.top <= i32::MAX,
    ensures
        r == spec_gl_viewport(vp, stretched, cw, ch),
{
    let (vl, vt, vr, vb, scaled) = if vp.right > vp.left && vp.bottom > vp.top {
        (vp.left, vp.top, vp.right, vp.bottom, stretched)
    } else if cw > 0 && ch > 0 {
        (0i32, 0i32, cw, ch, false)
    } else {
        (0i32, 0i32, 1i32, 1i32, false)
    };
    let viewport = if vr > vl && vb > vt {
        Some(ViewBox { x: vl, y: vt, width: vr - vl, height: vb - vt })
    } else if cw > 0 && ch > 0 {
        Some(ViewBox { x: 0, y: 0, width: cw, height: ch })
    } else {
        None
    };
    GlViewport { viewport, use_layout_scale: scaled }
}

/// Row length, in pixels, of the uploaded surface: its pitch over the bytes
/// per pixel (at least one).
pub fn unpack_row_length(pitch: i32, bpp: i32) -> (r: i32)
    requires
        pitch >= 0,
    ensures
        r == (pitch as int) / crate::ddraw::surface::bytes_pp(bpp),
{
    let b = crate::ddraw::surface::bytes_per_pixel(bpp);
    pitch / b
}

} // verus!
