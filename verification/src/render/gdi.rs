//! GDI presentation: where the frame is stretched to and which margins
//! around it are cleared.

use vstd::prelude::*;
use crate::geometry::Rect;

verus! {

/// A GDI present: the destination rectangle of the stretched frame and the
/// black letterbox bars around it (top, bottom, left, right), each present
/// only when there is a margin on that side.
#[derive(Clone, Copy, Debug, PartialEq, Eq, Structural)]
pub struct GdiPlan {
    pub dest: Rect,
    pub top: Option<Rect>,
    pub bottom: Option<Rect>,
    pub left: Option<Rect>,
    pub right: Option<Rect>,
}

/// Whether a viewport has been laid out (it is not empty).
pub open spec fn has_viewport(vp: Rect) -> bool {
    vp.right > vp.left && vp.bottom > vp.top
}

/// The GDI present for a `w` by `h` client area and render viewport `vp`:
/// none for an empty client area; the frame goes to the viewport, or to
/// the whole client area when no viewport is laid out.
pub open spec fn spec_gdi_plan(w: i32, h: i32, vp: Rect) -> Option<GdiPlan> {
    if w <= 0 || h <= 0 {
        None
    } else {
        let dest = if has_viewport(vp) { vp } else { Rect { left: 0, top: 0, right: w, bottom: h } };
        let full = dest == (Rect { left: 0, top: 0, right: w, bottom: h });
        Some(GdiPlan {
            dest,
            top: if !full && dest.top > 0 { Some(Rect { left: 0, top: 0, right: w, bottom: dest.top }) } else { None },
            bottom: if !full && dest.bottom < h { Some(Rect { left: 0, top: dest.bottom, right: w, bottom: h }) } else { None },
            left: if !full && dest.left > 0 { Some(Rect { left: 0, top: dest.top, right: dest.left, bottom: dest.bottom }) } else { None },
            right: if !full && dest.right < w { Some(Rect { left: dest.right, top: dest.top, right: w, bottom: dest.bottom }) } else { None },
        })
    }
}

/// The GDI present for a `w` by `h` client area and render viewport `vp`
/// (see `spec_gdi_plan`).
pub fn present_plan(w: i32, h: i32, vp: Rect) -> (r: Option<GdiPlan>)
    requires
        i32::MIN <= vp.right - vp.left <= i32::MAX,
        i32::MIN <= vp.bottom - vp.top <= i32::MAX,
    ensures
        r == spec_gdi_plan(w, h, vp),
{
    if w <= 0 || h <= 0 {
        return None;
    }
    let (dx, dy, dw, dh) = if vp.right > vp.left && vp.bottom > vp.top {
        (vp.left, vp.top, vp.right - vp.left, vp.bottom - vp.top)
    } else {
        (0, 0, w, h)
    };
    let dest = Rect { left: dx, top: dy, right: dx + dw, bottom: dy + dh };
    let full = dx == 0 && dy == 0 && dw == w && dh == h;
    let top = if !full && dy > 0 { Some(Rect { left: 0, top: 0, right: w, bottom: dy }) } else { None };
    let bottom = if !full && dy + dh < h { Some(Rect { left: 0, top: dy + dh, right: w, bottom: h }) } else { None };
    let left = if !full && dx > 0 { Some(Rect { left: 0, top: dy, right: dx, bottom: dy + dh }) } else { None };
    let right = if !full && dx + dw < w { Some(Rect { left: dx + dw, top: dy, right: w, bottom: dy + dh }) } else { None };
    Some(GdiPlan { dest, top, bottom, left, right })
}


/// How a child window of the game window is painted: the part of the
/// surface lying under it (`width` by `height` from `src_x`, `src_y`) is
/// copied to its client area.
#[derive(Clone, Copy, Debug, PartialEq, Eq, Structural)]
pub struct ChildBlit {
    pub width: i32,
    pub height: i32,
    pub src_x: i32,
    pub src_y: i32,
}

/// How a child window with client rectangle `client` and window rectangle
/// `window` is painted, the game window's top-left corner being at
/// (`parent_left`, `parent_top`): nothing for an empty client area.
pub fn child_blit(client: Rect, window: Rect, parent_left: i32, parent_top: i32) -> (r: Option<ChildBlit>)
    requires
        i32::MIN <= client.right - client.left <= i32::MAX,
        i32::MIN <= client.bottom - client.top <= i32::MAX,
        i32::MIN <= window.left - parent_left <= i32::MAX,
        i32::MIN <= window.top - parent_top <= i32::MAX,
    ensures
        (client.right - client.left > 0 && client.bottom - client.top > 0) ==> r == Some(ChildBlit {
            width: (client.right - client.left) as i32,
            height: (client.bottom - client.top) as i32,
            src_x: (window.left - parent_left) as i32,
            src_y: (window.top - parent_top) as i32,
        }),
        !(client.right - client.left > 0 && client.bottom - client.top > 0) ==> r is None,
{
    let w = client.right - client.left;
    let h = client.bottom - client.top;
    if w > 0 && h > 0 {
        Some(ChildBlit { width: w, height: h, src_x: window.left - parent_left, src_y: window.top - parent_top })
    } else {
        None
    }
}


/// Whether the optional rectangle is present and holds the point.
pub open spec fn opt_contains(r: Option<Rect>, x: int, y: int) -> bool {
    r matches Some(rc) && rc.contains(x, y)
}

/// How many rectangles of a plan (the frame and the four bars) hold the
/// point.
pub open spec fn cover_count(p: GdiPlan, x: int, y: int) -> int {
    (if p.dest.contains(x, y) { 1int } else { 0int })
        + (if opt_contains(p.top, x, y) { 1int } else { 0int })
        + (if opt_contains(p.bottom, x, y) { 1int } else { 0int })
        + (if opt_contains(p.left, x, y) { 1int } else { 0int })
        + (if opt_contains(p.right, x, y) { 1int } else { 0int })
}

/// When the viewport lies within the client area, the frame and the black
/// bars around it cover every pixel of the client area exactly once.
pub proof fn law_gdi_plan_partitions_client(w: i32, h: i32, vp: Rect, x: int, y: int)
    requires
        w > 0,
        h > 0,
        has_viewport(vp) ==> 0 <= vp.left && vp.right <= w && 0 <= vp.top && vp.bottom <= h,
        0 <= x < w,
        0 <= y < h,
    ensures
        spec_gdi_plan(w, h, vp) is Some,
        cover_count(spec_gdi_plan(w, h, vp)->0, x, y) == 1,
{
}

} // verus!
