//! The renderer loop's decisions: when a frame is uploaded and presented.

pub mod d3d9;
pub mod gdi;
pub mod opengl;

use vstd::prelude::*;

verus! {

/// What the renderer does on one tick of its loop.
#[derive(Clone, Copy, Debug, PartialEq, Eq, Structural)]
pub enum FrameAction {
    /// There is no primary surface yet: nothing to present.
    NoPrimary,
    /// Present through OpenGL, uploading the surface when `upload` holds
    /// (otherwise the last uploaded frame is drawn again).
    PresentGl { upload: bool },
    /// Repaint the window through GDI.
    PresentGdi,
    /// Nothing new to show through GDI.
    Skip,
}

/// The primary surface's size as of the last frame (-1 before the first).
#[derive(Clone, Copy, Debug, PartialEq, Eq, Structural)]
pub struct FrameTracker {
    pub last_w: i32,
    pub last_h: i32,
}

impl FrameTracker {
    /// A tracker that has seen no frame.
    pub fn new() -> (r: FrameTracker)
        ensures
            r.last_w == -1,
            r.last_h == -1,
    {
        FrameTracker { last_w: -1, last_h: -1 }
    }

    /// Whether a tick uploads a new frame: the game signalled one, or the
    /// primary surface changed size since the last tick.
    pub open spec fn spec_dirty(self, signalled: bool, primary: Option<(i32, i32)>) -> bool {
        signalled || (primary matches Some(sz) && (sz.0 != self.last_w || sz.1 != self.last_h))
    }

    /// One tick of the renderer loop: `signalled` tells whether the game
    /// produced a complete frame since the last tick, `primary` is the
    /// primary surface's size if there is one, `use_gl` whether OpenGL
    /// presents. OpenGL draws every tick; GDI repaints only a new frame.
    pub fn frame(&mut self, signalled: bool, primary: Option<(i32, i32)>, use_gl: bool) -> (r: FrameAction)
        ensures
            match primary {
                None => r == FrameAction::NoPrimary && *final(self) == *old(self),
                Some(sz) => {
                    &&& final(self).last_w == sz.0
                    &&& final(self).last_h == sz.1
                    &&& use_gl ==> r == (FrameAction::PresentGl { upload: old(self).spec_dirty(signalled, primary) })
                    &&& !use_gl ==> r == (if old(self).spec_dirty(signalled, primary) { FrameAction::PresentGdi } else { FrameAction::Skip })
                },
            },
    {
        match primary {
            None => FrameAction::NoPrimary,
            Some((w, h)) => {
                let mut dirty = signalled;
                if w != self.last_w || h != self.last_h {
                    dirty = true;
                    self.last_w = w;
                    self.last_h = h;
                }
                if use_gl {
                    FrameAction::PresentGl { upload: dirty }
                } else if dirty {
                    FrameAction::PresentGdi
                } else {
                    FrameAction::Skip
                }
            },
        }
    }
}


/// A tick that follows a tick of the same primary size, with no new frame
/// signalled, uploads nothing; a signalled frame is always uploaded.
pub proof fn law_repeat_tick_is_clean(t: FrameTracker, sz: (i32, i32), signalled: bool)
    requires
        t.last_w == sz.0,
        t.last_h == sz.1,
    ensures
        t.spec_dirty(signalled, Some(sz)) == signalled,
{
}

} // verus!
