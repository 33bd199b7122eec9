//! DirectDraw clippers: a clipper only remembers the window it was made
//! for.

use vstd::prelude::*;

verus! {

/// A clipper and the window it clips to.
#[derive(Clone, Copy, Debug, PartialEq, Eq, Structural)]
pub struct ClipperImpl {
    pub hwnd: isize,
}

impl ClipperImpl {
    /// A clipper for no window.
    pub fn new() -> (r: ClipperImpl)
        ensures
            r.hwnd == 0,
    {
        ClipperImpl { hwnd: 0 }
    }

    /// The window the clipper clips to.
    pub fn get_hwnd(&self) -> (r: isize)
        ensures
            r == self.hwnd,
    {
        self.hwnd
    }
}

} // verus!
