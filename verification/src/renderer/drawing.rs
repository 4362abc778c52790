//! Where a frame buffer lies on the screen.
use vstd::prelude::*;

verus! {

/// A frame buffer of `buffer_width × buffer_height` pixels showing the part of the
/// screen whose top-left corner is `(offset_x, offset_y)`.
#[derive(Clone, Copy, Debug)]
pub struct DrawInfo {
    pub buffer_width: isize,
    pub buffer_height: isize,
    pub offset_x: isize,
    pub offset_y: isize,
}

} // verus!
