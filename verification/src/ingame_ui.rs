//! The in-game overlay layer.
use vstd::prelude::*;
use crate::color::Color565;
use crate::renderer::drawing::DrawInfo;

verus! {

/// Draws the in-game overlay into the frame buffer described by `draw_info`. The
/// overlay is switched off: the frame buffer is left as it is.
pub fn draw_ui(draw_info: &DrawInfo, frame_buffer: &mut [Color565])
    ensures
        final(frame_buffer)@ == old(frame_buffer)@,
{
}

} // verus!
