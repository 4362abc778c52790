//! Screen geometry.
use vstd::prelude::*;

verus! {

/// Width of the screen, in pixels.
pub const SCREEN_WIDTH: usize = 320;
/// Height of the screen, in pixels.
pub const SCREEN_HEIGHT: usize = 240;
/// The screen is drawn as `SCREEN_TILE_SUBDIVISION × SCREEN_TILE_SUBDIVISION` tiles.
pub const SCREEN_TILE_SUBDIVISION: usize = 4;
/// Width of one tile: the screen width divided by the subdivision, rounded up.
pub const SCREEN_TILE_WIDTH: usize = (SCREEN_WIDTH + SCREEN_TILE_SUBDIVISION - 1) / SCREEN_TILE_SUBDIVISION;
/// Height of one tile: the screen height divided by the subdivision, rounded up.
pub const SCREEN_TILE_HEIGHT: usize = (SCREEN_HEIGHT + SCREEN_TILE_SUBDIVISION - 1) / SCREEN_TILE_SUBDIVISION;
/// Number of pixels in one tile (`SCREEN_TILE_WIDTH * SCREEN_TILE_HEIGHT`).
pub const TILE_PIXELS: usize = 4800;

/// The tile is 80 × 60 pixels, and `TILE_PIXELS` counts them.
pub proof fn lemma_tile_size()
    ensures
        SCREEN_TILE_WIDTH == 80,
        SCREEN_TILE_HEIGHT == 60,
        TILE_PIXELS == SCREEN_TILE_WIDTH * SCREEN_TILE_HEIGHT,
{
}

} // verus!
