//! The 2D renderer: one screen tile of pixels, drawn into and then sent to the screen.
use vstd::prelude::*;
use crate::color::{Color565, black, color_black, pack565, red_of, green_of, blue_of};
use crate::constants::{SCREEN_TILE_WIDTH, SCREEN_TILE_HEIGHT, TILE_PIXELS, lemma_tile_size};
use crate::draw_tools::shapes::{in_bounds, pixel_index, in_rect, cell_in_rect, fill_rect_spec, lemma_cell_of_index, lemma_index_of_cell};
use crate::geometry::Vector2;
use crate::renderer2d::sprite::{alpha_blend_spec, lemma_weighted_channel};

verus! {

/// Tile width as an `int`.
pub open spec fn tile_w() -> int {
    SCREEN_TILE_WIDTH as int
}

/// Tile height as an `int`.
pub open spec fn tile_h() -> int {
    SCREEN_TILE_HEIGHT as int
}

/// `a` covered by `b` with opacity `b_alpha` out of 255.
pub fn add_alpha_color(a: Color565, b: Color565, b_alpha: u16) -> (c: Color565)
    requires
        b_alpha <= 255,
    ensures
        c == alpha_blend_spec(a, b, b_alpha as int),
{
    let a_comp = a.get_components();
    let b_comp = b.get_components();
    proof {
        lemma_weighted_channel(a_comp.0 as int, b_comp.0 as int, b_alpha as int, 31);
        lemma_weighted_channel(a_comp.1 as int, b_comp.1 as int, b_alpha as int, 63);
        lemma_weighted_channel(a_comp.2 as int, b_comp.2 as int, b_alpha as int, 31);
        assert((255 - b_alpha) * a_comp.0 <= 255 * 31) by (nonlinear_arith) requires a_comp.0 <= 31, b_alpha <= 255;
        assert((255 - b_alpha) * a_comp.1 <= 255 * 63) by (nonlinear_arith) requires a_comp.1 <= 63, b_alpha <= 255;
        assert((255 - b_alpha) * a_comp.2 <= 255 * 31) by (nonlinear_arith) requires a_comp.2 <= 31, b_alpha <= 255;
        assert(b_comp.0 * b_alpha <= 255 * 31) by (nonlinear_arith) requires b_comp.0 <= 31, b_alpha <= 255;
        assert(b_comp.1 * b_alpha <= 255 * 63) by (nonlinear_arith) requires b_comp.1 <= 63, b_alpha <= 255;
        assert(b_comp.2 * b_alpha <= 255 * 31) by (nonlinear_arith) requires b_comp.2 <= 31, b_alpha <= 255;
    }
    Color565::new(
        ((255 - b_alpha) * a_comp.0 + b_comp.0 * b_alpha) / 255,
        ((255 - b_alpha) * a_comp.1 + b_comp.1 * b_alpha) / 255,
        ((255 - b_alpha) * a_comp.2 + b_comp.2 * b_alpha) / 255,
    )
}

/// The renderer keeps the pixels of the tile being drawn and the colour the tile
/// is cleared with.
pub struct Renderer2d {
    pub tile_frame_buffer: [Color565; TILE_PIXELS],
    pub clear_color: Color565,
}

/// A rectangle painted row by row: the first `rows` rows whole, then the
/// columns `x0 .. x0 + cols` of row `y0 + rows`.
pub open spec fn rect_rows_progress(
    s: Seq<Color565>, w: int, h: int, x0: int, y0: int, width: int, rows: int, cols: int, c: Color565,
) -> Seq<Color565> {
    Seq::new(
        s.len(),
        |i: int|
            if cell_in_rect(w, h, i, x0, y0, width, rows) || cell_in_rect(w, h, i, x0, y0 + rows, cols, 1) {
                c
            } else {
                s[i]
            },
    )
}

/// After writing entry `x + y * W` of the tile, with `(x, y)` inside the tile, an entry
/// changed exactly when its cell is `(x, y)`.
pub proof fn lemma_tile_write_cells(s: Seq<Color565>, x: int, y: int, c: Color565, i: int)
    requires
        s.len() == TILE_PIXELS,
        in_bounds(tile_w(), tile_h(), x, y),
        0 <= i < s.len(),
    ensures
        s.update(pixel_index(tile_w(), x, y), c)[i] == if in_bounds(tile_w(), tile_h(), i % tile_w(), i / tile_w())
            && i % tile_w() == x && i / tile_w() == y {
            c
        } else {
            s[i]
        },
        in_bounds(tile_w(), tile_h(), i % tile_w(), i / tile_w()),
{
    lemma_tile_size();
    lemma_cell_of_index(tile_w(), x, y);
    lemma_index_of_cell(tile_w(), i);
}

impl Renderer2d {
    /// A renderer whose tile starts black and is cleared with `clear_color`.
    pub fn new(clear_color: Color565) -> (r: Renderer2d)
        ensures
            r.clear_color == clear_color,
            forall|i: int| 0 <= i < TILE_PIXELS ==> #[trigger] r.tile_frame_buffer@[i] == black(),
    {
        Renderer2d { tile_frame_buffer: [color_black(); TILE_PIXELS], clear_color }
    }

    /// Paints the whole tile with the clear colour.
    pub fn clear_frame_frame_buffer(&mut self)
        ensures
            final(self).clear_color == old(self).clear_color,
            forall|i: int| 0 <= i < TILE_PIXELS ==> #[trigger] final(self).tile_frame_buffer@[i] == old(self).clear_color,
    {
        let mut i: usize = 0;
        while i < TILE_PIXELS
            invariant
                i <= TILE_PIXELS,
                self.clear_color == old(self).clear_color,
                forall|j: int| 0 <= j < i ==> #[trigger] self.tile_frame_buffer@[j] == old(self).clear_color,
            decreases TILE_PIXELS - i,
        {
            self.tile_frame_buffer[i] = self.clear_color;
            i += 1;
        }
    }

    /// Writes `color` at entry `x + y * SCREEN_TILE_WIDTH` of the tile.
    pub fn draw_pixel(&mut self, x: usize, y: usize, color: Color565)
        requires
            x + y * SCREEN_TILE_WIDTH < TILE_PIXELS,
        ensures
            final(self).clear_color == old(self).clear_color,
            final(self).tile_frame_buffer@ == old(self).tile_frame_buffer@.update(x + y * SCREEN_TILE_WIDTH, color),
    {
        self.tile_frame_buffer[x + y * SCREEN_TILE_WIDTH] = color;
    }

    /// Reads entry `x + y * SCREEN_TILE_WIDTH` of the tile.
    pub fn get_pixel(&self, x: usize, y: usize) -> (c: Color565)
        requires
            x + y * SCREEN_TILE_WIDTH < TILE_PIXELS,
        ensures
            c == self.tile_frame_buffer@[x + y * SCREEN_TILE_WIDTH],
    {
        self.tile_frame_buffer[x + y * SCREEN_TILE_WIDTH]
    }

    /// Paints the columns `x0 .. x1` of row `y` of the tile, all inside the tile.
    fn fill_row_span(&mut self, y: isize, x0: isize, x1: isize, color: Color565)
        requires
            0 <= y < tile_h(),
            0 <= x0,
            x1 <= tile_w(),
        ensures
            final(self).clear_color == old(self).clear_color,
            final(self).tile_frame_buffer@ == fill_rect_spec(
                old(self).tile_frame_buffer@, tile_w(), tile_h(), x0 as int, y as int, x1 - x0, 1, color),
    {
        proof { lemma_tile_size(); }
        let ghost s0 = self.tile_frame_buffer@;
        let mut x = x0;
        assert(self.tile_frame_buffer@ =~= fill_rect_spec(s0, tile_w(), tile_h(), x0 as int, y as int, 0, 1, color));
        while x < x1
            invariant
                x0 <= x <= x1 || (x == x0 && x1 < x0),
                0 <= y < tile_h(),
                0 <= x0,
                x1 <= tile_w(),
                s0.len() == TILE_PIXELS,
                self.clear_color == old(self).clear_color,
                self.tile_frame_buffer@ == fill_rect_spec(s0, tile_w(), tile_h(), x0 as int, y as int, x - x0, 1, color),
            decreases x1 - x,
        {
            proof { lemma_tile_size(); }
            let ghost prev = self.tile_frame_buffer@;
            self.draw_pixel(x as usize, y as usize, color);
            proof {
                assert forall|i: int| 0 <= i < s0.len() implies #[trigger] self.tile_frame_buffer@[i] == fill_rect_spec(
                    s0, tile_w(), tile_h(), x0 as int, y as int, x + 1 - x0, 1, color)[i] by {
                    lemma_tile_write_cells(prev, x as int, y as int, color, i);
                }
                assert(self.tile_frame_buffer@ =~= fill_rect_spec(
                    s0, tile_w(), tile_h(), x0 as int, y as int, x + 1 - x0, 1, color));
            }
            x += 1;
        }
        assert(self.tile_frame_buffer@ =~= fill_rect_spec(s0, tile_w(), tile_h(), x0 as int, y as int, x1 - x0, 1, color));
    }

    /// Paints the part of the rectangle of corner `pos` and size `size` that lies in the tile.
    pub fn draw_rectangle(&mut self, pos: Vector2<isize>, size: Vector2<isize>, color: Color565)
        requires
            isize::MIN <= pos.x + size.x <= isize::MAX,
            isize::MIN <= pos.y + size.y <= isize::MAX,
        ensures
            final(self).clear_color == old(self).clear_color,
            final(self).tile_frame_buffer@ == fill_rect_spec(
                old(self).tile_frame_buffer@, tile_w(), tile_h(), pos.x as int, pos.y as int, size.x as int,
                size.y as int, color),
    {
        proof { lemma_tile_size(); }
        let ghost s0 = self.tile_frame_buffer@;
        let ghost p0 = pos;
        let mut pos = pos;
        let mut end = Vector2 { x: pos.x + size.x, y: pos.y + size.y };
        if end.x < 0 || end.y < 0 || pos.x > SCREEN_TILE_WIDTH as isize || pos.y > SCREEN_TILE_HEIGHT as isize {
            assert(self.tile_frame_buffer@ =~= fill_rect_spec(
                s0, tile_w(), tile_h(), pos.x as int, pos.y as int, size.x as int, size.y as int, color));
            return;
        }
        if pos.x < 0 {
            pos.x = 0;
        }
        if pos.y < 0 {
            pos.y = 0;
        }
        if end.x >= SCREEN_TILE_WIDTH as isize {
            end.x = SCREEN_TILE_WIDTH as isize;
        }
        if end.y >= SCREEN_TILE_HEIGHT as isize {
            end.y = SCREEN_TILE_HEIGHT as isize;
        }
        let ghost cw = end.x - pos.x;
        let mut y = pos.y;
        assert(self.tile_frame_buffer@ =~= fill_rect_spec(s0, tile_w(), tile_h(), pos.x as int, pos.y as int, cw, 0, color));
        while y < end.y
            invariant
                pos.y <= y <= end.y || (y == pos.y && end.y < pos.y),
                0 <= pos.x, 0 <= pos.y, end.x <= tile_w(), end.y <= tile_h(),
                cw == end.x - pos.x,
                s0.len() == TILE_PIXELS,
                self.clear_color == old(self).clear_color,
                self.tile_frame_buffer@ == fill_rect_spec(s0, tile_w(), tile_h(), pos.x as int, pos.y as int, cw, y - pos.y, color),
            decreases end.y - y,
        {
            let ghost prev = self.tile_frame_buffer@;
            self.fill_row_span(y, pos.x, end.x, color);
            assert(self.tile_frame_buffer@ =~= fill_rect_spec(
                s0, tile_w(), tile_h(), pos.x as int, pos.y as int, cw, y + 1 - pos.y, color));
            y += 1;
        }
        assert(self.tile_frame_buffer@ =~= fill_rect_spec(
            s0, tile_w(), tile_h(), p0.x as int, p0.y as int, size.x as int, size.y as int, color));
    }

    /// Paints the pixels `x_start ..= x_stop` of row `y` that lie in the tile.
    pub fn draw_horizontal_line(&mut self, y: isize, x_start: isize, x_stop: isize, color: Color565)
        ensures
            final(self).clear_color == old(self).clear_color,
            final(self).tile_frame_buffer@ == fill_rect_spec(
                old(self).tile_frame_buffer@, tile_w(), tile_h(), x_start as int, y as int, x_stop + 1 - x_start, 1,
                color),
    {
        proof { lemma_tile_size(); }
        let ghost s0 = self.tile_frame_buffer@;
        let ghost stop0 = x_stop;
        let mut x_stop = x_stop;
        let mut x = x_start;
        if y < 0 || y >= SCREEN_TILE_HEIGHT as isize || x_start > SCREEN_TILE_WIDTH as isize || x_stop < 0 {
            assert(self.tile_frame_buffer@ =~= fill_rect_spec(
                s0, tile_w(), tile_h(), x_start as int, y as int, x_stop + 1 - x_start, 1, color));
            return;
        }
        if x < 0 {
            x = 0;
        }
        if x_stop >= SCREEN_TILE_WIDTH as isize {
            x_stop = SCREEN_TILE_WIDTH as isize - 1;
        }
        self.fill_row_span(y, x, x_stop + 1, color);
        assert(self.tile_frame_buffer@ =~= fill_rect_spec(
            s0, tile_w(), tile_h(), x_start as int, y as int, stop0 + 1 - x_start, 1, color));
    }
}

} // verus!
