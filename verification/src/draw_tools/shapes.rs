//! Pixels, lines and rectangles in a `width × height` frame buffer stored row
//! by row in a slice. Pixels outside the frame are silently skipped.
use vstd::prelude::*;
use vstd::arithmetic::div_mod::{lemma_fundamental_div_mod, lemma_fundamental_div_mod_converse};
use crate::color::{Color565, black, color_black, mix_spec};

verus! {

/// Whether `(x, y)` lies inside a `w × h` frame.
pub open spec fn in_bounds(w: int, h: int, x: int, y: int) -> bool {
    0 <= x < w && 0 <= y < h
}

/// Where pixel `(x, y)` of a frame of width `w` is stored.
pub open spec fn pixel_index(w: int, x: int, y: int) -> int {
    x + y * w
}

/// Touching pixel `(x, y)` stays inside a buffer of length `len` (and its index fits
/// in an `isize`) whenever the pixel lies inside the frame.
pub open spec fn addressable(len: int, w: int, h: int, x: int, y: int) -> bool {
    in_bounds(w, h, x, y) ==> pixel_index(w, x, y) < len && pixel_index(w, x, y) <= isize::MAX
}

/// Every pixel of the frame is addressable.
pub open spec fn frame_fits(len: int, w: int, h: int) -> bool {
    forall|x: int, y: int| #[trigger] addressable(len, w, h, x, y)
}

/// Whether `(x, y)` lies in the rectangle of corner `(x0, y0)` and the given size.
pub open spec fn in_rect(x: int, y: int, x0: int, y0: int, width: int, height: int) -> bool {
    x0 <= x < x0 + width && y0 <= y < y0 + height
}

/// The frame pixel stored at index `i` lies in the given rectangle.
pub open spec fn cell_in_rect(w: int, h: int, i: int, x0: int, y0: int, width: int, height: int) -> bool {
    in_bounds(w, h, i % w, i / w) && in_rect(i % w, i / w, x0, y0, width, height)
}

/// The buffer after writing `c` at `(x, y)`, if that pixel is in the frame.
pub open spec fn put_pixel_spec(s: Seq<Color565>, w: int, h: int, x: int, y: int, c: Color565) -> Seq<Color565> {
    if in_bounds(w, h, x, y) { s.update(pixel_index(w, x, y), c) } else { s }
}

/// The colour read at `(x, y)`: black outside the frame.
pub open spec fn get_pixel_spec(s: Seq<Color565>, w: int, h: int, x: int, y: int) -> Color565 {
    if in_bounds(w, h, x, y) { s[pixel_index(w, x, y)] } else { black() }
}

/// The buffer after painting every frame pixel of a rectangle with `c`.
pub open spec fn fill_rect_spec(
    s: Seq<Color565>, w: int, h: int, x0: int, y0: int, width: int, height: int, c: Color565,
) -> Seq<Color565> {
    Seq::new(s.len(), |i: int| if cell_in_rect(w, h, i, x0, y0, width, height) { c } else { s[i] })
}

/// The buffer after mixing `c` half and half into the pixel `(x, y)`.
pub open spec fn blend_pixel_spec(s: Seq<Color565>, w: int, h: int, x: int, y: int, c: Color565) -> Seq<Color565> {
    put_pixel_spec(s, w, h, x, y, mix_spec(c, get_pixel_spec(s, w, h, x, y)))
}

/// The pixel `(x, y)` of the frame is the one stored at its index, and no other.
pub proof fn lemma_cell_of_index(w: int, x: int, y: int)
    requires
        0 <= x < w,
    ensures
        pixel_index(w, x, y) % w == x,
        pixel_index(w, x, y) / w == y,
{
    assert(pixel_index(w, x, y) == y * w + x) by (nonlinear_arith);
    lemma_fundamental_div_mod_converse(pixel_index(w, x, y), w, y, x);
}

/// The entry `i` of the buffer holds the pixel `(i % w, i / w)`.
pub proof fn lemma_index_of_cell(w: int, i: int)
    requires
        w > 0,
    ensures
        pixel_index(w, i % w, i / w) == i,
        0 <= i % w < w,
{
    lemma_fundamental_div_mod(i, w);
    assert(w * (i / w) == (i / w) * w) by (nonlinear_arith);
}

/// After writing pixel `(x, y)` (when it is in the frame), an entry changed exactly
/// when it is the one whose cell is `(x, y)`.
pub proof fn lemma_put_pixel_cells(s: Seq<Color565>, w: int, h: int, x: int, y: int, c: Color565, i: int)
    requires
        addressable(s.len() as int, w, h, x, y),
        0 <= i < s.len(),
    ensures
        put_pixel_spec(s, w, h, x, y, c)[i] == if in_bounds(w, h, i % w, i / w) && i % w == x && i / w == y {
            c
        } else {
            s[i]
        },
{
    if in_bounds(w, h, x, y) {
        lemma_cell_of_index(w, x, y);
        lemma_index_of_cell(w, i);
    }
}

/// A pixel written in the frame is read back, and writing it leaves every other pixel
/// of the frame as it was; outside the frame nothing is written and black is read.
pub proof fn lemma_put_then_get(s: Seq<Color565>, w: int, h: int, x: int, y: int, c: Color565, x2: int, y2: int)
    requires
        w > 0,
        addressable(s.len() as int, w, h, x, y),
        addressable(s.len() as int, w, h, x2, y2),
    ensures
        get_pixel_spec(put_pixel_spec(s, w, h, x, y, c), w, h, x2, y2) == if in_bounds(w, h, x2, y2) && x2 == x && y2 == y {
            c
        } else {
            get_pixel_spec(s, w, h, x2, y2)
        },
{
    if in_bounds(w, h, x, y) && in_bounds(w, h, x2, y2) {
        lemma_cell_of_index(w, x, y);
        lemma_cell_of_index(w, x2, y2);
    }
}

/// Painting the same rectangle twice with the same colour is painting it once.
pub proof fn lemma_fill_rect_twice(s: Seq<Color565>, w: int, h: int, x0: int, y0: int, width: int, height: int, c: Color565)
    ensures
        fill_rect_spec(fill_rect_spec(s, w, h, x0, y0, width, height, c), w, h, x0, y0, width, height, c)
            == fill_rect_spec(s, w, h, x0, y0, width, height, c),
{
    assert(fill_rect_spec(fill_rect_spec(s, w, h, x0, y0, width, height, c), w, h, x0, y0, width, height, c)
        =~= fill_rect_spec(s, w, h, x0, y0, width, height, c));
}

/// Every frame pixel of a buffer holding at least `w * h` entries is addressable.
pub proof fn lemma_full_frame_fits(len: int, w: int, h: int)
    requires
        w >= 0,
        h >= 0,
        w * h <= len,
        len <= isize::MAX + 1,
    ensures
        frame_fits(len, w, h),
{
    assert forall|x: int, y: int| #[trigger] addressable(len, w, h, x, y) by {
        if in_bounds(w, h, x, y) {
            assert(pixel_index(w, x, y) < w * h) by (nonlinear_arith)
                requires 0 <= x < w, 0 <= y < h;
        }
    }
}

/// Writes `color` at `(x, y)`; does nothing outside the frame.
pub fn put_pixel(buffer: &mut [Color565], buffer_width: isize, buffer_height: isize, x: isize, y: isize, color: Color565)
    requires
        addressable(old(buffer)@.len() as int, buffer_width as int, buffer_height as int, x as int, y as int),
    ensures
        final(buffer)@ == put_pixel_spec(old(buffer)@, buffer_width as int, buffer_height as int, x as int, y as int, color),
{
    if x < 0 || x >= buffer_width {
        return;
    }
    if y < 0 || y >= buffer_height {
        return;
    }
    proof {
        assert(0 <= y * buffer_width <= pixel_index(buffer_width as int, x as int, y as int)) by (nonlinear_arith)
            requires 0 <= x, 0 <= y, 0 < buffer_width;
    }
    let i = x + y * buffer_width;
    buffer[i as usize] = color;
}

/// Reads the pixel at `(x, y)`; black outside the frame.
pub fn get_pixel(buffer: &mut [Color565], buffer_width: isize, buffer_height: isize, x: isize, y: isize) -> (c: Color565)
    requires
        addressable(old(buffer)@.len() as int, buffer_width as int, buffer_height as int, x as int, y as int),
    ensures
        final(buffer)@ == old(buffer)@,
        c == get_pixel_spec(old(buffer)@, buffer_width as int, buffer_height as int, x as int, y as int),
{
    if x < 0 || x >= buffer_width {
        return color_black();
    }
    if y < 0 || y >= buffer_height {
        return color_black();
    }
    proof {
        assert(0 <= y * buffer_width <= pixel_index(buffer_width as int, x as int, y as int)) by (nonlinear_arith)
            requires 0 <= x, 0 <= y, 0 < buffer_width;
    }
    let i = x + y * buffer_width;
    buffer[i as usize]
}

/// Writes `color` on the pixels `x_start .. x_start + width` of row `y`.
pub fn put_horizontal_line(
    y: isize, x_start: isize, width: isize, buffer: &mut [Color565], buffer_width: isize, buffer_height: isize,
    color: Color565,
)
    requires
        isize::MIN <= x_start + width <= isize::MAX,
        forall|x: int| x_start <= x < x_start + width ==> #[trigger] addressable(
            old(buffer)@.len() as int, buffer_width as int, buffer_height as int, x, y as int),
    ensures
        final(buffer)@ == fill_rect_spec(
            old(buffer)@, buffer_width as int, buffer_height as int, x_start as int, y as int, width as int, 1, color),
{
    let ghost w = buffer_width as int;
    let ghost h = buffer_height as int;
    let ghost s0 = buffer@;
    let mut x = x_start;
    let stop = x_start + width;
    assert(buffer@ =~= fill_rect_spec(s0, w, h, x_start as int, y as int, 0, 1, color));
    while x < stop
        invariant
            x_start <= x <= stop || (x == x_start && stop < x_start),
            stop == x_start + width,
            buffer@.len() == s0.len(),
            w == buffer_width, h == buffer_height,
            forall|xx: int| x_start <= xx < x_start + width ==> #[trigger] addressable(s0.len() as int, w, h, xx, y as int),
            buffer@ == fill_rect_spec(s0, w, h, x_start as int, y as int, x - x_start, 1, color),
        decreases stop - x,
    {
        assert(addressable(s0.len() as int, w, h, x as int, y as int));
        put_pixel(buffer, buffer_width, buffer_height, x, y, color);
        proof {
            assert forall|i: int| 0 <= i < s0.len() implies #[trigger] buffer@[i] == fill_rect_spec(
                s0, w, h, x_start as int, y as int, x + 1 - x_start, 1, color)[i] by {
                lemma_put_pixel_cells(
                    fill_rect_spec(s0, w, h, x_start as int, y as int, x - x_start, 1, color), w, h, x as int, y as int, color, i);
            }
            assert(buffer@ =~= fill_rect_spec(s0, w, h, x_start as int, y as int, x + 1 - x_start, 1, color));
        }
        x += 1;
    }
    assert(buffer@ =~= fill_rect_spec(s0, w, h, x_start as int, y as int, width as int, 1, color));
}

/// A rectangle painted column by column: the first `cols` columns whole, then
/// the rows `y0 .. y0 + rows` of column `x0 + cols`.
pub open spec fn rect_progress(
    s: Seq<Color565>, w: int, h: int, x0: int, y0: int, cols: int, height: int, rows: int, c: Color565,
) -> Seq<Color565> {
    Seq::new(
        s.len(),
        |i: int|
            if cell_in_rect(w, h, i, x0, y0, cols, height) || cell_in_rect(w, h, i, x0 + cols, y0, 1, rows) {
                c
            } else {
                s[i]
            },
    )
}

/// Paints with `color` every frame pixel of the rectangle of corner `(x, y)`
/// and size `width × height`.
pub fn rectangle(
    x: isize, y: isize, width: isize, height: isize, buffer: &mut [Color565], buffer_width: isize,
    buffer_height: isize, color: Color565,
)
    requires
        isize::MIN <= x + width <= isize::MAX,
        width > 0 ==> isize::MIN <= y + height <= isize::MAX,
        forall|px: int, py: int| in_rect(px, py, x as int, y as int, width as int, height as int)
            ==> #[trigger] addressable(old(buffer)@.len() as int, buffer_width as int, buffer_height as int, px, py),
    ensures
        final(buffer)@ == fill_rect_spec(
            old(buffer)@, buffer_width as int, buffer_height as int, x as int, y as int, width as int,
            height as int, color),
{
    let ghost w = buffer_width as int;
    let ghost h = buffer_height as int;
    let ghost s0 = buffer@;
    let mut xx = x;
    let x_stop = x + width;
    assert(buffer@ =~= fill_rect_spec(s0, w, h, x as int, y as int, 0, height as int, color));
    while xx < x_stop
        invariant
            x <= xx <= x_stop || (xx == x && x_stop < x),
            x_stop == x + width,
            width > 0 ==> isize::MIN <= y + height <= isize::MAX,
            buffer@.len() == s0.len(),
            w == buffer_width, h == buffer_height,
            forall|px: int, py: int| in_rect(px, py, x as int, y as int, width as int, height as int)
                ==> #[trigger] addressable(s0.len() as int, w, h, px, py),
            buffer@ == fill_rect_spec(s0, w, h, x as int, y as int, xx - x, height as int, color),
        decreases x_stop - xx,
    {
        let mut yy = y;
        let y_stop = y + height;
        assert(buffer@ =~= rect_progress(s0, w, h, x as int, y as int, xx - x, height as int, 0, color));
        while yy < y_stop
            invariant
                x <= xx < x_stop,
                x_stop == x + width,
                y <= yy <= y_stop || (yy == y && y_stop < y),
                y_stop == y + height,
                buffer@.len() == s0.len(),
                w == buffer_width, h == buffer_height,
                forall|px: int, py: int| in_rect(px, py, x as int, y as int, width as int, height as int)
                    ==> #[trigger] addressable(s0.len() as int, w, h, px, py),
                buffer@ == rect_progress(s0, w, h, x as int, y as int, xx - x, height as int, yy - y, color),
            decreases y_stop - yy,
        {
            assert(addressable(s0.len() as int, w, h, xx as int, yy as int));
            let ghost prev = buffer@;
            put_pixel(buffer, buffer_width, buffer_height, xx, yy, color);
            proof {
                assert forall|i: int| 0 <= i < s0.len() implies #[trigger] buffer@[i] == rect_progress(
                    s0, w, h, x as int, y as int, xx - x, height as int, yy + 1 - y, color)[i] by {
                    lemma_put_pixel_cells(prev, w, h, xx as int, yy as int, color, i);
                }
                assert(buffer@ =~= rect_progress(s0, w, h, x as int, y as int, xx - x, height as int, yy + 1 - y, color));
            }
            yy += 1;
        }
        assert(buffer@ =~= fill_rect_spec(s0, w, h, x as int, y as int, xx + 1 - x, height as int, color));
        xx += 1;
    }
    assert(buffer@ =~= fill_rect_spec(s0, w, h, x as int, y as int, width as int, height as int, color));
}

/// Half-and-half mix of two colours, channel by channel.
pub fn mix_colors(a: Color565, b: Color565) -> (c: Color565)
    ensures
        c == mix_spec(a, b),
{
    let a_comp = a.get_components();
    let b_comp = b.get_components();
    Color565::new((a_comp.0 + b_comp.0) / 2, (a_comp.1 + b_comp.1) / 2, (a_comp.2 + b_comp.2) / 2)
}

/// Replaces the pixel `(x, y)` by the mix of `color` and its current colour.
pub fn blend_pixel(buffer: &mut [Color565], buffer_width: isize, buffer_height: isize, x: isize, y: isize, color: Color565)
    requires
        addressable(old(buffer)@.len() as int, buffer_width as int, buffer_height as int, x as int, y as int),
    ensures
        final(buffer)@ == blend_pixel_spec(old(buffer)@, buffer_width as int, buffer_height as int, x as int, y as int, color),
{
    let color = mix_colors(color, get_pixel(buffer, buffer_width, buffer_height, x, y));
    put_pixel(buffer, buffer_width, buffer_height, x, y, color);
}

/// Draws a horizontal line like [`put_horizontal_line`], then softens both of its
/// ends by blending `color` into the pixel just before and the pixel just after it.
pub fn put_horizontal_line_smooth(
    y: isize, x_start: isize, width: isize, buffer: &mut [Color565], buffer_width: isize, buffer_height: isize,
    color: Color565,
)
    requires
        isize::MIN <= x_start + width <= isize::MAX,
        x_start > isize::MIN,
        forall|x: int| x_start <= x < x_start + width ==> #[trigger] addressable(
            old(buffer)@.len() as int, buffer_width as int, buffer_height as int, x, y as int),
        addressable(old(buffer)@.len() as int, buffer_width as int, buffer_height as int, x_start - 1, y as int),
        addressable(old(buffer)@.len() as int, buffer_width as int, buffer_height as int, x_start + width, y as int),
    ensures
        final(buffer)@ == blend_pixel_spec(
            blend_pixel_spec(
                fill_rect_spec(old(buffer)@, buffer_width as int, buffer_height as int, x_start as int, y as int,
                    width as int, 1, color),
                buffer_width as int, buffer_height as int, x_start - 1, y as int, color),
            buffer_width as int, buffer_height as int, x_start + width, y as int, color),
{
    let ghost len = buffer@.len() as int;
    let stop = x_start + width;
    put_horizontal_line(y, x_start, width, buffer, buffer_width, buffer_height, color);
    assert(buffer@.len() == len);
    assert(addressable(len, buffer_width as int, buffer_height as int, x_start - 1, y as int));
    blend_pixel(buffer, buffer_width, buffer_height, x_start - 1, y, color);
    assert(addressable(len, buffer_width as int, buffer_height as int, stop as int, y as int));
    blend_pixel(buffer, buffer_width, buffer_height, stop, y, color);
}

} // verus!
