//! Textured regions of the tile: copied, stretched or tiled from a texture, and the
//! nine-parts rectangle built from them.
use vstd::prelude::*;
use crate::color::{Color565, black, color_black, pack565, red_of, green_of, blue_of};
use crate::constants::{SCREEN_TILE_WIDTH, SCREEN_TILE_HEIGHT, TILE_PIXELS, lemma_tile_size};
use crate::draw_tools::shapes::{in_bounds, pixel_index};
use crate::geometry::Vector2;
use crate::renderer2d::renderer::{Renderer2d, tile_w, tile_h};
use crate::renderer2d::elements::ScaleMode;
use crate::renderer2d::sprite::{TransparentRGB565, texel, read_texel, lemma_weighted_channel};

verus! {

/// A texture cut in nine parts by four borders: the corners are drawn as they are,
/// the sides and the centre are stretched or tiled to the size of the rectangle.
/// Its pixels are stored row by row, three bytes each (see [`TransparentRGB565`]).
#[derive(Clone, Copy)]
pub struct NinePartsTexture {
    pub data: &'static [u8],
    pub texture_width: usize,
    pub texture_height: usize,
    pub left_border_size: usize,
    pub right_border_size: usize,
    pub top_border_size: usize,
    pub bottom_border_size: usize,
}

/// Fully transparent black, read outside a texture.
pub open spec fn transparent_black() -> TransparentRGB565 {
    TransparentRGB565 { rgb: black(), alpha: 0 }
}

/// The pixel `(x, y)` of a `w × h` texture stored in `data`: transparent black outside it.
pub open spec fn texel_at(data: Seq<u8>, w: int, h: int, x: int, y: int) -> TransparentRGB565 {
    if in_bounds(w, h, x, y) { texel(data, pixel_index(w, x, y)) } else { transparent_black() }
}

/// Reading pixel `(x, y)` of the texture stays inside its bytes whenever the pixel is in the texture.
pub open spec fn texel_addressable(len: int, w: int, h: int, x: int, y: int) -> bool {
    in_bounds(w, h, x, y) ==> 3 * pixel_index(w, x, y) + 3 <= len && pixel_index(w, x, y) <= isize::MAX
}

/// Reads pixel `(x, y)` of a `buffer_width × buffer_height` texture; transparent black outside it.
pub fn get_pixel_transparent(buffer: &[u8], buffer_width: isize, buffer_height: isize, x: isize, y: isize) -> (p: TransparentRGB565)
    requires
        texel_addressable(buffer@.len() as int, buffer_width as int, buffer_height as int, x as int, y as int),
    ensures
        p == texel_at(buffer@, buffer_width as int, buffer_height as int, x as int, y as int),
{
    if x < 0 || x >= buffer_width {
        return TransparentRGB565 { rgb: color_black(), alpha: 0 };
    }
    if y < 0 || y >= buffer_height {
        return TransparentRGB565 { rgb: color_black(), alpha: 0 };
    }
    proof {
        assert(0 <= y * buffer_width <= pixel_index(buffer_width as int, x as int, y as int)) by (nonlinear_arith)
            requires 0 <= x, 0 <= y, 0 < buffer_width;
    }
    read_texel(buffer, (x + y * buffer_width) as usize)
}

/// `a` weighted by `255 - alpha` plus `b` weighted by `alpha`, channel by channel,
/// without dividing back by 255: each channel keeps only its low bits.
pub open spec fn weighted_sum_spec(a: Color565, b: TransparentRGB565) -> Color565 {
    Color565 {
        value: pack565(
            (255 - b.alpha) * red_of(a.value) + red_of(b.rgb.value) * b.alpha,
            (255 - b.alpha) * green_of(a.value) + green_of(b.rgb.value) * b.alpha,
            (255 - b.alpha) * blue_of(a.value) + blue_of(b.rgb.value) * b.alpha,
        ) as u16,
    }
}

/// `a` weighted by `255 - alpha` plus `b.rgb` weighted by `alpha`, channel by channel,
/// with no division by 255 (so each channel wraps to its own width).
pub fn add_alpha_color(a: Color565, b: TransparentRGB565) -> (c: Color565)
    ensures
        c == weighted_sum_spec(a, b),
{
    let rgb = b.rgb;
    let a_comp = a.get_components();
    let b_comp = rgb.get_components();
    let alpha = b.alpha as u16;
    proof {
        lemma_weighted_channel(a_comp.0 as int, b_comp.0 as int, alpha as int, 31);
        lemma_weighted_channel(a_comp.1 as int, b_comp.1 as int, alpha as int, 63);
        lemma_weighted_channel(a_comp.2 as int, b_comp.2 as int, alpha as int, 31);
        assert((255 - alpha) * a_comp.0 <= 255 * 31) by (nonlinear_arith) requires a_comp.0 <= 31, alpha <= 255;
        assert((255 - alpha) * a_comp.1 <= 255 * 63) by (nonlinear_arith) requires a_comp.1 <= 63, alpha <= 255;
        assert((255 - alpha) * a_comp.2 <= 255 * 31) by (nonlinear_arith) requires a_comp.2 <= 31, alpha <= 255;
        assert(b_comp.0 * alpha <= 255 * 31) by (nonlinear_arith) requires b_comp.0 <= 31, alpha <= 255;
        assert(b_comp.1 * alpha <= 255 * 63) by (nonlinear_arith) requires b_comp.1 <= 63, alpha <= 255;
        assert(b_comp.2 * alpha <= 255 * 31) by (nonlinear_arith) requires b_comp.2 <= 31, alpha <= 255;
    }
    Color565::new(
        (255 - alpha) * a_comp.0 + b_comp.0 * alpha,
        (255 - alpha) * a_comp.1 + b_comp.1 * alpha,
        (255 - alpha) * a_comp.2 + b_comp.2 * alpha,
    )
}

/// What drawing the texture pixel `c` at the region cell `(x, y)` does to the tile:
/// the cell lands at `(out_x + x, out_y + y)`; a transparent pixel leaves the tile
/// as it is, an opaque one is copied, and any other is weighted with the tile entry
/// at `x + y * SCREEN_TILE_WIDTH` (the region-relative position).
pub open spec fn region_pixel(s: Seq<Color565>, c: TransparentRGB565, out_x: int, out_y: int, x: int, y: int) -> Seq<Color565> {
    let dst = pixel_index(tile_w(), out_x + x, out_y + y);
    if c.alpha == 0 {
        s
    } else if c.alpha == 255 {
        s.update(dst, c.rgb)
    } else {
        s.update(dst, weighted_sum_spec(s[pixel_index(tile_w(), x, y)], c))
    }
}

/// The tile after drawing the cells `x0 .. x` of region row `y`, in that order; the
/// cell `(x, y)` shows the texture pixel at `map(x, y)`.
pub open spec fn region_row(
    s: Seq<Color565>, data: Seq<u8>, tw: int, th: int, out_x: int, out_y: int,
    map: spec_fn(int, int) -> (int, int), y: int, x0: int, x: int,
) -> Seq<Color565>
    decreases x - x0,
{
    if x <= x0 {
        s
    } else {
        let t = map(x - 1, y);
        region_pixel(region_row(s, data, tw, th, out_x, out_y, map, y, x0, x - 1), texel_at(data, tw, th, t.0, t.1),
            out_x, out_y, x - 1, y)
    }
}

/// The tile after drawing the region rows `y0 .. y` (each over the cells `x0 .. x1`), in order.
pub open spec fn region_rows(
    s: Seq<Color565>, data: Seq<u8>, tw: int, th: int, out_x: int, out_y: int,
    map: spec_fn(int, int) -> (int, int), y0: int, y: int, x0: int, x1: int,
) -> Seq<Color565>
    decreases y - y0,
{
    if y <= y0 {
        s
    } else {
        region_row(region_rows(s, data, tw, th, out_x, out_y, map, y0, y - 1, x0, x1), data, tw, th, out_x,
            out_y, map, y - 1, x0, x1)
    }
}

/// First region coordinate drawn when the region starts at `o`: the cells left of the tile are skipped.
pub open spec fn clip_lo(o: int) -> int {
    if o < 0 { -o } else { 0 }
}

/// End of the region coordinates drawn for a region of length `n` starting at `o`,
/// in a tile of length `limit`.
pub open spec fn clip_hi(o: int, n: int, limit: int) -> int {
    if o + n > limit { limit - o } else { n }
}

/// The region `width × height` placed at `(out_x, out_y)` lies entirely off the tile.
pub open spec fn region_off_tile(out_x: int, out_y: int, width: int, height: int) -> bool {
    out_x + width < 0 || out_y + height < 0 || out_x > tile_w() || out_y > tile_h()
}

/// The tile after drawing a region of `width × height` cells placed at `(out_x, out_y)`:
/// only its cells that fall in the tile are drawn, row by row.
pub open spec fn region_spec(
    s: Seq<Color565>, data: Seq<u8>, tw: int, th: int, out_x: int, out_y: int,
    map: spec_fn(int, int) -> (int, int), width: int, height: int,
) -> Seq<Color565> {
    if region_off_tile(out_x, out_y, width, height) {
        s
    } else {
        region_rows(s, data, tw, th, out_x, out_y, map, clip_lo(out_y), clip_hi(out_y, height, tile_h()),
            clip_lo(out_x), clip_hi(out_x, width, tile_w()))
    }
}

/// Drawing the region cell `(x, y)` from texture coordinates `t` is possible: the
/// coordinates fit in an `isize`, the texture read stays in its bytes, and a
/// semi-transparent pixel reads an entry of the tile.
pub open spec fn cell_ok(data: Seq<u8>, tw: int, th: int, t: (int, int), x: int, y: int) -> bool {
    &&& isize::MIN <= t.0 <= isize::MAX
    &&& isize::MIN <= t.1 <= isize::MAX
    &&& texel_addressable(data.len() as int, tw, th, t.0, t.1)
    &&& (texel_at(data, tw, th, t.0, t.1).alpha != 0 && texel_at(data, tw, th, t.0, t.1).alpha != 255
        ==> pixel_index(tile_w(), x, y) < TILE_PIXELS)
}

/// Every cell of the region that gets drawn satisfies [`cell_ok`].
pub open spec fn region_cells_ok(
    data: Seq<u8>, tw: int, th: int, out_x: int, out_y: int, map: spec_fn(int, int) -> (int, int), width: int,
    height: int,
) -> bool {
    region_off_tile(out_x, out_y, width, height) || forall|x: int, y: int|
        clip_lo(out_y) <= y < clip_hi(out_y, height, tile_h()) && clip_lo(out_x) <= x < clip_hi(out_x, width, tile_w())
            ==> #[trigger] cell_ok(data, tw, th, map(x, y), x, y)
}

/// Region-relative cell `(x, y)` shows the texture pixel `(tex_x + x, tex_y + y)`.
pub open spec fn copy_map(tex_x: int, tex_y: int) -> spec_fn(int, int) -> (int, int) {
    |x: int, y: int| (tex_x + x, tex_y + y)
}

/// Integer division rounded toward zero, as Rust's `/` computes it.
pub open spec fn trunc_div(a: int, b: int) -> int {
    if a >= 0 {
        if b > 0 { a / b } else { -(a / (-b)) }
    } else {
        if b > 0 { -((-a) / b) } else { (-a) / (-b) }
    }
}

/// Remainder of the division rounded toward zero, as Rust's `%` computes it.
pub open spec fn trunc_rem(a: int, b: int) -> int {
    a - b * trunc_div(a, b)
}

/// Region-relative cell `(x, y)` of a region of `out_w × out_h` cells shows the texture
/// pixel that lies in proportion in the `tex_w × tex_h` block starting at `(tex_x, tex_y)`.
pub open spec fn stretch_map(tex_x: int, tex_y: int, tex_w: int, tex_h: int, out_w: int, out_h: int) -> spec_fn(int, int) -> (int, int) {
    |x: int, y: int| (tex_x + trunc_div(x * tex_w, out_w), tex_y + trunc_div(y * tex_h, out_h))
}

/// For the drawn cells, the products `x * tex_w` and `y * tex_h` fit in an `isize`, and so
/// does the texture row of each drawn region row.
pub open spec fn stretch_products_ok(
    out_x: int, out_y: int, tex_y: int, tex_w: int, tex_h: int, out_w: int, out_h: int,
) -> bool {
    &&& forall|x: int| clip_lo(out_x) <= x < clip_hi(out_x, out_w, tile_w()) ==> isize::MIN <= #[trigger] (x * tex_w) <= isize::MAX
    &&& forall|y: int| clip_lo(out_y) <= y < clip_hi(out_y, out_h, tile_h()) ==> isize::MIN <= #[trigger] (y * tex_h) <= isize::MAX
        && isize::MIN <= tex_y + trunc_div(y * tex_h, out_h) <= isize::MAX
}

/// One step of a tiling counter: it goes up by one and wraps to 0 on reaching `n`.
pub open spec fn wrap_step(p: int, n: int) -> int {
    if p + 1 >= n { 0 } else { p + 1 }
}

/// The tiling counter after `k` steps from `a`.
pub open spec fn wrap_seq(a: int, k: int, n: int) -> int
    decreases k,
{
    if k <= 0 { a } else { wrap_step(wrap_seq(a, k - 1, n), n) }
}

/// Where the tiling counter starts for a region placed at `o`: the skipped cells
/// before the tile are accounted for.
pub open spec fn tile_start(o: int, n: int) -> int {
    if o < 0 { trunc_rem(-o, n) } else { 0 }
}

/// The texture row shown by region row `y` of a tiled region: the row counter starts
/// where [`tile_start`] puts it and advances by one (wrapping at `tex_h`) per row.
pub open spec fn tile_row(out_y: int, tex_y: int, tex_h: int, y: int) -> int {
    tex_y + wrap_seq(tile_start(out_y, tex_h), y - clip_lo(out_y), tex_h)
}

/// The column counter of a tiled region at region cell `x`: it starts where
/// [`tile_start`] puts it and advances by one (wrapping at `tex_w`) per cell, so the
/// block repeats without scaling.
pub open spec fn tile_column(out_x: int, tex_w: int, x: int) -> int {
    wrap_seq(tile_start(out_x, tex_w), x - clip_lo(out_x), tex_w)
}

/// Region-relative cell `(x, y)` of a tiled region shows the texture pixel of the
/// `tex_w × tex_h` block at `(tex_x, tex_y)` given by the column and row counters.
pub open spec fn tile_map(out_x: int, out_y: int, tex_x: int, tex_y: int, tex_w: int, tex_h: int) -> spec_fn(int, int) -> (int, int) {
    |x: int, y: int| (tex_x + tile_column(out_x, tex_w, x), tile_row(out_y, tex_y, tex_h, y))
}

/// Stretching covers the texture block: each of the `out_w` cells across the region
/// shows a column of the `tex_w` wide block, the first cell its first column, and the
/// columns shown never go back.
pub proof fn lemma_stretch_in_block(x: int, x2: int, tex_w: int, out_w: int)
    requires
        0 <= x <= x2 < out_w,
        tex_w > 0,
    ensures
        0 <= trunc_div(x * tex_w, out_w) < tex_w,
        trunc_div(0 * tex_w, out_w) == 0,
        trunc_div(x * tex_w, out_w) <= trunc_div(x2 * tex_w, out_w),
{
    assert(0 <= x * tex_w <= x2 * tex_w) by (nonlinear_arith) requires 0 <= x <= x2, tex_w > 0;
    assert(x * tex_w < out_w * tex_w) by (nonlinear_arith) requires 0 <= x < out_w, tex_w > 0;
    vstd::arithmetic::div_mod::lemma_div_is_ordered(x * tex_w, x2 * tex_w, out_w);
    vstd::arithmetic::div_mod::lemma_div_is_ordered(0, x * tex_w, out_w);
    vstd::arithmetic::div_mod::lemma_fundamental_div_mod(x * tex_w, out_w);
    assert((x * tex_w) / out_w < tex_w) by (nonlinear_arith)
        requires x * tex_w < out_w * tex_w, x * tex_w == out_w * ((x * tex_w) / out_w) + (x * tex_w) % out_w,
            (x * tex_w) % out_w >= 0, out_w > 0;
}

/// Drawing a region row with two maps that agree on its cells gives the same tile.
proof fn lemma_region_row_maps_agree(
    s: Seq<Color565>, data: Seq<u8>, tw: int, th: int, out_x: int, out_y: int,
    m1: spec_fn(int, int) -> (int, int), m2: spec_fn(int, int) -> (int, int), y: int, x0: int, x: int,
)
    requires
        forall|xx: int| x0 <= xx < x ==> #[trigger] m1(xx, y) == m2(xx, y),
    ensures
        region_row(s, data, tw, th, out_x, out_y, m1, y, x0, x) == region_row(s, data, tw, th, out_x, out_y, m2, y, x0, x),
    decreases x - x0,
{
    if x > x0 {
        lemma_region_row_maps_agree(s, data, tw, th, out_x, out_y, m1, m2, y, x0, x - 1);
        assert(m1(x - 1, y) == m2(x - 1, y));
    }
}

/// Drawing region rows with two maps that agree on their cells gives the same tile.
proof fn lemma_region_rows_maps_agree(
    s: Seq<Color565>, data: Seq<u8>, tw: int, th: int, out_x: int, out_y: int,
    m1: spec_fn(int, int) -> (int, int), m2: spec_fn(int, int) -> (int, int), y0: int, y: int, x0: int, x1: int,
)
    requires
        forall|xx: int, yy: int| x0 <= xx < x1 && y0 <= yy < y ==> #[trigger] m1(xx, yy) == m2(xx, yy),
    ensures
        region_rows(s, data, tw, th, out_x, out_y, m1, y0, y, x0, x1)
            == region_rows(s, data, tw, th, out_x, out_y, m2, y0, y, x0, x1),
    decreases y - y0,
{
    if y > y0 {
        lemma_region_rows_maps_agree(s, data, tw, th, out_x, out_y, m1, m2, y0, y - 1, x0, x1);
        let prev = region_rows(s, data, tw, th, out_x, out_y, m1, y0, y - 1, x0, x1);
        assert forall|xx: int| x0 <= xx < x1 implies #[trigger] m1(xx, y - 1) == m2(xx, y - 1) by {
            assert(m1(xx, y - 1) == m2(xx, y - 1));
        }
        lemma_region_row_maps_agree(prev, data, tw, th, out_x, out_y, m1, m2, y - 1, x0, x1);
    }
}

/// Stretching a block to its own size is copying it.
pub proof fn lemma_stretch_by_one_is_copy(
    s: Seq<Color565>, parts: NinePartsTexture, ox: int, oy: int, tx: int, ty: int, w: int, h: int,
)
    requires
        w > 0,
        h > 0,
    ensures
        stretch_region_spec(s, parts, ox, oy, tx, ty, w, h, w, h) == copy_region_spec(s, parts, ox, oy, tx, ty, w, h),
{
    let m1 = stretch_map(tx, ty, w, h, w, h);
    let m2 = copy_map(tx, ty);
    assert forall|xx: int, yy: int|
        clip_lo(ox) <= xx < clip_hi(ox, w, tile_w()) && clip_lo(oy) <= yy < clip_hi(oy, h, tile_h())
        implies #[trigger] m1(xx, yy) == m2(xx, yy) by {
        vstd::arithmetic::div_mod::lemma_div_multiples_vanish(xx, w);
        vstd::arithmetic::div_mod::lemma_div_multiples_vanish(yy, h);
        assert(xx * w == w * xx) by (nonlinear_arith);
        assert(yy * h == h * yy) by (nonlinear_arith);
    }
    if !region_off_tile(ox, oy, w, h) {
        lemma_region_rows_maps_agree(s, parts.data@, parts.texture_width as isize as int,
            parts.texture_height as isize as int, ox, oy, m1, m2, clip_lo(oy), clip_hi(oy, h, tile_h()), clip_lo(ox),
            clip_hi(ox, w, tile_w()));
    }
}

/// A tiling counter started in `[0, n)` counts modulo `n`.
pub proof fn lemma_wrap_seq_mod(a: int, k: int, n: int)
    requires
        0 <= a < n,
        k >= 0,
    ensures
        wrap_seq(a, k, n) == (a + k) % n,
    decreases k,
{
    if k == 0 {
        vstd::arithmetic::div_mod::lemma_fundamental_div_mod_converse(a, n, 0, a);
    } else {
        lemma_wrap_seq_mod(a, k - 1, n);
        let p = (a + k - 1) % n;
        vstd::arithmetic::div_mod::lemma_fundamental_div_mod(a + k - 1, n);
        vstd::arithmetic::div_mod::lemma_fundamental_div_mod(a + k, n);
        let q = (a + k - 1) / n;
        if p + 1 >= n {
            assert(a + k == (q + 1) * n) by (nonlinear_arith)
                requires a + k - 1 == n * q + p, p + 1 == n;
            vstd::arithmetic::div_mod::lemma_fundamental_div_mod_converse(a + k, n, q + 1, 0);
        } else {
            assert(a + k == q * n + (p + 1)) by (nonlinear_arith)
                requires a + k - 1 == n * q + p;
            vstd::arithmetic::div_mod::lemma_fundamental_div_mod_converse(a + k, n, (a + k - 1) / n, p + 1);
        }
    }
}

/// For a non-negative dividend the remainder rounded toward zero is the usual
/// remainder: it lies in `[0, |b|)` and does not exceed the dividend.
pub proof fn lemma_trunc_rem_nonneg(a: int, b: int)
    requires
        a >= 0,
        b != 0,
    ensures
        trunc_rem(a, b) == a % b,
        0 <= trunc_rem(a, b) <= a,
        b > 0 ==> trunc_rem(a, b) < b,
{
    vstd::arithmetic::div_mod::lemma_fundamental_div_mod(a, b);
    if b > 0 {
        vstd::arithmetic::div_mod::lemma_fundamental_div_mod(a, b);
        assert(b * (a / b) >= 0) by (nonlinear_arith) requires a >= 0, b > 0;
    } else {
        vstd::arithmetic::div_mod::lemma_fundamental_div_mod(a, -b);
        assert(b * (-(a / (-b))) == (-b) * (a / (-b))) by (nonlinear_arith);
        assert(0 <= a % b < -b);
        assert(a == (-(a / b)) * (-b) + a % b) by (nonlinear_arith)
            requires a == b * (a / b) + a % b;
        vstd::arithmetic::div_mod::lemma_fundamental_div_mod_converse(a, -b, -(a / b), a % b);
        assert((-b) * (a / (-b)) >= 0) by (nonlinear_arith) requires a >= 0, b < 0;
    }
}

/// A tiling counter that starts in `[0, a0]` never exceeds its start plus the steps taken.
pub proof fn lemma_wrap_seq_bounds(a: int, k: int, n: int)
    requires
        a >= 0,
        k >= 0,
    ensures
        0 <= wrap_seq(a, k, n) <= a + k,
    decreases k,
{
    if k > 0 {
        lemma_wrap_seq_bounds(a, k - 1, n);
    }
}

/// For the drawn rows of a tiled region, the tiling needs no division by zero and the
/// texture row fits in an `isize`.
pub open spec fn tile_rows_ok(out_x: int, out_y: int, tex_y: int, tex_w: int, tex_h: int, out_w: int, out_h: int) -> bool {
    region_off_tile(out_x, out_y, out_w, out_h) || {
        &&& out_x < 0 ==> tex_w != 0
        &&& out_y < 0 ==> tex_h != 0
        &&& forall|y: int| clip_lo(out_y) <= y < clip_hi(out_y, out_h, tile_h())
            ==> isize::MIN <= #[trigger] tile_row(out_y, tex_y, tex_h, y) <= isize::MAX
    }
}

/// A value fits in an `isize`.
pub open spec fn fits_isize(v: int) -> bool {
    isize::MIN <= v <= isize::MAX
}

/// The tile after [`Renderer2d::draw_region`] with these arguments.
pub open spec fn copy_region_spec(s: Seq<Color565>, parts: NinePartsTexture, ox: int, oy: int, tx: int, ty: int, w: int, h: int) -> Seq<Color565> {
    region_spec(s, parts.data@, parts.texture_width as isize as int, parts.texture_height as isize as int, ox, oy,
        copy_map(tx, ty), w, h)
}

/// [`Renderer2d::draw_region`] can be called with these arguments.
pub open spec fn copy_region_ok(parts: NinePartsTexture, ox: int, oy: int, tx: int, ty: int, w: int, h: int) -> bool {
    &&& fits_isize(ox + w)
    &&& fits_isize(oy + h)
    &&& region_cells_ok(parts.data@, parts.texture_width as isize as int, parts.texture_height as isize as int, ox, oy,
        copy_map(tx, ty), w, h)
}

/// The tile after [`Renderer2d::draw_region_strech`] with these arguments.
pub open spec fn stretch_region_spec(
    s: Seq<Color565>, parts: NinePartsTexture, ox: int, oy: int, tx: int, ty: int, tw: int, th: int, ow: int, oh: int,
) -> Seq<Color565> {
    region_spec(s, parts.data@, parts.texture_width as isize as int, parts.texture_height as isize as int, ox, oy,
        stretch_map(tx, ty, tw, th, ow, oh), ow, oh)
}

/// [`Renderer2d::draw_region_strech`] can be called with these arguments.
pub open spec fn stretch_region_ok(parts: NinePartsTexture, ox: int, oy: int, tx: int, ty: int, tw: int, th: int, ow: int, oh: int) -> bool {
    &&& fits_isize(ox + ow)
    &&& fits_isize(oy + oh)
    &&& stretch_products_ok(ox, oy, ty, tw, th, ow, oh)
    &&& region_cells_ok(parts.data@, parts.texture_width as isize as int, parts.texture_height as isize as int, ox, oy,
        stretch_map(tx, ty, tw, th, ow, oh), ow, oh)
}

/// The tile after [`Renderer2d::draw_region_tile`] with these arguments.
pub open spec fn tile_region_spec(
    s: Seq<Color565>, parts: NinePartsTexture, ox: int, oy: int, tx: int, ty: int, tw: int, th: int, ow: int, oh: int,
) -> Seq<Color565> {
    region_spec(s, parts.data@, parts.texture_width as isize as int, parts.texture_height as isize as int, ox, oy,
        tile_map(ox, oy, tx, ty, tw, th), ow, oh)
}

/// [`Renderer2d::draw_region_tile`] can be called with these arguments.
pub open spec fn tile_region_ok(parts: NinePartsTexture, ox: int, oy: int, tx: int, ty: int, tw: int, th: int, ow: int, oh: int) -> bool {
    &&& fits_isize(ox + ow)
    &&& fits_isize(oy + oh)
    &&& tile_rows_ok(ox, oy, ty, tw, th, ow, oh)
    &&& region_cells_ok(parts.data@, parts.texture_width as isize as int, parts.texture_height as isize as int, ox, oy,
        tile_map(ox, oy, tx, ty, tw, th), ow, oh)
}

/// The tile after drawing one of the five stretched or tiled parts.
pub open spec fn scaled_region_spec(
    mode: ScaleMode, s: Seq<Color565>, parts: NinePartsTexture, ox: int, oy: int, tx: int, ty: int, tw: int, th: int,
    ow: int, oh: int,
) -> Seq<Color565> {
    match mode {
        ScaleMode::Stretch => stretch_region_spec(s, parts, ox, oy, tx, ty, tw, th, ow, oh),
        ScaleMode::Tile => tile_region_spec(s, parts, ox, oy, tx, ty, tw, th, ow, oh),
    }
}

/// One of the five stretched or tiled parts can be drawn.
pub open spec fn scaled_region_ok(
    mode: ScaleMode, parts: NinePartsTexture, ox: int, oy: int, tx: int, ty: int, tw: int, th: int, ow: int, oh: int,
) -> bool {
    match mode {
        ScaleMode::Stretch => stretch_region_ok(parts, ox, oy, tx, ty, tw, th, ow, oh),
        ScaleMode::Tile => tile_region_ok(parts, ox, oy, tx, ty, tw, th, ow, oh),
    }
}

/// The tile after drawing a nine-parts rectangle of corner `(px, py)` and size `sx × sy`:
/// the four corners first (top left, bottom left, bottom right, top right), then the top,
/// bottom, left and right sides, then the centre. Each side and the centre take their
/// pixels from the matching middle part of the texture (between the borders), scaled to
/// fit: the top and bottom sides the middle columns, the left and right sides the middle
/// rows, the centre both.
pub open spec fn nine_parts_spec(s: Seq<Color565>, parts: NinePartsTexture, px: int, py: int, sx: int, sy: int, mode: ScaleMode) -> Seq<Color565> {
    let l = parts.left_border_size as isize as int;
    let r = parts.right_border_size as isize as int;
    let t = parts.top_border_size as isize as int;
    let b = parts.bottom_border_size as isize as int;
    let tw_r = (parts.texture_width - parts.right_border_size) as isize as int;
    let th_b = (parts.texture_height - parts.bottom_border_size) as isize as int;
    let lr = (parts.left_border_size + parts.right_border_size) as isize as int;
    let tb = (parts.top_border_size + parts.bottom_border_size) as isize as int;
    let mw = tw_r - l;
    let mh = th_b - t;
    let s1 = copy_region_spec(s, parts, px, py, 0, 0, l, t);
    let s2 = copy_region_spec(s1, parts, px, py + (sy - b), 0, th_b, l, b);
    let s3 = copy_region_spec(s2, parts, px + (sx - r), py + (sy - b), tw_r, th_b, r, b);
    let s4 = copy_region_spec(s3, parts, px + (sx - r), py, tw_r, 0, r, t);
    let s5 = scaled_region_spec(mode, s4, parts, px + l, py, l, 0, mw, t, sx - lr, t);
    let s6 = scaled_region_spec(mode, s5, parts, px + l, py + (sy - b), l, th_b, mw, b, sx - lr, b);
    let s7 = scaled_region_spec(mode, s6, parts, px, py + t, 0, t, l, mh, l, sy - tb);
    let s8 = scaled_region_spec(mode, s7, parts, px + (sx - r), py + t, tw_r, t, r, mh, r, sy - tb);
    scaled_region_spec(mode, s8, parts, px + l, py + t, l, t, mw, mh, sx - lr, sy - tb)
}

/// A nine-parts rectangle can be drawn: the borders fit in the texture and add up without
/// overflow, every position and size computed fits in an `isize`, and each of the nine
/// parts can be drawn.
pub open spec fn nine_parts_ok(parts: NinePartsTexture, px: int, py: int, sx: int, sy: int, mode: ScaleMode) -> bool {
    let l = parts.left_border_size as isize as int;
    let r = parts.right_border_size as isize as int;
    let t = parts.top_border_size as isize as int;
    let b = parts.bottom_border_size as isize as int;
    let tw_r = (parts.texture_width - parts.right_border_size) as isize as int;
    let th_b = (parts.texture_height - parts.bottom_border_size) as isize as int;
    let lr = (parts.left_border_size + parts.right_border_size) as isize as int;
    let tb = (parts.top_border_size + parts.bottom_border_size) as isize as int;
    let mw = tw_r - l;
    let mh = th_b - t;
    &&& parts.right_border_size <= parts.texture_width
    &&& parts.bottom_border_size <= parts.texture_height
    &&& parts.left_border_size + parts.right_border_size <= usize::MAX
    &&& parts.top_border_size + parts.bottom_border_size <= usize::MAX
    &&& fits_isize(sy - b) && fits_isize(sx - r) && fits_isize(sx - lr) && fits_isize(sy - tb)
    &&& fits_isize(mw) && fits_isize(mh)
    &&& fits_isize(py + (sy - b)) && fits_isize(px + (sx - r)) && fits_isize(px + l) && fits_isize(py + t)
    &&& copy_region_ok(parts, px, py, 0, 0, l, t)
    &&& copy_region_ok(parts, px, py + (sy - b), 0, th_b, l, b)
    &&& copy_region_ok(parts, px + (sx - r), py + (sy - b), tw_r, th_b, r, b)
    &&& copy_region_ok(parts, px + (sx - r), py, tw_r, 0, r, t)
    &&& scaled_region_ok(mode, parts, px + l, py, l, 0, mw, t, sx - lr, t)
    &&& scaled_region_ok(mode, parts, px + l, py + (sy - b), l, th_b, mw, b, sx - lr, b)
    &&& scaled_region_ok(mode, parts, px, py + t, 0, t, l, mh, l, sy - tb)
    &&& scaled_region_ok(mode, parts, px + (sx - r), py + t, tw_r, t, r, mh, r, sy - tb)
    &&& scaled_region_ok(mode, parts, px + l, py + t, l, t, mw, mh, sx - lr, sy - tb)
}

impl Renderer2d {
    /// Draws the texture pixel `c` at region cell `(x, y)` of a region placed at `out`.
    fn draw_texel(&mut self, c: TransparentRGB565, out: Vector2<isize>, x: isize, y: isize)
        requires
            0 <= x,
            0 <= y,
            0 <= out.x + x < tile_w(),
            0 <= out.y + y < tile_h(),
            c.alpha != 0 && c.alpha != 255 ==> pixel_index(tile_w(), x as int, y as int) < TILE_PIXELS,
        ensures
            final(self).clear_color == old(self).clear_color,
            final(self).tile_frame_buffer@ == region_pixel(
                old(self).tile_frame_buffer@, c, out.x as int, out.y as int, x as int, y as int),
    {
        proof { lemma_tile_size(); }
        if c.alpha == 0 {
        } else if c.alpha == 255 {
            self.draw_pixel((out.x + x) as usize, (out.y + y) as usize, c.rgb);
        } else {
            let old_color = self.tile_frame_buffer[(x + y * SCREEN_TILE_WIDTH as isize) as usize];
            self.draw_pixel((out.x + x) as usize, (out.y + y) as usize, add_alpha_color(old_color, c));
        }
    }

    /// Copies the `width × height` block of `parts` starting at texture pixel
    /// `texture_buffer_start` to the tile at `out_buffer_start`, blending by opacity.
    /// Only the cells that fall in the tile are drawn.
    pub fn draw_region(
        &mut self, parts: &NinePartsTexture, out_buffer_start: Vector2<isize>, texture_buffer_start: Vector2<isize>,
        width: isize, height: isize,
    )
        requires
            isize::MIN <= out_buffer_start.x + width <= isize::MAX,
            isize::MIN <= out_buffer_start.y + height <= isize::MAX,
            region_cells_ok(parts.data@, parts.texture_width as isize as int, parts.texture_height as isize as int,
                out_buffer_start.x as int, out_buffer_start.y as int,
                copy_map(texture_buffer_start.x as int, texture_buffer_start.y as int), width as int, height as int),
        ensures
            final(self).clear_color == old(self).clear_color,
            final(self).tile_frame_buffer@ == region_spec(old(self).tile_frame_buffer@, parts.data@,
                parts.texture_width as isize as int, parts.texture_height as isize as int,
                out_buffer_start.x as int, out_buffer_start.y as int,
                copy_map(texture_buffer_start.x as int, texture_buffer_start.y as int), width as int, height as int),
    {
        proof { lemma_tile_size(); }
        let ghost s0 = self.tile_frame_buffer@;
        let ghost map = copy_map(texture_buffer_start.x as int, texture_buffer_start.y as int);
        let out = out_buffer_start;
        let tex = texture_buffer_start;
        let tw = parts.texture_width as isize;
        let th = parts.texture_height as isize;
        if out.x + width < 0 || out.y + height < 0 || out.x > SCREEN_TILE_WIDTH as isize
            || out.y > SCREEN_TILE_HEIGHT as isize {
            return;
        }
        let mut x_end = width;
        let mut y_end = height;
        let mut start = Vector2 { x: 0isize, y: 0isize };
        if out.x < 0 {
            start.x = -out.x;
        }
        if out.y < 0 {
            start.y = -out.y;
        }
        if out.x + width > SCREEN_TILE_WIDTH as isize {
            x_end = SCREEN_TILE_WIDTH as isize - out.x;
        }
        if out.y + height > SCREEN_TILE_HEIGHT as isize {
            y_end = SCREEN_TILE_HEIGHT as isize - out.y;
        }
        let mut y = start.y;
        while y < y_end
            invariant
                start.y <= y <= y_end || (y == start.y && y_end < start.y),
                start.x == clip_lo(out.x as int), start.y == clip_lo(out.y as int),
                x_end == clip_hi(out.x as int, width as int, tile_w()),
                y_end == clip_hi(out.y as int, height as int, tile_h()),
                !region_off_tile(out.x as int, out.y as int, width as int, height as int),
                region_cells_ok(parts.data@, tw as int, th as int, out.x as int, out.y as int, map, width as int, height as int),
                tw == parts.texture_width as isize, th == parts.texture_height as isize,
                map == copy_map(tex.x as int, tex.y as int),
                self.clear_color == old(self).clear_color,
                self.tile_frame_buffer@ == region_rows(s0, parts.data@, tw as int, th as int, out.x as int, out.y as int,
                    map, start.y as int, y as int, start.x as int, x_end as int),
            decreases y_end - y,
        {
            let mut x = start.x;
            while x < x_end
                invariant
                    start.x <= x <= x_end || (x == start.x && x_end < start.x),
                    start.y <= y < y_end,
                    start.x == clip_lo(out.x as int), start.y == clip_lo(out.y as int),
                    x_end == clip_hi(out.x as int, width as int, tile_w()),
                    y_end == clip_hi(out.y as int, height as int, tile_h()),
                    !region_off_tile(out.x as int, out.y as int, width as int, height as int),
                    region_cells_ok(parts.data@, tw as int, th as int, out.x as int, out.y as int, map, width as int, height as int),
                    tw == parts.texture_width as isize, th == parts.texture_height as isize,
                    map == copy_map(tex.x as int, tex.y as int),
                    self.clear_color == old(self).clear_color,
                    self.tile_frame_buffer@ == region_row(
                        region_rows(s0, parts.data@, tw as int, th as int, out.x as int, out.y as int, map,
                            start.y as int, y as int, start.x as int, x_end as int),
                        parts.data@, tw as int, th as int, out.x as int, out.y as int, map, y as int, start.x as int, x as int),
                decreases x_end - x,
            {
                assert(cell_ok(parts.data@, tw as int, th as int, map(x as int, y as int), x as int, y as int));
                let color = get_pixel_transparent(parts.data, tw, th, tex.x + x, tex.y + y);
                self.draw_texel(color, out, x, y);
                x += 1;
            }
            y += 1;
        }
    }

    /// Draws the `tex_width × tex_height` block of `parts` starting at texture pixel
    /// `texture_buffer_start`, stretched to `out_width × out_height` cells at
    /// `out_buffer_start`. Only the cells that fall in the tile are drawn.
    pub fn draw_region_strech(
        &mut self, parts: &NinePartsTexture, out_buffer_start: Vector2<isize>, texture_buffer_start: Vector2<isize>,
        tex_width: isize, tex_height: isize, out_width: isize, out_height: isize,
    )
        requires
            isize::MIN <= out_buffer_start.x + out_width <= isize::MAX,
            isize::MIN <= out_buffer_start.y + out_height <= isize::MAX,
            stretch_products_ok(out_buffer_start.x as int, out_buffer_start.y as int, texture_buffer_start.y as int, tex_width as int,
                tex_height as int, out_width as int, out_height as int),
            region_cells_ok(parts.data@, parts.texture_width as isize as int, parts.texture_height as isize as int,
                out_buffer_start.x as int, out_buffer_start.y as int,
                stretch_map(texture_buffer_start.x as int, texture_buffer_start.y as int, tex_width as int,
                    tex_height as int, out_width as int, out_height as int), out_width as int, out_height as int),
        ensures
            final(self).clear_color == old(self).clear_color,
            final(self).tile_frame_buffer@ == region_spec(old(self).tile_frame_buffer@, parts.data@,
                parts.texture_width as isize as int, parts.texture_height as isize as int,
                out_buffer_start.x as int, out_buffer_start.y as int,
                stretch_map(texture_buffer_start.x as int, texture_buffer_start.y as int, tex_width as int,
                    tex_height as int, out_width as int, out_height as int), out_width as int, out_height as int),
    {
        proof { lemma_tile_size(); }
        let ghost s0 = self.tile_frame_buffer@;
        let ghost map = stretch_map(texture_buffer_start.x as int, texture_buffer_start.y as int, tex_width as int,
            tex_height as int, out_width as int, out_height as int);
        let out = out_buffer_start;
        let tex = texture_buffer_start;
        let tw = parts.texture_width as isize;
        let th = parts.texture_height as isize;
        if out.x + out_width < 0 || out.y + out_height < 0 || out.x > SCREEN_TILE_WIDTH as isize
            || out.y > SCREEN_TILE_HEIGHT as isize {
            return;
        }
        let mut start = Vector2 { x: 0isize, y: 0isize };
        let mut max_size = Vector2 { x: out_width, y: out_height };
        if out.x < 0 {
            start.x = -out.x;
        }
        if out.y < 0 {
            start.y = -out.y;
        }
        if out.x + out_width > SCREEN_TILE_WIDTH as isize {
            max_size.x = SCREEN_TILE_WIDTH as isize - out.x;
        }
        if out.y + out_height > SCREEN_TILE_HEIGHT as isize {
            max_size.y = SCREEN_TILE_HEIGHT as isize - out.y;
        }
        let mut y = start.y;
        while y < max_size.y
            invariant
                start.y <= y <= max_size.y || (y == start.y && max_size.y < start.y),
                start.x == clip_lo(out.x as int), start.y == clip_lo(out.y as int),
                max_size.x == clip_hi(out.x as int, out_width as int, tile_w()),
                max_size.y == clip_hi(out.y as int, out_height as int, tile_h()),
                !region_off_tile(out.x as int, out.y as int, out_width as int, out_height as int),
                stretch_products_ok(out.x as int, out.y as int, tex.y as int, tex_width as int, tex_height as int, out_width as int, out_height as int),
                region_cells_ok(parts.data@, tw as int, th as int, out.x as int, out.y as int, map, out_width as int, out_height as int),
                tw == parts.texture_width as isize, th == parts.texture_height as isize,
                map == stretch_map(tex.x as int, tex.y as int, tex_width as int, tex_height as int, out_width as int, out_height as int),
                self.clear_color == old(self).clear_color,
                self.tile_frame_buffer@ == region_rows(s0, parts.data@, tw as int, th as int, out.x as int, out.y as int,
                    map, start.y as int, y as int, start.x as int, max_size.x as int),
            decreases max_size.y - y,
        {
            assert(isize::MIN <= y * tex_height <= isize::MAX);
            let pix_y = tex.y + y * tex_height / out_height;
            let mut x = start.x;
            while x < max_size.x
                invariant
                    start.x <= x <= max_size.x || (x == start.x && max_size.x < start.x),
                    start.y <= y < max_size.y,
                    start.x == clip_lo(out.x as int), start.y == clip_lo(out.y as int),
                    max_size.x == clip_hi(out.x as int, out_width as int, tile_w()),
                    max_size.y == clip_hi(out.y as int, out_height as int, tile_h()),
                    !region_off_tile(out.x as int, out.y as int, out_width as int, out_height as int),
                    stretch_products_ok(out.x as int, out.y as int, tex.y as int, tex_width as int, tex_height as int, out_width as int, out_height as int),
                    region_cells_ok(parts.data@, tw as int, th as int, out.x as int, out.y as int, map, out_width as int, out_height as int),
                    tw == parts.texture_width as isize, th == parts.texture_height as isize,
                    map == stretch_map(tex.x as int, tex.y as int, tex_width as int, tex_height as int, out_width as int, out_height as int),
                    pix_y == map(x as int, y as int).1,
                    self.clear_color == old(self).clear_color,
                    self.tile_frame_buffer@ == region_row(
                        region_rows(s0, parts.data@, tw as int, th as int, out.x as int, out.y as int, map,
                            start.y as int, y as int, start.x as int, max_size.x as int),
                        parts.data@, tw as int, th as int, out.x as int, out.y as int, map, y as int, start.x as int, x as int),
                decreases max_size.x - x,
            {
                assert(cell_ok(parts.data@, tw as int, th as int, map(x as int, y as int), x as int, y as int));
                assert(isize::MIN <= x * tex_width <= isize::MAX);
                let color = get_pixel_transparent(parts.data, tw, th, tex.x + x * tex_width / out_width, pix_y);
                self.draw_texel(color, out, x, y);
                x += 1;
            }
            y += 1;
        }
    }

    /// Repeats the `tex_width × tex_height` block of `parts` starting at texture pixel
    /// `texture_buffer_start` over `out_width × out_height` cells at `out_buffer_start`,
    /// as if the repetition started at the region's corner. Only the cells that fall in the
    /// tile are drawn.
    pub fn draw_region_tile(
        &mut self, parts: &NinePartsTexture, out_buffer_start: Vector2<isize>, texture_buffer_start: Vector2<isize>,
        tex_width: isize, tex_height: isize, out_width: isize, out_height: isize,
    )
        requires
            isize::MIN <= out_buffer_start.x + out_width <= isize::MAX,
            isize::MIN <= out_buffer_start.y + out_height <= isize::MAX,
            tile_rows_ok(out_buffer_start.x as int, out_buffer_start.y as int, texture_buffer_start.y as int,
                tex_width as int, tex_height as int, out_width as int, out_height as int),
            region_cells_ok(parts.data@, parts.texture_width as isize as int, parts.texture_height as isize as int,
                out_buffer_start.x as int, out_buffer_start.y as int,
                tile_map(out_buffer_start.x as int, out_buffer_start.y as int, texture_buffer_start.x as int,
                    texture_buffer_start.y as int, tex_width as int, tex_height as int), out_width as int, out_height as int),
        ensures
            final(self).clear_color == old(self).clear_color,
            final(self).tile_frame_buffer@ == region_spec(old(self).tile_frame_buffer@, parts.data@,
                parts.texture_width as isize as int, parts.texture_height as isize as int,
                out_buffer_start.x as int, out_buffer_start.y as int,
                tile_map(out_buffer_start.x as int, out_buffer_start.y as int, texture_buffer_start.x as int,
                    texture_buffer_start.y as int, tex_width as int, tex_height as int), out_width as int, out_height as int),
    {
        proof { lemma_tile_size(); }
        let ghost s0 = self.tile_frame_buffer@;
        let ghost map = tile_map(out_buffer_start.x as int, out_buffer_start.y as int, texture_buffer_start.x as int,
            texture_buffer_start.y as int, tex_width as int, tex_height as int);
        let out = out_buffer_start;
        let tex = texture_buffer_start;
        let tw = parts.texture_width as isize;
        let th = parts.texture_height as isize;
        if out.x + out_width < 0 || out.y + out_height < 0 || out.x > SCREEN_TILE_WIDTH as isize
            || out.y > SCREEN_TILE_HEIGHT as isize {
            return;
        }
        let mut start = Vector2 { x: 0isize, y: 0isize };
        let mut max_size = Vector2 { x: out_width, y: out_height };
        let mut tex_start = Vector2 { x: 0isize, y: 0isize };
        if out.x < 0 {
            start.x = -out.x;
            proof { lemma_trunc_rem_nonneg(-out.x as int, tex_width as int); }
            tex_start.x = tex_start.x + -out.x % tex_width;
        }
        if out.y < 0 {
            start.y = -out.y;
            proof { lemma_trunc_rem_nonneg(-out.y as int, tex_height as int); }
            tex_start.y = tex_start.y + -out.y % tex_height;
        }
        if out.x + out_width > SCREEN_TILE_WIDTH as isize {
            max_size.x = SCREEN_TILE_WIDTH as isize - out.x;
        }
        if out.y + out_height > SCREEN_TILE_HEIGHT as isize {
            max_size.y = SCREEN_TILE_HEIGHT as isize - out.y;
        }
        assert(tex_start.x == tile_start(out.x as int, tex_width as int));
        assert(tex_start.y == tile_start(out.y as int, tex_height as int));
        let mut tex_y = tex_start.y;
        let mut y = start.y;
        while y < max_size.y
            invariant
                start.y <= y <= max_size.y || (y == start.y && max_size.y < start.y),
                start.x == clip_lo(out.x as int), start.y == clip_lo(out.y as int),
                max_size.x == clip_hi(out.x as int, out_width as int, tile_w()),
                max_size.y == clip_hi(out.y as int, out_height as int, tile_h()),
                tex_start.x == tile_start(out.x as int, tex_width as int),
                0 <= tex_start.x <= start.x,
                tex_y == wrap_seq(tex_start.y as int, y - start.y, tex_height as int),
                0 <= tex_y <= y,
                !region_off_tile(out.x as int, out.y as int, out_width as int, out_height as int),
                tile_rows_ok(out.x as int, out.y as int, tex.y as int, tex_width as int, tex_height as int, out_width as int, out_height as int),
                tex_start.y == tile_start(out.y as int, tex_height as int),
                region_cells_ok(parts.data@, tw as int, th as int, out.x as int, out.y as int, map, out_width as int, out_height as int),
                tw == parts.texture_width as isize, th == parts.texture_height as isize,
                map == tile_map(out.x as int, out.y as int, tex.x as int, tex.y as int, tex_width as int, tex_height as int),
                self.clear_color == old(self).clear_color,
                self.tile_frame_buffer@ == region_rows(s0, parts.data@, tw as int, th as int, out.x as int, out.y as int,
                    map, start.y as int, y as int, start.x as int, max_size.x as int),
            decreases max_size.y - y,
        {
            assert(isize::MIN <= tile_row(out.y as int, tex.y as int, tex_height as int, y as int) <= isize::MAX);
            let pix_y = tex.y + tex_y;
            let mut tex_x = tex_start.x;
            let mut x = start.x;
            while x < max_size.x
                invariant
                    start.x <= x <= max_size.x || (x == start.x && max_size.x < start.x),
                    start.y <= y < max_size.y,
                    start.x == clip_lo(out.x as int), start.y == clip_lo(out.y as int),
                    max_size.x == clip_hi(out.x as int, out_width as int, tile_w()),
                    max_size.y == clip_hi(out.y as int, out_height as int, tile_h()),
                    tex_start.x == tile_start(out.x as int, tex_width as int),
                    tex_x == tile_column(out.x as int, tex_width as int, x as int),
                    0 <= tex_x <= x,
                    !region_off_tile(out.x as int, out.y as int, out_width as int, out_height as int),
                    region_cells_ok(parts.data@, tw as int, th as int, out.x as int, out.y as int, map, out_width as int, out_height as int),
                    tw == parts.texture_width as isize, th == parts.texture_height as isize,
                    map == tile_map(out.x as int, out.y as int, tex.x as int, tex.y as int, tex_width as int, tex_height as int),
                    pix_y == map(x as int, y as int).1,
                    self.clear_color == old(self).clear_color,
                    self.tile_frame_buffer@ == region_row(
                        region_rows(s0, parts.data@, tw as int, th as int, out.x as int, out.y as int, map,
                            start.y as int, y as int, start.x as int, max_size.x as int),
                        parts.data@, tw as int, th as int, out.x as int, out.y as int, map, y as int, start.x as int, x as int),
                decreases max_size.x - x,
            {
                assert(cell_ok(parts.data@, tw as int, th as int, map(x as int, y as int), x as int, y as int));
                let color = get_pixel_transparent(parts.data, tw, th, tex.x + tex_x, pix_y);
                self.draw_texel(color, out, x, y);
                tex_x += 1;
                if tex_x >= tex_width {
                    tex_x = 0;
                }
                x += 1;
            }
            tex_y += 1;
            if tex_y >= tex_height {
                tex_y = 0;
            }
            y += 1;
        }
    }

    /// Draws a nine-parts rectangle of corner `pos` and size `size` with the given
    /// scaling for its sides and centre (see [`nine_parts_spec`]).
    pub fn draw_nine_parts_rectangle(&mut self, parts: NinePartsTexture, pos: Vector2<isize>, size: Vector2<u16>, scaling_mode: ScaleMode)
        requires
            nine_parts_ok(parts, pos.x as int, pos.y as int, size.x as int, size.y as int, scaling_mode),
        ensures
            final(self).clear_color == old(self).clear_color,
            final(self).tile_frame_buffer@ == nine_parts_spec(old(self).tile_frame_buffer@, parts, pos.x as int,
                pos.y as int, size.x as int, size.y as int, scaling_mode),
    {
        let size = Vector2 { x: size.x as isize, y: size.y as isize };

        // Never taken: with a non-negative width the rectangle cannot both end left of the
        // tile and start right of it.
        if pos.x + size.x < 0 && pos.x > SCREEN_TILE_WIDTH as isize && pos.y + size.x < 0
            && pos.y < SCREEN_TILE_HEIGHT as isize {
            assert(false);
            return;
        }
        let l = parts.left_border_size as isize;
        let r = parts.right_border_size as isize;
        let t = parts.top_border_size as isize;
        let b = parts.bottom_border_size as isize;
        let tw_r = (parts.texture_width - parts.right_border_size) as isize;
        let th_b = (parts.texture_height - parts.bottom_border_size) as isize;
        let lr = (parts.left_border_size + parts.right_border_size) as isize;
        let tb = (parts.top_border_size + parts.bottom_border_size) as isize;
        let mw = tw_r - l;
        let mh = th_b - t;

        let top_left_corner = pos;
        let bottom_left_corner = Vector2 { x: pos.x, y: pos.y + (size.y - b) };
        let bottom_right_corner = Vector2 { x: pos.x + (size.x - r), y: pos.y + (size.y - b) };
        let top_right_corner = Vector2 { x: pos.x + (size.x - r), y: pos.y };
        let top_corner = Vector2 { x: pos.x + l, y: pos.y };
        let bottom_corner = Vector2 { x: pos.x + l, y: pos.y + (size.y - b) };
        let left_corner = Vector2 { x: pos.x, y: pos.y + t };
        let right_corner = Vector2 { x: pos.x + (size.x - r), y: pos.y + t };
        let center_corner = Vector2 { x: pos.x + l, y: pos.y + t };

        self.draw_region(&parts, top_left_corner, Vector2 { x: 0, y: 0 }, l, t);
        self.draw_region(&parts, bottom_left_corner, Vector2 { x: 0, y: th_b }, l, b);
        self.draw_region(&parts, bottom_right_corner, Vector2 { x: tw_r, y: th_b }, r, b);
        self.draw_region(&parts, top_right_corner, Vector2 { x: tw_r, y: 0 }, r, t);

        match scaling_mode {
            ScaleMode::Stretch => {
                self.draw_region_strech(&parts, top_corner, Vector2 { x: l, y: 0 }, mw, t, size.x - lr, t);
                self.draw_region_strech(&parts, bottom_corner, Vector2 { x: l, y: th_b }, mw, b, size.x - lr, b);
                self.draw_region_strech(&parts, left_corner, Vector2 { x: 0, y: t }, l, mh, l, size.y - tb);
                self.draw_region_strech(&parts, right_corner, Vector2 { x: tw_r, y: t }, r, mh, r, size.y - tb);
                self.draw_region_strech(&parts, center_corner, Vector2 { x: l, y: t }, mw, mh, size.x - lr, size.y - tb);
            },
            ScaleMode::Tile => {
                self.draw_region_tile(&parts, top_corner, Vector2 { x: l, y: 0 }, mw, t, size.x - lr, t);
                self.draw_region_tile(&parts, bottom_corner, Vector2 { x: l, y: th_b }, mw, b, size.x - lr, b);
                self.draw_region_tile(&parts, left_corner, Vector2 { x: 0, y: t }, l, mh, l, size.y - tb);
                self.draw_region_tile(&parts, right_corner, Vector2 { x: tw_r, y: t }, r, mh, r, size.y - tb);
                self.draw_region_tile(&parts, center_corner, Vector2 { x: l, y: t }, mw, mh, size.x - lr, size.y - tb);
            },
        }
    }
}

} // verus!
