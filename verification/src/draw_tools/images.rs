//! Textured regions drawn into a caller-owned frame buffer, and the nine-parts
//! rectangle built from them.
use vstd::prelude::*;
use crate::color::Color565;
use crate::draw_tools::shapes::{addressable, frame_fits, in_bounds, pixel_index, lemma_cell_of_index, put_pixel, get_pixel, put_pixel_spec, get_pixel_spec};
use crate::geometry::Vector2;
use crate::renderer::drawing::DrawInfo;
use crate::renderer2d::nine_parts_rectangle::{
    texel_at, texel_addressable, get_pixel_transparent, add_alpha_color, weighted_sum_spec, copy_map, stretch_map,
    trunc_div, wrap_step, wrap_seq, fits_isize,
};
use crate::renderer2d::sprite::TransparentRGB565;

verus! {

/// A texture cut in nine parts by four borders (see [`nine_parts_rectangle`]).
/// Its pixels are stored row by row, three bytes each (see [`TransparentRGB565`]).
pub struct NinePartsTexture {
    pub data: &'static [u8],
    pub texture_width: usize,
    pub texture_height: usize,
    pub left_border_size: usize,
    pub right_border_size: usize,
    pub top_border_size: usize,
    pub bottom_border_size: usize,
}

/// How the sides and the centre of a nine-parts rectangle fill their area.
#[derive(Clone, Copy, PartialEq, Eq, Structural, Debug)]
pub enum NinePartsScaleMode {
    Stretch,
    Tile,
}

/// What drawing the texture pixel `c` at region cell `(x, y)` does to a `bw × bh` frame:
/// the cell lands at `(ox + x, oy + y)`; a transparent pixel leaves the frame as it is,
/// an opaque one is written, and any other is weighted with the colour read at `(x, y)`
/// (the region-relative position).
pub open spec fn frame_texel_spec(s: Seq<Color565>, bw: int, bh: int, c: TransparentRGB565, ox: int, oy: int, x: int, y: int) -> Seq<Color565> {
    if c.alpha == 0 {
        s
    } else if c.alpha == 255 {
        put_pixel_spec(s, bw, bh, ox + x, oy + y, c.rgb)
    } else {
        put_pixel_spec(s, bw, bh, ox + x, oy + y, weighted_sum_spec(get_pixel_spec(s, bw, bh, x, y), c))
    }
}

/// The frame after drawing the cells `0 .. x` of region row `y`, in order; the cell
/// `(x, y)` shows the texture pixel at `map(x, y)`.
pub open spec fn frame_row(
    s: Seq<Color565>, data: Seq<u8>, tw: int, th: int, bw: int, bh: int, ox: int, oy: int,
    map: spec_fn(int, int) -> (int, int), y: int, x: int,
) -> Seq<Color565>
    decreases x,
{
    if x <= 0 {
        s
    } else {
        let t = map(x - 1, y);
        frame_texel_spec(frame_row(s, data, tw, th, bw, bh, ox, oy, map, y, x - 1), bw, bh,
            texel_at(data, tw, th, t.0, t.1), ox, oy, x - 1, y)
    }
}

/// The frame after drawing the region rows `0 .. y`, each over the cells `0 .. width`, in order.
pub open spec fn frame_rows(
    s: Seq<Color565>, data: Seq<u8>, tw: int, th: int, bw: int, bh: int, ox: int, oy: int,
    map: spec_fn(int, int) -> (int, int), y: int, width: int,
) -> Seq<Color565>
    decreases y,
{
    if y <= 0 {
        s
    } else {
        frame_row(frame_rows(s, data, tw, th, bw, bh, ox, oy, map, y - 1, width), data, tw, th, bw, bh, ox, oy,
            map, y - 1, width)
    }
}

/// Drawing region cell `(x, y)` from texture coordinates `t` is possible: the coordinates
/// fit in an `isize`, the texture read stays in its bytes, a visible pixel lands on an
/// addressable frame position and a semi-transparent one reads an addressable position.
pub open spec fn frame_cell_ok(
    len: int, bw: int, bh: int, data: Seq<u8>, tw: int, th: int, t: (int, int), ox: int, oy: int, x: int, y: int,
) -> bool {
    let c = texel_at(data, tw, th, t.0, t.1);
    &&& fits_isize(t.0)
    &&& fits_isize(t.1)
    &&& texel_addressable(data.len() as int, tw, th, t.0, t.1)
    &&& c.alpha != 0 ==> fits_isize(ox + x) && fits_isize(oy + y) && addressable(len, bw, bh, ox + x, oy + y)
    &&& c.alpha != 0 && c.alpha != 255 ==> addressable(len, bw, bh, x, y)
}

/// Every cell of a `width × height` region satisfies [`frame_cell_ok`].
pub open spec fn frame_cells_ok(
    len: int, bw: int, bh: int, data: Seq<u8>, tw: int, th: int, ox: int, oy: int,
    map: spec_fn(int, int) -> (int, int), width: int, height: int,
) -> bool {
    forall|x: int, y: int| 0 <= x < width && 0 <= y < height
        ==> #[trigger] frame_cell_ok(len, bw, bh, data, tw, th, map(x, y), ox, oy, x, y)
}

/// Draws the texture pixel `c` at region cell `(x, y)` of a region placed at `out`.
fn draw_frame_texel(
    buffer: &mut [Color565], buffer_width: isize, buffer_height: isize, c: TransparentRGB565, out: Vector2<isize>,
    x: isize, y: isize,
)
    requires
        c.alpha != 0 ==> fits_isize(out.x + x) && fits_isize(out.y + y) && addressable(
            old(buffer)@.len() as int, buffer_width as int, buffer_height as int, out.x + x, out.y + y),
        c.alpha != 0 && c.alpha != 255 ==> addressable(
            old(buffer)@.len() as int, buffer_width as int, buffer_height as int, x as int, y as int),
    ensures
        final(buffer)@ == frame_texel_spec(old(buffer)@, buffer_width as int, buffer_height as int, c,
            out.x as int, out.y as int, x as int, y as int),
{
    if c.alpha == 0 {
    } else if c.alpha == 255 {
        put_pixel(buffer, buffer_width, buffer_height, out.x + x, out.y + y, c.rgb);
    } else {
        let old_color = get_pixel(buffer, buffer_width, buffer_height, x, y);
        put_pixel(buffer, buffer_width, buffer_height, out.x + x, out.y + y, add_alpha_color(old_color, c));
    }
}

/// Copies the `width × height` block of `parts` starting at texture pixel
/// `texture_buffer_start` to the frame at `out_buffer_start`, blending by opacity.
pub fn draw_region(
    parts: &NinePartsTexture, out_buffer_start: Vector2<isize>, texture_buffer_start: Vector2<isize>, width: isize,
    height: isize, buffer: &mut [Color565], buffer_width: isize, buffer_height: isize,
)
    requires
        frame_cells_ok(old(buffer)@.len() as int, buffer_width as int, buffer_height as int, parts.data@,
            parts.texture_width as isize as int, parts.texture_height as isize as int, out_buffer_start.x as int,
            out_buffer_start.y as int, copy_map(texture_buffer_start.x as int, texture_buffer_start.y as int),
            width as int, height as int),
    ensures
        final(buffer)@.len() == old(buffer)@.len(),
        final(buffer)@ == frame_rows(old(buffer)@, parts.data@, parts.texture_width as isize as int,
            parts.texture_height as isize as int, buffer_width as int, buffer_height as int, out_buffer_start.x as int,
            out_buffer_start.y as int, copy_map(texture_buffer_start.x as int, texture_buffer_start.y as int),
            height as int, width as int),
{
    let ghost s0 = buffer@;
    let ghost map = copy_map(texture_buffer_start.x as int, texture_buffer_start.y as int);
    let out = out_buffer_start;
    let tex = texture_buffer_start;
    let tw = parts.texture_width as isize;
    let th = parts.texture_height as isize;
    let mut y: isize = 0;
    while y < height
        invariant
            0 <= y <= height || (y == 0 && height < 0),
            buffer@.len() == s0.len(),
            frame_cells_ok(s0.len() as int, buffer_width as int, buffer_height as int, parts.data@, tw as int, th as int,
                out.x as int, out.y as int, map, width as int, height as int),
            tw == parts.texture_width as isize, th == parts.texture_height as isize,
            map == copy_map(tex.x as int, tex.y as int),
            buffer@ == frame_rows(s0, parts.data@, tw as int, th as int, buffer_width as int, buffer_height as int,
                out.x as int, out.y as int, map, y as int, width as int),
        decreases height - y,
    {
        let mut x: isize = 0;
        while x < width
            invariant
                0 <= x <= width || (x == 0 && width < 0),
                0 <= y < height,
                buffer@.len() == s0.len(),
                frame_cells_ok(s0.len() as int, buffer_width as int, buffer_height as int, parts.data@, tw as int,
                    th as int, out.x as int, out.y as int, map, width as int, height as int),
                tw == parts.texture_width as isize, th == parts.texture_height as isize,
                map == copy_map(tex.x as int, tex.y as int),
                buffer@ == frame_row(frame_rows(s0, parts.data@, tw as int, th as int, buffer_width as int,
                    buffer_height as int, out.x as int, out.y as int, map, y as int, width as int), parts.data@, tw as int,
                    th as int, buffer_width as int, buffer_height as int, out.x as int, out.y as int, map, y as int, x as int),
            decreases width - x,
        {
            assert(frame_cell_ok(s0.len() as int, buffer_width as int, buffer_height as int, parts.data@, tw as int,
                th as int, map(x as int, y as int), out.x as int, out.y as int, x as int, y as int));
            let color = get_pixel_transparent(parts.data, tw, th, tex.x + x, tex.y + y);
            draw_frame_texel(buffer, buffer_width, buffer_height, color, out, x, y);
            x += 1;
        }
        y += 1;
    }
}

/// For every row `y` and column `x` of an `out_w × out_h` region, `x * tex_w` and
/// `y * tex_h` fit in an `isize`, and so does the texture row `tex_y + y * tex_h / out_h`.
pub open spec fn frame_stretch_ok(tex_y: int, tex_w: int, tex_h: int, out_w: int, out_h: int) -> bool {
    &&& forall|x: int| 0 <= x < out_w ==> isize::MIN <= #[trigger] (x * tex_w) <= isize::MAX
    &&& forall|y: int| 0 <= y < out_h ==> isize::MIN <= #[trigger] (y * tex_h) <= isize::MAX
        && fits_isize(tex_y + trunc_div(y * tex_h, out_h))
}

/// Draws the `tex_width × tex_height` block of `parts` starting at texture pixel
/// `texture_buffer_start`, stretched to `out_width × out_height` cells at `out_buffer_start`.
pub fn draw_region_strech(
    parts: &NinePartsTexture, out_buffer_start: Vector2<isize>, texture_buffer_start: Vector2<isize>,
    tex_width: isize, tex_height: isize, out_width: isize, out_height: isize, buffer: &mut [Color565],
    buffer_width: isize, buffer_height: isize,
)
    requires
        frame_stretch_ok(texture_buffer_start.y as int, tex_width as int, tex_height as int, out_width as int,
            out_height as int),
        frame_cells_ok(old(buffer)@.len() as int, buffer_width as int, buffer_height as int, parts.data@,
            parts.texture_width as isize as int, parts.texture_height as isize as int, out_buffer_start.x as int,
            out_buffer_start.y as int, stretch_map(texture_buffer_start.x as int, texture_buffer_start.y as int,
                tex_width as int, tex_height as int, out_width as int, out_height as int),
            out_width as int, out_height as int),
    ensures
        final(buffer)@.len() == old(buffer)@.len(),
        final(buffer)@ == frame_rows(old(buffer)@, parts.data@, parts.texture_width as isize as int,
            parts.texture_height as isize as int, buffer_width as int, buffer_height as int, out_buffer_start.x as int,
            out_buffer_start.y as int, stretch_map(texture_buffer_start.x as int, texture_buffer_start.y as int,
                tex_width as int, tex_height as int, out_width as int, out_height as int),
            out_height as int, out_width as int),
{
    let ghost s0 = buffer@;
    let ghost map = stretch_map(texture_buffer_start.x as int, texture_buffer_start.y as int, tex_width as int,
        tex_height as int, out_width as int, out_height as int);
    let out = out_buffer_start;
    let tex = texture_buffer_start;
    let tw = parts.texture_width as isize;
    let th = parts.texture_height as isize;
    let mut y: isize = 0;
    while y < out_height
        invariant
            0 <= y <= out_height || (y == 0 && out_height < 0),
            buffer@.len() == s0.len(),
            frame_stretch_ok(tex.y as int, tex_width as int, tex_height as int, out_width as int, out_height as int),
            frame_cells_ok(s0.len() as int, buffer_width as int, buffer_height as int, parts.data@, tw as int, th as int,
                out.x as int, out.y as int, map, out_width as int, out_height as int),
            tw == parts.texture_width as isize, th == parts.texture_height as isize,
            map == stretch_map(tex.x as int, tex.y as int, tex_width as int, tex_height as int, out_width as int, out_height as int),
            buffer@ == frame_rows(s0, parts.data@, tw as int, th as int, buffer_width as int, buffer_height as int,
                out.x as int, out.y as int, map, y as int, out_width as int),
        decreases out_height - y,
    {
        assert(isize::MIN <= y * tex_height <= isize::MAX);
        let pix_y = tex.y + y * tex_height / out_height;
        let mut x: isize = 0;
        while x < out_width
            invariant
                0 <= x <= out_width || (x == 0 && out_width < 0),
                0 <= y < out_height,
                buffer@.len() == s0.len(),
                frame_stretch_ok(tex.y as int, tex_width as int, tex_height as int, out_width as int, out_height as int),
                frame_cells_ok(s0.len() as int, buffer_width as int, buffer_height as int, parts.data@, tw as int,
                    th as int, out.x as int, out.y as int, map, out_width as int, out_height as int),
                tw == parts.texture_width as isize, th == parts.texture_height as isize,
                map == stretch_map(tex.x as int, tex.y as int, tex_width as int, tex_height as int, out_width as int, out_height as int),
                pix_y == map(x as int, y as int).1,
                buffer@ == frame_row(frame_rows(s0, parts.data@, tw as int, th as int, buffer_width as int,
                    buffer_height as int, out.x as int, out.y as int, map, y as int, out_width as int), parts.data@, tw as int,
                    th as int, buffer_width as int, buffer_height as int, out.x as int, out.y as int, map, y as int, x as int),
            decreases out_width - x,
        {
            assert(frame_cell_ok(s0.len() as int, buffer_width as int, buffer_height as int, parts.data@, tw as int,
                th as int, map(x as int, y as int), out.x as int, out.y as int, x as int, y as int));
            assert(isize::MIN <= x * tex_width <= isize::MAX);
            let color = get_pixel_transparent(parts.data, tw, th, tex.x + x * tex_width / out_width, pix_y);
            draw_frame_texel(buffer, buffer_width, buffer_height, color, out, x, y);
            x += 1;
        }
        y += 1;
    }
}

/// The texture row shown by region row `y` of a tiled region: a row counter starting at 0
/// that advances by one per row and wraps at `tex_h` (see [`lemma_frame_tile_is_modulo`]).
pub open spec fn frame_tile_row(tex_y: int, tex_h: int, y: int) -> int {
    tex_y + wrap_seq(0, y, tex_h)
}

/// The texture column shown by region column `x` of a tiled region: a column counter
/// starting at 0 on every row that advances by one per cell and wraps at `tex_w`.
pub open spec fn frame_tile_column(tex_x: int, tex_w: int, x: int) -> int {
    tex_x + wrap_seq(0, x, tex_w)
}

/// Region cell `(x, y)` of a tiled region shows the pixel of the `tex_w × tex_h` block
/// starting at `(tex_x, tex_y)` given by the column and row counters: the block repeats
/// without scaling.
pub open spec fn frame_tile_map(tex_x: int, tex_y: int, tex_w: int, tex_h: int) -> spec_fn(int, int) -> (int, int) {
    |x: int, y: int| (frame_tile_column(tex_x, tex_w, x), frame_tile_row(tex_y, tex_h, y))
}

/// A counter of [`wrap_step`] steps from 0 stays in `[0, max(n - 1, 0)]`.
pub proof fn lemma_wrap_from_zero(k: int, n: int)
    requires
        k >= 0,
    ensures
        0 <= wrap_seq(0, k, n),
        wrap_seq(0, k, n) < n || wrap_seq(0, k, n) == 0,
    decreases k,
{
    if k > 0 {
        lemma_wrap_from_zero(k - 1, n);
    }
}

/// Tiling repeats the block: region cell `(x, y)` shows the block pixel
/// `(x mod tex_w, y mod tex_h)`.
pub proof fn lemma_frame_tile_is_modulo(tex_x: int, tex_y: int, tex_w: int, tex_h: int, x: int, y: int)
    requires
        tex_w > 0,
        tex_h > 0,
        x >= 0,
        y >= 0,
    ensures
        frame_tile_map(tex_x, tex_y, tex_w, tex_h)(x, y) == (tex_x + x % tex_w, tex_y + y % tex_h),
{
    crate::renderer2d::nine_parts_rectangle::lemma_wrap_seq_mod(0, x, tex_w);
    crate::renderer2d::nine_parts_rectangle::lemma_wrap_seq_mod(0, y, tex_h);
}

/// Every drawn row of a tiled region has a texture row that fits in an `isize`.
pub open spec fn frame_tile_rows_ok(tex_y: int, tex_h: int, out_h: int) -> bool {
    forall|y: int| 0 <= y < out_h ==> fits_isize(#[trigger] frame_tile_row(tex_y, tex_h, y))
}

/// Repeats the `tex_width × tex_height` block of `parts` starting at texture pixel
/// `texture_buffer_start` over `out_width × out_height` cells at `out_buffer_start`,
/// without scaling (see [`frame_tile_map`]).
pub fn draw_region_tile(
    parts: &NinePartsTexture, out_buffer_start: Vector2<isize>, texture_buffer_start: Vector2<isize>,
    tex_width: isize, tex_height: isize, out_width: isize, out_height: isize, buffer: &mut [Color565],
    buffer_width: isize, buffer_height: isize,
)
    requires
        frame_tile_rows_ok(texture_buffer_start.y as int, tex_height as int, out_height as int),
        frame_cells_ok(old(buffer)@.len() as int, buffer_width as int, buffer_height as int, parts.data@,
            parts.texture_width as isize as int, parts.texture_height as isize as int, out_buffer_start.x as int,
            out_buffer_start.y as int, frame_tile_map(texture_buffer_start.x as int, texture_buffer_start.y as int,
                tex_width as int, tex_height as int),
            out_width as int, out_height as int),
    ensures
        final(buffer)@.len() == old(buffer)@.len(),
        final(buffer)@ == frame_rows(old(buffer)@, parts.data@, parts.texture_width as isize as int,
            parts.texture_height as isize as int, buffer_width as int, buffer_height as int, out_buffer_start.x as int,
            out_buffer_start.y as int, frame_tile_map(texture_buffer_start.x as int, texture_buffer_start.y as int,
                tex_width as int, tex_height as int),
            out_height as int, out_width as int),
{
    let ghost s0 = buffer@;
    let tw = parts.texture_width as isize;
    let th = parts.texture_height as isize;
    let out = out_buffer_start;
    let tex = texture_buffer_start;
    let ghost map = frame_tile_map(tex.x as int, tex.y as int, tex_width as int, tex_height as int);
    let mut tex_y: isize = 0;
    let mut y: isize = 0;
    while y < out_height
        invariant
            0 <= y <= out_height || (y == 0 && out_height < 0),
            buffer@.len() == s0.len(),
            frame_tile_rows_ok(tex.y as int, tex_height as int, out_height as int),
            frame_cells_ok(s0.len() as int, buffer_width as int, buffer_height as int, parts.data@, tw as int, th as int,
                out.x as int, out.y as int, map, out_width as int, out_height as int),
            tw == parts.texture_width as isize, th == parts.texture_height as isize,
            map == frame_tile_map(tex.x as int, tex.y as int, tex_width as int, tex_height as int),
            tex_y == wrap_seq(0, y as int, tex_height as int),
            buffer@ == frame_rows(s0, parts.data@, tw as int, th as int, buffer_width as int, buffer_height as int,
                out.x as int, out.y as int, map, y as int, out_width as int),
        decreases out_height - y,
    {
        proof {
            lemma_wrap_from_zero(y as int, tex_height as int);
            assert(fits_isize(frame_tile_row(tex.y as int, tex_height as int, y as int)));
        }
        let pix_y = tex.y + tex_y;
        let mut tex_x: isize = 0;
        let mut x: isize = 0;
        while x < out_width
            invariant
                0 <= x <= out_width || (x == 0 && out_width < 0),
                0 <= y < out_height,
                buffer@.len() == s0.len(),
                frame_cells_ok(s0.len() as int, buffer_width as int, buffer_height as int, parts.data@, tw as int,
                    th as int, out.x as int, out.y as int, map, out_width as int, out_height as int),
                tw == parts.texture_width as isize, th == parts.texture_height as isize,
                map == frame_tile_map(tex.x as int, tex.y as int, tex_width as int, tex_height as int),
                pix_y == frame_tile_row(tex.y as int, tex_height as int, y as int),
                tex_y == wrap_seq(0, y as int, tex_height as int),
                tex_x == wrap_seq(0, x as int, tex_width as int),
                buffer@ == frame_row(frame_rows(s0, parts.data@, tw as int, th as int, buffer_width as int,
                    buffer_height as int, out.x as int, out.y as int, map, y as int, out_width as int), parts.data@, tw as int,
                    th as int, buffer_width as int, buffer_height as int, out.x as int, out.y as int, map, y as int, x as int),
            decreases out_width - x,
        {
            assert(frame_cell_ok(s0.len() as int, buffer_width as int, buffer_height as int, parts.data@, tw as int,
                th as int, map(x as int, y as int), out.x as int, out.y as int, x as int, y as int));
            proof {
                lemma_wrap_from_zero(x as int, tex_width as int);
            }
            let color = get_pixel_transparent(parts.data, tw, th, tex.x + tex_x, pix_y);
            draw_frame_texel(buffer, buffer_width, buffer_height, color, out, x, y);
            tex_x += 1;
            if tex_x >= tex_width {
                tex_x = 0;
            }
            x += 1;
        }
        proof {
            lemma_wrap_from_zero(y as int, tex_height as int);
        }
        tex_y += 1;
        if tex_y >= tex_height {
            tex_y = 0;
        }
        y += 1;
    }
}

/// The frame after [`draw_region`] with these arguments.
pub open spec fn frame_copy_spec(
    s: Seq<Color565>, parts: NinePartsTexture, bw: int, bh: int, ox: int, oy: int, tx: int, ty: int, w: int, h: int,
) -> Seq<Color565> {
    frame_rows(s, parts.data@, parts.texture_width as isize as int, parts.texture_height as isize as int, bw, bh, ox, oy,
        copy_map(tx, ty), h, w)
}

/// [`draw_region`] can be called with these arguments on a buffer of length `len`.
pub open spec fn frame_copy_ok(parts: NinePartsTexture, len: int, bw: int, bh: int, ox: int, oy: int, tx: int, ty: int, w: int, h: int) -> bool {
    frame_cells_ok(len, bw, bh, parts.data@, parts.texture_width as isize as int, parts.texture_height as isize as int,
        ox, oy, copy_map(tx, ty), w, h)
}

/// The frame after drawing one of the five stretched or tiled parts.
pub open spec fn frame_scaled_spec(
    mode: NinePartsScaleMode, s: Seq<Color565>, parts: NinePartsTexture, bw: int, bh: int, ox: int, oy: int, tx: int,
    ty: int, tw: int, th: int, ow: int, oh: int,
) -> Seq<Color565> {
    let dw = parts.texture_width as isize as int;
    let dh = parts.texture_height as isize as int;
    match mode {
        NinePartsScaleMode::Stretch => frame_rows(s, parts.data@, dw, dh, bw, bh, ox, oy,
            stretch_map(tx, ty, tw, th, ow, oh), oh, ow),
        NinePartsScaleMode::Tile => frame_rows(s, parts.data@, dw, dh, bw, bh, ox, oy,
            frame_tile_map(tx, ty, tw, th), oh, ow),
    }
}

/// One of the five stretched or tiled parts can be drawn on a buffer of length `len`.
pub open spec fn frame_scaled_ok(
    mode: NinePartsScaleMode, parts: NinePartsTexture, len: int, bw: int, bh: int, ox: int, oy: int, tx: int, ty: int,
    tw: int, th: int, ow: int, oh: int,
) -> bool {
    let dw = parts.texture_width as isize as int;
    let dh = parts.texture_height as isize as int;
    match mode {
        NinePartsScaleMode::Stretch => frame_stretch_ok(ty, tw, th, ow, oh) && frame_cells_ok(len, bw, bh, parts.data@,
            dw, dh, ox, oy, stretch_map(tx, ty, tw, th, ow, oh), ow, oh),
        NinePartsScaleMode::Tile => frame_tile_rows_ok(ty, th, oh) && frame_cells_ok(len, bw, bh, parts.data@, dw, dh,
            ox, oy, frame_tile_map(tx, ty, tw, th), ow, oh),
    }
}

/// A nine-parts rectangle centred on `(cx, cy)` (in the frame's coordinates) lies off the frame.
pub open spec fn frame_nine_parts_off(cx: int, cy: int, width: int, height: int, bw: int, bh: int) -> bool {
    !(cx + trunc_div(width, 2) >= 0 && cx - trunc_div(width, 2) < bw && cy + trunc_div(height, 2) >= 0
        && cy - trunc_div(height, 2) < bh)
}

/// The frame after drawing a nine-parts rectangle of size `width × height` centred on
/// screen position `(cx, cy)`: nothing when it lies off the frame, else the four corners
/// (top left, bottom left, bottom right, top right), the top, bottom, left and right
/// sides and the centre, in that order. Each side and the centre take their pixels
/// from the matching middle part of the texture (between the borders), scaled to fit.
pub open spec fn frame_nine_parts_spec(
    s: Seq<Color565>, parts: NinePartsTexture, cx: int, cy: int, width: int, height: int, mode: NinePartsScaleMode,
    info: DrawInfo,
) -> Seq<Color565> {
    let bw = info.buffer_width as int;
    let bh = info.buffer_height as int;
    let x = cx - info.offset_x;
    let y = cy - info.offset_y;
    let hw = trunc_div(width, 2);
    let hh = trunc_div(height, 2);
    let l = parts.left_border_size as isize as int;
    let r = parts.right_border_size as isize as int;
    let t = parts.top_border_size as isize as int;
    let b = parts.bottom_border_size as isize as int;
    let tw_r = (parts.texture_width - parts.right_border_size) as isize as int;
    let th_b = (parts.texture_height - parts.bottom_border_size) as isize as int;
    let lr = (parts.left_border_size + parts.right_border_size) as isize as int;
    let tb = (parts.top_border_size + parts.bottom_border_size) as isize as int;
    let mw = tw_r - l;
    let mh = th_b - t;
    if frame_nine_parts_off(x, y, width, height, bw, bh) {
        s
    } else {
        let s1 = frame_copy_spec(s, parts, bw, bh, x - hw, y - hh, 0, 0, l, t);
        let s2 = frame_copy_spec(s1, parts, bw, bh, x - hw, y + (hh - b), 0, th_b, l, b);
        let s3 = frame_copy_spec(s2, parts, bw, bh, x + (hw - r), y + (hh - b), tw_r, th_b, r, b);
        let s4 = frame_copy_spec(s3, parts, bw, bh, x + (hw - r), y - hh, tw_r, 0, r, t);
        let s5 = frame_scaled_spec(mode, s4, parts, bw, bh, x + (l - hw), y - hh, l, 0, mw, t, width - lr, t);
        let s6 = frame_scaled_spec(mode, s5, parts, bw, bh, x + (l - hw), y + (hh - b), l, th_b, mw, b, width - lr, b);
        let s7 = frame_scaled_spec(mode, s6, parts, bw, bh, x - hw, y + (t - hh), 0, t, l, mh, l, height - tb);
        let s8 = frame_scaled_spec(mode, s7, parts, bw, bh, x + (hw - r), y + (t - hh), tw_r, t, r, mh, r, height - tb);
        frame_scaled_spec(mode, s8, parts, bw, bh, x + (l - hw), y + (t - hh), l, t, mw, mh, width - lr, height - tb)
    }
}

/// Drawing the cells `0 .. x` of region row `y` leaves alone a frame pixel that none of
/// those cells lands on.
proof fn lemma_frame_row_elsewhere(
    s: Seq<Color565>, data: Seq<u8>, tw: int, th: int, bw: int, bh: int, ox: int, oy: int,
    map: spec_fn(int, int) -> (int, int), y: int, x: int, px: int, py: int,
)
    requires
        frame_fits(s.len() as int, bw, bh),
        in_bounds(bw, bh, px, py),
        oy + y != py || px < ox || px >= ox + x,
    ensures
        frame_row(s, data, tw, th, bw, bh, ox, oy, map, y, x).len() == s.len(),
        frame_row(s, data, tw, th, bw, bh, ox, oy, map, y, x)[pixel_index(bw, px, py)] == s[pixel_index(bw, px, py)],
    decreases x,
{
    if x > 0 {
        lemma_frame_row_elsewhere(s, data, tw, th, bw, bh, ox, oy, map, y, x - 1, px, py);
        assert(addressable(s.len() as int, bw, bh, ox + x - 1, oy + y));
        assert(addressable(s.len() as int, bw, bh, px, py));
        lemma_cell_of_index(bw, px, py);
        if in_bounds(bw, bh, ox + x - 1, oy + y) {
            lemma_cell_of_index(bw, ox + x - 1, oy + y);
        }
    }
}

/// After drawing the cells `0 .. x` of region row `y`, the frame pixel of cell `x0`
/// shows that cell's texture pixel when it is opaque.
proof fn lemma_frame_row_cell(
    s: Seq<Color565>, data: Seq<u8>, tw: int, th: int, bw: int, bh: int, ox: int, oy: int,
    map: spec_fn(int, int) -> (int, int), y: int, x: int, x0: int,
)
    requires
        frame_fits(s.len() as int, bw, bh),
        0 <= x0 < x,
        in_bounds(bw, bh, ox + x0, oy + y),
        texel_at(data, tw, th, map(x0, y).0, map(x0, y).1).alpha == 255,
    ensures
        frame_row(s, data, tw, th, bw, bh, ox, oy, map, y, x)[pixel_index(bw, ox + x0, oy + y)]
            == texel_at(data, tw, th, map(x0, y).0, map(x0, y).1).rgb,
        frame_row(s, data, tw, th, bw, bh, ox, oy, map, y, x).len() == s.len(),
    decreases x,
{
    let p = pixel_index(bw, ox + x0, oy + y);
    lemma_frame_row_len(s, data, tw, th, bw, bh, ox, oy, map, y, x);
    if x - 1 == x0 {
        lemma_frame_row_elsewhere(s, data, tw, th, bw, bh, ox, oy, map, y, x - 1, ox + x0, oy + y);
        assert(addressable(s.len() as int, bw, bh, ox + x0, oy + y));
    } else {
        lemma_frame_row_cell(s, data, tw, th, bw, bh, ox, oy, map, y, x - 1, x0);
        assert(addressable(s.len() as int, bw, bh, ox + x - 1, oy + y));
        assert(addressable(s.len() as int, bw, bh, ox + x0, oy + y));
        lemma_cell_of_index(bw, ox + x0, oy + y);
        if in_bounds(bw, bh, ox + x - 1, oy + y) {
            lemma_cell_of_index(bw, ox + x - 1, oy + y);
        }
    }
}

/// After drawing a region of `width × h` cells, the frame pixel of cell `(x0, y0)` shows
/// that cell's texture pixel when it is opaque: cells land on distinct pixels.
pub proof fn lemma_frame_rows_cell(
    s: Seq<Color565>, data: Seq<u8>, tw: int, th: int, bw: int, bh: int, ox: int, oy: int,
    map: spec_fn(int, int) -> (int, int), h: int, width: int, x0: int, y0: int,
)
    requires
        frame_fits(s.len() as int, bw, bh),
        0 <= x0 < width,
        0 <= y0 < h,
        in_bounds(bw, bh, ox + x0, oy + y0),
        texel_at(data, tw, th, map(x0, y0).0, map(x0, y0).1).alpha == 255,
    ensures
        frame_rows(s, data, tw, th, bw, bh, ox, oy, map, h, width)[pixel_index(bw, ox + x0, oy + y0)]
            == texel_at(data, tw, th, map(x0, y0).0, map(x0, y0).1).rgb,
        frame_rows(s, data, tw, th, bw, bh, ox, oy, map, h, width).len() == s.len(),
    decreases h,
{
    lemma_frame_rows_len(s, data, tw, th, bw, bh, ox, oy, map, h - 1, width);
    let prev = frame_rows(s, data, tw, th, bw, bh, ox, oy, map, h - 1, width);
    if y0 == h - 1 {
        lemma_frame_row_cell(prev, data, tw, th, bw, bh, ox, oy, map, h - 1, width, x0);
    } else {
        lemma_frame_rows_cell(s, data, tw, th, bw, bh, ox, oy, map, h - 1, width, x0, y0);
        lemma_frame_row_elsewhere(prev, data, tw, th, bw, bh, ox, oy, map, h - 1, width, ox + x0, oy + y0);
    }
}

/// Drawing region rows keeps the frame's length.
proof fn lemma_frame_rows_len(
    s: Seq<Color565>, data: Seq<u8>, tw: int, th: int, bw: int, bh: int, ox: int, oy: int,
    map: spec_fn(int, int) -> (int, int), h: int, width: int,
)
    requires
        frame_fits(s.len() as int, bw, bh),
    ensures
        frame_rows(s, data, tw, th, bw, bh, ox, oy, map, h, width).len() == s.len(),
    decreases h,
{
    if h > 0 {
        lemma_frame_rows_len(s, data, tw, th, bw, bh, ox, oy, map, h - 1, width);
        lemma_frame_row_len(frame_rows(s, data, tw, th, bw, bh, ox, oy, map, h - 1, width), data, tw, th, bw, bh, ox,
            oy, map, h - 1, width);
    }
}

/// Drawing a region row keeps the frame's length.
proof fn lemma_frame_row_len(
    s: Seq<Color565>, data: Seq<u8>, tw: int, th: int, bw: int, bh: int, ox: int, oy: int,
    map: spec_fn(int, int) -> (int, int), y: int, x: int,
)
    requires
        frame_fits(s.len() as int, bw, bh),
    ensures
        frame_row(s, data, tw, th, bw, bh, ox, oy, map, y, x).len() == s.len(),
    decreases x,
{
    if x > 0 {
        lemma_frame_row_len(s, data, tw, th, bw, bh, ox, oy, map, y, x - 1);
        assert(addressable(s.len() as int, bw, bh, ox + x - 1, oy + y));
    }
}

/// The centre of a nine-parts rectangle is filled from the texture's middle part (between
/// its borders): a frame pixel of the centre area (between the rectangle's borders) at
/// `(dx, dy)` from the area's top-left corner shows, when it is opaque, the middle-part
/// pixel `(dx mod mw, dy mod mh)` in tile mode, or the pixel at the same proportion of the
/// middle part, `(dx·mw / cw, dy·mh / ch)`, in stretch mode (`mw × mh` the middle part,
/// `cw × ch` the centre area).
pub proof fn lemma_nine_parts_centre(
    s: Seq<Color565>, parts: NinePartsTexture, cx: int, cy: int, width: int, height: int, mode: NinePartsScaleMode,
    info: DrawInfo, bx: int, by: int,
)
    requires
        ({
            let bw = info.buffer_width as int;
            let bh = info.buffer_height as int;
            let l = parts.left_border_size as isize as int;
            let t = parts.top_border_size as isize as int;
            let mw = (parts.texture_width - parts.right_border_size) as isize as int - l;
            let mh = (parts.texture_height - parts.bottom_border_size) as isize as int - t;
            let cw = width - (parts.left_border_size + parts.right_border_size) as isize as int;
            let ch = height - (parts.top_border_size + parts.bottom_border_size) as isize as int;
            let x0 = cx - info.offset_x - trunc_div(width, 2) + l;
            let y0 = cy - info.offset_y - trunc_div(height, 2) + t;
            let texel = match mode {
                NinePartsScaleMode::Tile => texel_at(parts.data@, parts.texture_width as isize as int,
                    parts.texture_height as isize as int, l + (bx - x0) % mw, t + (by - y0) % mh),
                NinePartsScaleMode::Stretch => texel_at(parts.data@, parts.texture_width as isize as int,
                    parts.texture_height as isize as int, l + trunc_div((bx - x0) * mw, cw), t + trunc_div((by - y0) * mh, ch)),
            };
            &&& !frame_nine_parts_off(cx - info.offset_x, cy - info.offset_y, width, height, bw, bh)
            &&& mw > 0 && mh > 0
            &&& x0 <= bx < x0 + cw
            &&& y0 <= by < y0 + ch
            &&& in_bounds(bw, bh, bx, by)
            &&& frame_fits(s.len() as int, bw, bh)
            &&& texel.alpha == 255
        }),
    ensures
        ({
            let l = parts.left_border_size as isize as int;
            let t = parts.top_border_size as isize as int;
            let mw = (parts.texture_width - parts.right_border_size) as isize as int - l;
            let mh = (parts.texture_height - parts.bottom_border_size) as isize as int - t;
            let cw = width - (parts.left_border_size + parts.right_border_size) as isize as int;
            let ch = height - (parts.top_border_size + parts.bottom_border_size) as isize as int;
            let x0 = cx - info.offset_x - trunc_div(width, 2) + l;
            let y0 = cy - info.offset_y - trunc_div(height, 2) + t;
            let texel = match mode {
                NinePartsScaleMode::Tile => texel_at(parts.data@, parts.texture_width as isize as int,
                    parts.texture_height as isize as int, l + (bx - x0) % mw, t + (by - y0) % mh),
                NinePartsScaleMode::Stretch => texel_at(parts.data@, parts.texture_width as isize as int,
                    parts.texture_height as isize as int, l + trunc_div((bx - x0) * mw, cw), t + trunc_div((by - y0) * mh, ch)),
            };
            frame_nine_parts_spec(s, parts, cx, cy, width, height, mode, info)[pixel_index(info.buffer_width as int, bx, by)]
                == texel.rgb
        }),
{
    let bw = info.buffer_width as int;
    let bh = info.buffer_height as int;
    let x = cx - info.offset_x;
    let y = cy - info.offset_y;
    let hw = trunc_div(width, 2);
    let hh = trunc_div(height, 2);
    let l = parts.left_border_size as isize as int;
    let r = parts.right_border_size as isize as int;
    let t = parts.top_border_size as isize as int;
    let b = parts.bottom_border_size as isize as int;
    let tw_r = (parts.texture_width - parts.right_border_size) as isize as int;
    let th_b = (parts.texture_height - parts.bottom_border_size) as isize as int;
    let lr = (parts.left_border_size + parts.right_border_size) as isize as int;
    let tb = (parts.top_border_size + parts.bottom_border_size) as isize as int;
    let mw = tw_r - l;
    let mh = th_b - t;
    let dw = parts.texture_width as isize as int;
    let dh = parts.texture_height as isize as int;
    let s1 = frame_copy_spec(s, parts, bw, bh, x - hw, y - hh, 0, 0, l, t);
    let s2 = frame_copy_spec(s1, parts, bw, bh, x - hw, y + (hh - b), 0, th_b, l, b);
    let s3 = frame_copy_spec(s2, parts, bw, bh, x + (hw - r), y + (hh - b), tw_r, th_b, r, b);
    let s4 = frame_copy_spec(s3, parts, bw, bh, x + (hw - r), y - hh, tw_r, 0, r, t);
    let s5 = frame_scaled_spec(mode, s4, parts, bw, bh, x + (l - hw), y - hh, l, 0, mw, t, width - lr, t);
    let s6 = frame_scaled_spec(mode, s5, parts, bw, bh, x + (l - hw), y + (hh - b), l, th_b, mw, b, width - lr, b);
    let s7 = frame_scaled_spec(mode, s6, parts, bw, bh, x - hw, y + (t - hh), 0, t, l, mh, l, height - tb);
    let s8 = frame_scaled_spec(mode, s7, parts, bw, bh, x + (hw - r), y + (t - hh), tw_r, t, r, mh, r, height - tb);
    let ox = x + (l - hw);
    let oy = y + (t - hh);
    assert(ox == x - hw + l && oy == y - hh + t);
    let map = match mode {
        NinePartsScaleMode::Stretch => stretch_map(l, t, mw, mh, width - lr, height - tb),
        NinePartsScaleMode::Tile => frame_tile_map(l, t, mw, mh),
    };
    // every part before the centre keeps the frame's length
    lemma_frame_rows_len(s, parts.data@, dw, dh, bw, bh, x - hw, y - hh, copy_map(0, 0), t, l);
    lemma_frame_rows_len(s1, parts.data@, dw, dh, bw, bh, x - hw, y + (hh - b), copy_map(0, th_b), b, l);
    lemma_frame_rows_len(s2, parts.data@, dw, dh, bw, bh, x + (hw - r), y + (hh - b), copy_map(tw_r, th_b), b, r);
    lemma_frame_rows_len(s3, parts.data@, dw, dh, bw, bh, x + (hw - r), y - hh, copy_map(tw_r, 0), t, r);
    match mode {
        NinePartsScaleMode::Stretch => {
            lemma_frame_rows_len(s4, parts.data@, dw, dh, bw, bh, x + (l - hw), y - hh, stretch_map(l, 0, mw, t, width - lr, t), t, width - lr);
            lemma_frame_rows_len(s5, parts.data@, dw, dh, bw, bh, x + (l - hw), y + (hh - b), stretch_map(l, th_b, mw, b, width - lr, b), b, width - lr);
            lemma_frame_rows_len(s6, parts.data@, dw, dh, bw, bh, x - hw, y + (t - hh), stretch_map(0, t, l, mh, l, height - tb), height - tb, l);
            lemma_frame_rows_len(s7, parts.data@, dw, dh, bw, bh, x + (hw - r), y + (t - hh), stretch_map(tw_r, t, r, mh, r, height - tb), height - tb, r);
        },
        NinePartsScaleMode::Tile => {
            lemma_frame_rows_len(s4, parts.data@, dw, dh, bw, bh, x + (l - hw), y - hh, frame_tile_map(l, 0, mw, t), t, width - lr);
            lemma_frame_rows_len(s5, parts.data@, dw, dh, bw, bh, x + (l - hw), y + (hh - b), frame_tile_map(l, th_b, mw, b), b, width - lr);
            lemma_frame_rows_len(s6, parts.data@, dw, dh, bw, bh, x - hw, y + (t - hh), frame_tile_map(0, t, l, mh), height - tb, l);
            lemma_frame_rows_len(s7, parts.data@, dw, dh, bw, bh, x + (hw - r), y + (t - hh), frame_tile_map(tw_r, t, r, mh), height - tb, r);
            lemma_frame_tile_is_modulo(l, t, mw, mh, bx - ox, by - oy);
        },
    }
    assert(s8.len() == s.len());
    lemma_frame_rows_cell(s8, parts.data@, dw, dh, bw, bh, ox, oy, map, height - tb, width - lr, bx - ox, by - oy);
}

/// A nine-parts rectangle can be drawn on a buffer of length `len`: the offset position
/// fits in an `isize`, and unless the rectangle lies off the frame, the borders fit in the
/// texture and add up without overflow, every position and size computed fits in an
/// `isize`, and each of the nine parts can be drawn.
pub open spec fn frame_nine_parts_ok(
    parts: NinePartsTexture, cx: int, cy: int, width: int, height: int, mode: NinePartsScaleMode, info: DrawInfo, len: int,
) -> bool {
    let bw = info.buffer_width as int;
    let bh = info.buffer_height as int;
    let x = cx - info.offset_x;
    let y = cy - info.offset_y;
    let hw = trunc_div(width, 2);
    let hh = trunc_div(height, 2);
    let l = parts.left_border_size as isize as int;
    let r = parts.right_border_size as isize as int;
    let t = parts.top_border_size as isize as int;
    let b = parts.bottom_border_size as isize as int;
    let tw_r = (parts.texture_width - parts.right_border_size) as isize as int;
    let th_b = (parts.texture_height - parts.bottom_border_size) as isize as int;
    let lr = (parts.left_border_size + parts.right_border_size) as isize as int;
    let tb = (parts.top_border_size + parts.bottom_border_size) as isize as int;
    let mw = tw_r - l;
    let mh = th_b - t;
    &&& fits_isize(x) && fits_isize(y)
    &&& fits_isize(x + hw) && fits_isize(x - hw) && fits_isize(y + hh) && fits_isize(y - hh)
    &&& !frame_nine_parts_off(x, y, width, height, bw, bh) ==> {
        &&& parts.right_border_size <= parts.texture_width
        &&& parts.bottom_border_size <= parts.texture_height
        &&& parts.left_border_size + parts.right_border_size <= usize::MAX
        &&& parts.top_border_size + parts.bottom_border_size <= usize::MAX
        &&& fits_isize(hh - b) && fits_isize(hw - r) && fits_isize(l - hw) && fits_isize(t - hh)
        &&& fits_isize(width - lr) && fits_isize(height - tb)
        &&& fits_isize(mw) && fits_isize(mh)
        &&& fits_isize(y + (hh - b)) && fits_isize(x + (hw - r)) && fits_isize(x + (l - hw)) && fits_isize(y + (t - hh))
        &&& frame_copy_ok(parts, len, bw, bh, x - hw, y - hh, 0, 0, l, t)
        &&& frame_copy_ok(parts, len, bw, bh, x - hw, y + (hh - b), 0, th_b, l, b)
        &&& frame_copy_ok(parts, len, bw, bh, x + (hw - r), y + (hh - b), tw_r, th_b, r, b)
        &&& frame_copy_ok(parts, len, bw, bh, x + (hw - r), y - hh, tw_r, 0, r, t)
        &&& frame_scaled_ok(mode, parts, len, bw, bh, x + (l - hw), y - hh, l, 0, mw, t, width - lr, t)
        &&& frame_scaled_ok(mode, parts, len, bw, bh, x + (l - hw), y + (hh - b), l, th_b, mw, b, width - lr, b)
        &&& frame_scaled_ok(mode, parts, len, bw, bh, x - hw, y + (t - hh), 0, t, l, mh, l, height - tb)
        &&& frame_scaled_ok(mode, parts, len, bw, bh, x + (hw - r), y + (t - hh), tw_r, t, r, mh, r, height - tb)
        &&& frame_scaled_ok(mode, parts, len, bw, bh, x + (l - hw), y + (t - hh), l, t, mw, mh, width - lr, height - tb)
    }
}

/// Draws a nine-parts rectangle of size `width × height` centred on `center` (a screen
/// position; the frame shows the part of the screen described by `draw_info`).
pub fn nine_parts_rectangle(
    parts: &NinePartsTexture, center: Vector2<isize>, width: isize, height: isize, scaling_mode: NinePartsScaleMode,
    buffer: &mut [Color565], draw_info: &DrawInfo,
)
    requires
        frame_nine_parts_ok(*parts, center.x as int, center.y as int, width as int, height as int, scaling_mode,
            *draw_info, old(buffer)@.len() as int),
    ensures
        final(buffer)@ == frame_nine_parts_spec(old(buffer)@, *parts, center.x as int, center.y as int, width as int,
            height as int, scaling_mode, *draw_info),
{
    let bw = draw_info.buffer_width;
    let bh = draw_info.buffer_height;
    let half_width = width / 2;
    let half_height = height / 2;
    let center = Vector2 { x: center.x - draw_info.offset_x, y: center.y - draw_info.offset_y };
    if !(center.x + half_width >= 0 && center.x - half_width < bw && center.y + half_height >= 0
        && center.y - half_height < bh) {
        return;
    }
    let l = parts.left_border_size as isize;
    let r = parts.right_border_size as isize;
    let t = parts.top_border_size as isize;
    let b = parts.bottom_border_size as isize;
    let tw_r = (parts.texture_width - parts.right_border_size) as isize;
    let th_b = (parts.texture_height - parts.bottom_border_size) as isize;
    let lr = (parts.left_border_size + parts.right_border_size) as isize;
    let tb = (parts.top_border_size + parts.bottom_border_size) as isize;
    let mw = tw_r - l;
    let mh = th_b - t;

    let top_left_corner = Vector2 { x: center.x - half_width, y: center.y - half_height };
    let bottom_left_corner = Vector2 { x: center.x - half_width, y: center.y + (half_height - b) };
    let bottom_right_corner = Vector2 { x: center.x + (half_width - r), y: center.y + (half_height - b) };
    let top_right_corner = Vector2 { x: center.x + (half_width - r), y: center.y - half_height };
    let top_corner = Vector2 { x: center.x + (l - half_width), y: center.y - half_height };
    let bottom_corner = Vector2 { x: center.x + (l - half_width), y: center.y + (half_height - b) };
    let left_corner = Vector2 { x: center.x - half_width, y: center.y + (t - half_height) };
    let right_corner = Vector2 { x: center.x + (half_width - r), y: center.y + (t - half_height) };
    let center_corner = Vector2 { x: center.x + (l - half_width), y: center.y + (t - half_height) };

    draw_region(parts, top_left_corner, Vector2 { x: 0, y: 0 }, l, t, buffer, bw, bh);
    draw_region(parts, bottom_left_corner, Vector2 { x: 0, y: th_b }, l, b, buffer, bw, bh);
    draw_region(parts, bottom_right_corner, Vector2 { x: tw_r, y: th_b }, r, b, buffer, bw, bh);
    draw_region(parts, top_right_corner, Vector2 { x: tw_r, y: 0 }, r, t, buffer, bw, bh);

    match scaling_mode {
        NinePartsScaleMode::Stretch => {
            draw_region_strech(parts, top_corner, Vector2 { x: l, y: 0 }, mw, t, width - lr, t, buffer, bw, bh);
            draw_region_strech(parts, bottom_corner, Vector2 { x: l, y: th_b }, mw, b, width - lr, b, buffer, bw, bh);
            draw_region_strech(parts, left_corner, Vector2 { x: 0, y: t }, l, mh, l, height - tb, buffer, bw, bh);
            draw_region_strech(parts, right_corner, Vector2 { x: tw_r, y: t }, r, mh, r, height - tb, buffer, bw, bh);
            draw_region_strech(parts, center_corner, Vector2 { x: l, y: t }, mw, mh, width - lr, height - tb, buffer, bw, bh);
        },
        NinePartsScaleMode::Tile => {
            draw_region_tile(parts, top_corner, Vector2 { x: l, y: 0 }, mw, t, width - lr, t, buffer, bw, bh);
            draw_region_tile(parts, bottom_corner, Vector2 { x: l, y: th_b }, mw, b, width - lr, b, buffer, bw, bh);
            draw_region_tile(parts, left_corner, Vector2 { x: 0, y: t }, l, mh, l, height - tb, buffer, bw, bh);
            draw_region_tile(parts, right_corner, Vector2 { x: tw_r, y: t }, r, mh, r, height - tb, buffer, bw, bh);
            draw_region_tile(parts, center_corner, Vector2 { x: l, y: t }, mw, mh, width - lr, height - tb, buffer, bw, bh);
        },
    }
}

} // verus!
