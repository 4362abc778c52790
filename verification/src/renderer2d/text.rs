//! Text labels: each byte of the text is drawn as one character of a monospace font,
//! the font's coverage blending the text colour over the background.
use vstd::prelude::*;
use vstd::arithmetic::div_mod::{lemma_fundamental_div_mod, lemma_fundamental_div_mod_converse};
use vstd::string::StringSliceAdditionalSpecFns;
use vstd::utf8::encode_utf8;
use crate::color::Color565;
use crate::constants::{SCREEN_TILE_WIDTH, SCREEN_TILE_HEIGHT, TILE_PIXELS, lemma_tile_size};
use crate::draw_tools::shapes::pixel_index;
use crate::geometry::Vector2;
use crate::renderer2d::elements::Font;
use crate::renderer2d::renderer::{Renderer2d, add_alpha_color, tile_w, tile_h};
use crate::renderer2d::sprite::alpha_blend_spec;

verus! {

/// The low byte of a character's code, which a text byte is compared with.
pub open spec fn char_byte(c: char) -> u8 {
    c as u8
}

/// Whether the low byte of `c` is `b`.
fn char_has_byte(c: char, b: u8) -> (r: bool)
    ensures
        r == (char_byte(c) == b),
{
    c as u8 == b
}

/// Index of the first character of `s` whose low byte is `b`; `s.len()` when there is none.
pub open spec fn first_char_index(s: Seq<char>, b: u8) -> int
    decreases s.len(),
{
    if s.len() == 0 {
        0
    } else if char_byte(s[0]) == b {
        0
    } else {
        1 + first_char_index(s.drop_first(), b)
    }
}

/// Where the glyph of byte `b` starts among the characters `chars` of a font: the byte
/// position, in the UTF-8 encoding of `chars`, of the first character whose low byte is
/// `b`; `None` when there is none.
pub open spec fn glyph_of(chars: Seq<char>, b: u8) -> Option<int> {
    let k = first_char_index(chars, b);
    if k < chars.len() {
        Some(encode_utf8(chars.take(k)).len() as int)
    } else {
        None
    }
}

/// Calls `str::find` on `chars` with a closure pattern that matches the characters whose
/// low byte is `byte`. As documented for `str::find`, it returns the byte index of the
/// first matching character, or `None` when no character matches; the byte index of a
/// character is the length of the UTF-8 encoding of the characters before it.
#[verifier::external_body]
fn find_glyph(chars: &str, byte: u8) -> (r: Option<usize>)
    ensures
        match r {
            Some(p) => glyph_of(chars@, byte) == Some(p as int),
            None => glyph_of(chars@, byte) is None,
        },
{
    chars.find(|c: char| char_has_byte(c, byte))
}

/// The text is drawn at all: the rectangle it covers touches the tile.
pub open spec fn text_draws(px: int, py: int, len: int, cw: int, ch: int) -> bool {
    !(px > tile_w() || py > tile_h() || px + len * cw < 0 || py + ch < 0)
}

/// First character drawn: the characters wholly left of the tile are skipped.
pub open spec fn text_start(px: int, cw: int) -> int {
    if px < 0 { (-px) / cw } else { 0 }
}

/// End of the characters drawn: at most two more than fit in the tile's width.
pub open spec fn text_end(px: int, len: int, cw: int) -> int {
    let e = text_start(px, cw) + tile_w() / cw + 2;
    if len < e { len } else { e }
}

/// For tile entry `i`, relative to a text at `(px, py)` with characters `cw` wide: the
/// character index, the column inside the character and the row inside the character.
pub open spec fn text_cell(px: int, py: int, cw: int, i: int) -> (int, int, int) {
    let rx = i % tile_w() - px;
    (rx / cw, rx % cw, i / tile_w() - py)
}

/// Tile entry `i` shows a pixel of the text: it lies right of the text's start, within
/// its rows, and in a character between [`text_start`] and [`text_end`].
pub open spec fn text_covers(px: int, py: int, len: int, cw: int, ch: int, i: int) -> bool {
    let c = text_cell(px, py, cw, i);
    &&& text_draws(px, py, len, cw, ch)
    &&& 0 <= i < TILE_PIXELS
    &&& i % tile_w() - px >= 0
    &&& text_start(px, cw) <= c.0 < text_end(px, len, cw)
    &&& 0 <= c.2 < ch
}

/// Where the font's coverage for tile entry `i` is read: the glyph's start column plus
/// the column in the character, on the character row of the font image.
pub open spec fn text_coverage_index(font: Font, bytes: Seq<u8>, px: int, py: int, i: int) -> int {
    let c = text_cell(px, py, font.char_width as int, i);
    font.char_width * glyph_of(font.chars@, bytes[c.0])->0 + c.1 + font.font_image_width * c.2
}

/// The tile after drawing the text `bytes` at `(px, py)` in `font` and `font_color`: each
/// entry the text covers is the colour blended over the background (`background` if
/// given, else the entry itself) with the font's coverage; the others are unchanged.
pub open spec fn text_spec(
    s: Seq<Color565>, font: Font, bytes: Seq<u8>, px: int, py: int, font_color: Color565,
    background: Option<Color565>,
) -> Seq<Color565> {
    Seq::new(
        s.len(),
        |i: int|
            if text_covers(px, py, bytes.len() as int, font.char_width as int, font.char_height as int, i) {
                let bg = match background {
                    Some(b) => b,
                    None => s[i],
                };
                alpha_blend_spec(bg, font_color, font.data@[text_coverage_index(font, bytes, px, py, i)] as int)
            } else {
                s[i]
            },
    )
}

/// Drawing the text `bytes` at `(px, py)` in `font` is possible: the text's extent fits
/// in an `isize`, the characters have a width whenever something is drawn, every byte
/// drawn has a glyph in the font (whose start column fits in an `isize`), and every
/// coverage read stays inside the font image.
pub open spec fn text_draw_ok(px: int, py: int, bytes: Seq<u8>, font: Font) -> bool {
    let len = bytes.len() as int;
    let cw = font.char_width as int;
    let ch = font.char_height as int;
    &&& isize::MIN <= len * cw <= isize::MAX
    &&& isize::MIN <= px + len * cw <= isize::MAX
    &&& py + ch <= isize::MAX
    &&& text_draws(px, py, len, cw, ch) ==> {
        &&& cw > 0
        &&& forall|k: int|
            text_start(px, cw) <= k < text_end(px, len, cw) ==> {
                &&& #[trigger] glyph_of(font.chars@, bytes[k]) is Some
                &&& cw * glyph_of(font.chars@, bytes[k])->0 <= isize::MAX
            }
        &&& forall|i: int|
            #[trigger] text_covers(px, py, len, cw, ch, i) ==> text_coverage_index(font, bytes, px, py, i)
                < font.data@.len() && text_coverage_index(font, bytes, px, py, i) <= isize::MAX
    }
}

/// The tile once the characters before `k`, then the rows before `y` of character `k`,
/// then the columns before `x` of its row `y`, are drawn.
pub open spec fn text_progress(
    s: Seq<Color565>, font: Font, bytes: Seq<u8>, px: int, py: int, font_color: Color565,
    background: Option<Color565>, k: int, y: int, x: int,
) -> Seq<Color565> {
    Seq::new(
        s.len(),
        |i: int|
            if text_covers(px, py, bytes.len() as int, font.char_width as int, font.char_height as int, i)
                && text_before(text_cell(px, py, font.char_width as int, i), k, y, x) {
                text_spec(s, font, bytes, px, py, font_color, background)[i]
            } else {
                s[i]
            },
    )
}

/// A cell (character, column, row) comes before character `k`, row `y`, column `x`.
pub open spec fn text_before(c: (int, int, int), k: int, y: int, x: int) -> bool {
    c.0 < k || (c.0 == k && (c.2 < y || (c.2 == y && c.1 < x)))
}

/// Where the font shows no coverage the background shows through (the tile itself when
/// there is no background colour), where it shows full coverage the text colour is drawn,
/// and the entries the text does not cover are left as they are.
pub proof fn lemma_text_coverage_extremes(
    s: Seq<Color565>, font: Font, bytes: Seq<u8>, px: int, py: int, font_color: Color565,
    background: Option<Color565>, i: int,
)
    requires
        0 <= i < s.len(),
    ensures
        ({
            let covered = text_covers(px, py, bytes.len() as int, font.char_width as int, font.char_height as int, i);
            let coverage = font.data@[text_coverage_index(font, bytes, px, py, i)];
            let r = text_spec(s, font, bytes, px, py, font_color, background)[i];
            &&& !covered ==> r == s[i]
            &&& covered && coverage == 0 ==> r == match background { Some(b) => b, None => s[i] }
            &&& covered && coverage == 255 ==> r == font_color
        }),
{
    let bg = match background { Some(b) => b, None => s[i] };
    crate::renderer2d::sprite::lemma_blend_extremes(bg, font_color);
}

/// Every character of the text that lies across the tile in full is drawn: each of its
/// pixels in the tile's rows shows the text colour blended over the background (the
/// tile itself when there is none) by the coverage the font gives that pixel of the
/// character's glyph.
pub proof fn lemma_whole_characters_drawn(
    s: Seq<Color565>, font: Font, bytes: Seq<u8>, px: int, py: int, font_color: Color565,
    background: Option<Color565>, k: int, lx: int, ly: int,
)
    requires
        s.len() == TILE_PIXELS,
        font.char_width > 0,
        0 <= k < bytes.len(),
        0 <= lx < font.char_width,
        0 <= ly < font.char_height,
        0 <= px + k * font.char_width,
        px + (k + 1) * font.char_width <= tile_w(),
        0 <= py + ly < tile_h(),
    ensures
        ({
            let cw = font.char_width as int;
            let i = pixel_index(tile_w(), px + k * cw + lx, py + ly);
            let bg = match background { Some(b) => b, None => s[i] };
            &&& 0 <= i < TILE_PIXELS
            &&& text_spec(s, font, bytes, px, py, font_color, background)[i] == alpha_blend_spec(bg, font_color,
                font.data@[cw * glyph_of(font.chars@, bytes[k])->0 + lx + font.font_image_width * ly] as int)
        }),
{
    lemma_tile_size();
    let cw = font.char_width as int;
    let ch = font.char_height as int;
    let len = bytes.len() as int;
    let i = pixel_index(tile_w(), px + k * cw + lx, py + ly);
    assert(0 <= k * cw) by (nonlinear_arith) requires k >= 0, cw > 0;
    assert((k + 1) * cw == k * cw + cw) by (nonlinear_arith);
    lemma_text_pixel(px, py, cw, k, lx, ly);
    assert(px + len * cw >= px + (k + 1) * cw) by (nonlinear_arith) requires len >= k + 1, cw > 0;
    assert(text_draws(px, py, len, cw, ch));
    let w = tile_w();
    lemma_fundamental_div_mod(w, cw);
    let q1 = w / cw;
    if px < 0 {
        let a = -px;
        lemma_fundamental_div_mod(a, cw);
        let q2 = a / cw;
        assert(q2 <= k) by (nonlinear_arith)
            requires a == cw * q2 + a % cw, 0 <= a % cw < cw, a <= k * cw, cw > 0;
        assert(k < q1 + q2 + 1) by (nonlinear_arith)
            requires w == cw * q1 + w % cw, 0 <= w % cw < cw, a == cw * q2 + a % cw, 0 <= a % cw < cw,
                k * cw + cw <= w + a, cw > 0;
        assert(text_start(px, cw) == q2);
    } else {
        assert(k < q1) by (nonlinear_arith)
            requires w == cw * q1 + w % cw, 0 <= w % cw < cw, k * cw + cw <= w - px, px >= 0, cw > 0;
    }
    assert(text_covers(px, py, len, cw, ch, i));
}

/// For a tile entry covered by the text: where its cell is in the tile and in the text.
proof fn lemma_text_cell(px: int, py: int, len: int, cw: int, ch: int, i: int)
    requires
        text_covers(px, py, len, cw, ch, i),
        cw > 0,
    ensures
        ({
            let c = text_cell(px, py, cw, i);
            &&& 0 <= i % tile_w() < tile_w()
            &&& 0 <= i / tile_w() < tile_h()
            &&& i == pixel_index(tile_w(), i % tile_w(), i / tile_w())
            &&& i % tile_w() == px + c.0 * cw + c.1
            &&& 0 <= c.1 < cw
            &&& i / tile_w() == py + c.2
        }),
{
    lemma_tile_size();
    lemma_fundamental_div_mod(i, tile_w());
    lemma_fundamental_div_mod(i % tile_w() - px, cw);
    assert(tile_w() * (i / tile_w()) == (i / tile_w()) * tile_w()) by (nonlinear_arith);
    assert(cw * ((i % tile_w() - px) / cw) == ((i % tile_w() - px) / cw) * cw) by (nonlinear_arith);
    assert(i / tile_w() < tile_h()) by (nonlinear_arith)
        requires i < 4800, tile_w() == 80, tile_h() == 60, i == tile_w() * (i / tile_w()) + i % tile_w(), i % tile_w() >= 0;
}

/// The tile entry of the pixel in column `x`, row `y` of character `k` has that cell.
proof fn lemma_text_pixel(px: int, py: int, cw: int, k: int, x: int, y: int)
    requires
        cw > 0,
        0 <= x < cw,
        0 <= k * cw + x,
        0 <= px + k * cw + x < tile_w(),
        0 <= py + y < tile_h(),
    ensures
        ({
            let i = pixel_index(tile_w(), px + k * cw + x, py + y);
            &&& 0 <= i < TILE_PIXELS
            &&& i % tile_w() == px + k * cw + x
            &&& i / tile_w() == py + y
            &&& text_cell(px, py, cw, i) == (k, x, y)
        }),
{
    lemma_tile_size();
    let i = pixel_index(tile_w(), px + k * cw + x, py + y);
    crate::draw_tools::shapes::lemma_cell_of_index(tile_w(), px + k * cw + x, py + y);
    assert(i < TILE_PIXELS) by (nonlinear_arith)
        requires i == px + k * cw + x + (py + y) * 80, 0 <= px + k * cw + x < 80, 0 <= py + y < 60, TILE_PIXELS == 4800;
    assert(0 <= i) by (nonlinear_arith)
        requires i == px + k * cw + x + (py + y) * 80, 0 <= px + k * cw + x, 0 <= py + y;
    assert(k * cw == cw * k) by (nonlinear_arith);
    lemma_fundamental_div_mod_converse(k * cw + x, cw, k, x);
}

impl Renderer2d {
    /// Draws the bytes of `text` at `pos` in `font`, each byte as the first character of
    /// the font whose low byte it is; `background_color`, if given, is blended under the
    /// text, else the tile's own pixels are (see [`text_spec`]).
    pub fn draw_text(
        &mut self, pos: Vector2<isize>, text: &str, font: &Font, font_color: Color565, background_color: Option<Color565>,
    )
        requires
            text_draw_ok(pos.x as int, pos.y as int, text.spec_bytes(), *font),
        ensures
            final(self).clear_color == old(self).clear_color,
            final(self).tile_frame_buffer@ == text_spec(old(self).tile_frame_buffer@, *font, text.spec_bytes(),
                pos.x as int, pos.y as int, font_color, background_color),
    {
        proof { lemma_tile_size(); }
        let ghost s0 = self.tile_frame_buffer@;
        let ghost bytes = text.spec_bytes();
        let ghost px = pos.x as int;
        let ghost py = pos.y as int;
        let cw = font.char_width as isize;
        let ch = font.char_height as isize;
        let text_bytes = text.as_bytes();
        let len = text_bytes.len();
        let ghost spec_len = bytes.len() as int;
        assert(len as int == spec_len);
        if cw > 0 {
            assert(spec_len <= spec_len * cw) by (nonlinear_arith) requires cw > 0, spec_len >= 0;
        }
        #[verifier::truncate]
        let len_i = len as isize;
        let extent = len_i * cw;
        assert(extent == spec_len * cw);
        if pos.x > SCREEN_TILE_WIDTH as isize || pos.y > SCREEN_TILE_HEIGHT as isize || pos.x + extent < 0
            || pos.y + ch < 0 {
            assert(self.tile_frame_buffer@ =~= text_spec(s0, *font, bytes, px, py, font_color, background_color));
            return;
        }
        assert(text_draws(px, py, spec_len, cw as int, ch as int));
        let font_width = font.font_image_width as isize;
        let mut start_char_index: usize = 0;
        if pos.x < 0 {
            start_char_index = (-pos.x / cw) as usize;
        }
        assert(start_char_index as int == text_start(px, cw as int));
        if start_char_index > len {
            assert(self.tile_frame_buffer@ =~= text_spec(s0, *font, bytes, px, py, font_color, background_color));
            return;
        }
        let max_char_count = SCREEN_TILE_WIDTH / (cw as usize) + 2;
        let mut max_char_y = ch;
        if pos.y + ch > SCREEN_TILE_HEIGHT as isize {
            max_char_y = SCREEN_TILE_HEIGHT as isize - pos.y;
        }
        let mut start_char_y: isize = 0;
        if pos.y < 0 {
            start_char_y = -pos.y;
        }
        let end = if len < start_char_index + max_char_count { len } else { start_char_index + max_char_count };
        assert(end as int == text_end(px, spec_len, cw as int));
        let mut index = start_char_index;
        assert(self.tile_frame_buffer@ =~= text_progress(
            s0, *font, bytes, px, py, font_color, background_color, index as int, 0, 0));
        while index < end
            invariant
                start_char_index <= index <= end,
                start_char_index as int == text_start(px, cw as int),
                end as int == text_end(px, spec_len, cw as int),
                end <= len,
                len as int == spec_len,
                spec_len == bytes.len(),
                text_bytes@ == bytes,
                px == pos.x, py == pos.y,
                cw as int == font.char_width, ch as int == font.char_height, font_width as int == font.font_image_width,
                cw > 0,
                text_draws(px, py, spec_len, cw as int, ch as int),
                text_draw_ok(px, py, bytes, *font),
                max_char_y == (if py + ch > tile_h() { tile_h() - py } else { ch as int }),
                start_char_y == (if py < 0 { -py } else { 0 }),
                s0.len() == TILE_PIXELS,
                self.clear_color == old(self).clear_color,
                self.tile_frame_buffer@ == text_progress(s0, *font, bytes, px, py, font_color, background_color, index as int, 0, 0),
            decreases end - index,
        {
            assert(glyph_of(font.chars@, bytes[index as int]) is Some);
            let glyph = find_glyph(font.chars, text_bytes[index]).unwrap();
            proof {
                assert(glyph <= cw * glyph) by (nonlinear_arith) requires cw > 0, glyph >= 0;
                assert(index * cw <= spec_len * cw - cw) by (nonlinear_arith) requires index < spec_len, cw > 0;
                assert(0 <= index * cw) by (nonlinear_arith) requires index >= 0, cw > 0;
                assert(index <= index * cw) by (nonlinear_arith) requires index >= 0, cw > 0;
            }
            let char_index = glyph as isize;
            let letter_offset = cw * char_index;
            let out_letter_offset = index as isize * cw;
            let mut max_char_width = cw;
            let letter_x_stop = pos.x + out_letter_offset + cw;
            if letter_x_stop > SCREEN_TILE_WIDTH as isize {
                max_char_width = cw - (letter_x_stop - SCREEN_TILE_WIDTH as isize);
            }
            let mut letter_x_start: isize = 0;
            if pos.x + out_letter_offset < 0 {
                letter_x_start = -(pos.x + out_letter_offset);
            }
            let mut y = start_char_y;
            proof {
                let cur = text_progress(s0, *font, bytes, px, py, font_color, background_color, index as int, 0, 0);
                let nxt = text_progress(s0, *font, bytes, px, py, font_color, background_color, index as int,
                    y as int, letter_x_start as int);
                assert forall|i: int| 0 <= i < s0.len() implies cur[i] == nxt[i] by {
                    if text_covers(px, py, spec_len, cw as int, ch as int, i) {
                        lemma_text_cell(px, py, spec_len, cw as int, ch as int, i);
                    }
                }
                assert(cur =~= nxt);
            }
            while y < max_char_y
                invariant
                    start_char_y <= y <= max_char_y || (y == start_char_y && max_char_y < start_char_y),
                    start_char_index <= index < end,
                    start_char_index as int == text_start(px, cw as int),
                    end as int == text_end(px, spec_len, cw as int),
                    end <= len,
                    len as int == spec_len,
                    spec_len == bytes.len(),
                    text_bytes@ == bytes,
                    px == pos.x, py == pos.y,
                    cw as int == font.char_width, ch as int == font.char_height, font_width as int == font.font_image_width,
                    cw > 0,
                    text_draws(px, py, spec_len, cw as int, ch as int),
                    text_draw_ok(px, py, bytes, *font),
                    max_char_y == (if py + ch > tile_h() { tile_h() - py } else { ch as int }),
                    start_char_y == (if py < 0 { -py } else { 0 }),
                    s0.len() == TILE_PIXELS,
                    glyph_of(font.chars@, bytes[index as int]) == Some(glyph as int),
                    letter_offset == cw * glyph,
                    out_letter_offset == index * cw,
                    0 <= index * cw <= spec_len * cw - cw,
                    max_char_width == (if px + out_letter_offset + cw > tile_w() { tile_w() - px - out_letter_offset } else { cw as int }),
                    letter_x_start == (if px + out_letter_offset < 0 { -(px + out_letter_offset) } else { 0 }),
                    self.clear_color == old(self).clear_color,
                    self.tile_frame_buffer@ == text_progress(s0, *font, bytes, px, py, font_color, background_color,
                        index as int, y as int, letter_x_start as int),
                decreases max_char_y - y,
            {
                let mut out_x = out_letter_offset + letter_x_start;
                let mut x = letter_x_start;
                while x < max_char_width
                    invariant
                        letter_x_start <= x <= max_char_width || (x == letter_x_start && max_char_width < letter_x_start),
                        out_x == out_letter_offset + x,
                        start_char_y <= y < max_char_y,
                        start_char_index <= index < end,
                        start_char_index as int == text_start(px, cw as int),
                        end as int == text_end(px, spec_len, cw as int),
                        end <= len,
                        len as int == spec_len,
                        spec_len == bytes.len(),
                        px == pos.x, py == pos.y,
                        cw as int == font.char_width, ch as int == font.char_height, font_width as int == font.font_image_width,
                        cw > 0,
                        text_draws(px, py, spec_len, cw as int, ch as int),
                        text_draw_ok(px, py, bytes, *font),
                        max_char_y == (if py + ch > tile_h() { tile_h() - py } else { ch as int }),
                        start_char_y == (if py < 0 { -py } else { 0 }),
                        s0.len() == TILE_PIXELS,
                        glyph_of(font.chars@, bytes[index as int]) == Some(glyph as int),
                        letter_offset == cw * glyph,
                        out_letter_offset == index * cw,
                        0 <= index * cw <= spec_len * cw - cw,
                        max_char_width == (if px + out_letter_offset + cw > tile_w() { tile_w() - px - out_letter_offset } else { cw as int }),
                        letter_x_start == (if px + out_letter_offset < 0 { -(px + out_letter_offset) } else { 0 }),
                        self.clear_color == old(self).clear_color,
                        self.tile_frame_buffer@ == text_progress(s0, *font, bytes, px, py, font_color, background_color,
                            index as int, y as int, x as int),
                    decreases max_char_width - x,
                {
                    let ghost prev = self.tile_frame_buffer@;
                    let ghost i = pixel_index(tile_w(), px + index * cw + x, py + y);
                    proof {
                        lemma_text_pixel(px, py, cw as int, index as int, x as int, y as int);
                        assert(text_covers(px, py, spec_len, cw as int, ch as int, i));
                        assert(text_coverage_index(*font, bytes, px, py, i) == letter_offset + x + font_width * y);
                    }
                    let pixel = font.data[((letter_offset + x) + font_width * y) as usize] as u16;
                    let background = match background_color {
                        Some(c) => c,
                        None => self.get_pixel((pos.x + out_x) as usize, (pos.y + y) as usize),
                    };
                    let color = add_alpha_color(background, font_color, pixel);
                    self.draw_pixel((pos.x + out_x) as usize, (pos.y + y) as usize, color);
                    proof {
                        let nxt = text_progress(s0, *font, bytes, px, py, font_color, background_color,
                            index as int, y as int, x + 1);
                        assert forall|j: int| 0 <= j < s0.len() implies #[trigger] self.tile_frame_buffer@[j] == nxt[j] by {
                            if text_covers(px, py, spec_len, cw as int, ch as int, j) {
                                lemma_text_cell(px, py, spec_len, cw as int, ch as int, j);
                            }
                        }
                        assert(self.tile_frame_buffer@ =~= nxt);
                    }
                    out_x += 1;
                    x += 1;
                }
                proof {
                    let cur = text_progress(s0, *font, bytes, px, py, font_color, background_color, index as int,
                        y as int, x as int);
                    let nxt = text_progress(s0, *font, bytes, px, py, font_color, background_color, index as int,
                        y + 1, letter_x_start as int);
                    assert forall|i: int| 0 <= i < s0.len() implies cur[i] == nxt[i] by {
                        if text_covers(px, py, spec_len, cw as int, ch as int, i) {
                            lemma_text_cell(px, py, spec_len, cw as int, ch as int, i);
                        }
                    }
                    assert(cur =~= nxt);
                }
                y += 1;
            }
            proof {
                let cur = text_progress(s0, *font, bytes, px, py, font_color, background_color, index as int,
                    y as int, letter_x_start as int);
                let nxt = text_progress(s0, *font, bytes, px, py, font_color, background_color, index + 1, 0, 0);
                assert forall|i: int| 0 <= i < s0.len() implies cur[i] == nxt[i] by {
                    if text_covers(px, py, spec_len, cw as int, ch as int, i) {
                        lemma_text_cell(px, py, spec_len, cw as int, ch as int, i);
                    }
                }
                assert(cur =~= nxt);
            }
            index += 1;
        }
        assert(self.tile_frame_buffer@ =~= text_spec(s0, *font, bytes, px, py, font_color, background_color));
    }
}

} // verus!
