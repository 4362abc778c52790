//! Drawing the queued elements into the tile, each moved by the tile's position on screen.
use vstd::prelude::*;
use vstd::string::StringSliceAdditionalSpecFns;
use crate::color::Color565;
use crate::constants::{SCREEN_WIDTH, SCREEN_HEIGHT, SCREEN_TILE_SUBDIVISION, SCREEN_TILE_WIDTH, SCREEN_TILE_HEIGHT, TILE_PIXELS, lemma_tile_size};
use crate::draw_tools::shapes::fill_rect_spec;
use crate::geometry::Vector2;
use crate::renderer2d::elements::{Element, ScaleMode};
use crate::renderer2d::nine_parts_rectangle::{
    NinePartsTexture, copy_region_ok, copy_region_spec, nine_parts_ok, nine_parts_spec, scaled_region_ok,
    scaled_region_spec, fits_isize,
};
use crate::renderer2d::renderer::{Renderer2d, tile_w, tile_h};
use crate::renderer2d::sprite::TransparentTexture;
use crate::renderer2d::text::{text_draw_ok, text_spec};

verus! {

/// A whole texture seen as a nine-parts texture without borders.
pub open spec fn sprite_parts(t: TransparentTexture) -> NinePartsTexture {
    NinePartsTexture {
        data: t.data,
        texture_width: t.width as usize,
        texture_height: t.height as usize,
        left_border_size: 0,
        right_border_size: 0,
        top_border_size: 0,
        bottom_border_size: 0,
    }
}

impl TransparentTexture {
    /// The texture as a nine-parts texture without borders, to draw regions of it.
    pub fn as_parts(&self) -> (p: NinePartsTexture)
        ensures
            p == sprite_parts(*self),
    {
        NinePartsTexture {
            data: self.data,
            texture_width: self.width as usize,
            texture_height: self.height as usize,
            left_border_size: 0,
            right_border_size: 0,
            top_border_size: 0,
            bottom_border_size: 0,
        }
    }
}

/// The tile after drawing the border, `t` pixels wide, of the rectangle of corner `(x, y)`
/// and size `w × h`: the top band, the bottom band, then the left and right bands between them.
pub open spec fn outline_spec(s: Seq<Color565>, x: int, y: int, w: int, h: int, t: int, c: Color565) -> Seq<Color565> {
    let s1 = fill_rect_spec(s, tile_w(), tile_h(), x, y, w, t, c);
    let s2 = fill_rect_spec(s1, tile_w(), tile_h(), x, y + h - t, w, t, c);
    let s3 = fill_rect_spec(s2, tile_w(), tile_h(), x, y + t, t, h - 2 * t, c);
    fill_rect_spec(s3, tile_w(), tile_h(), x + w - t, y + t, t, h - 2 * t, c)
}

/// The tile after drawing `e`, whose positions are screen positions, into the tile whose
/// top-left corner is at `off` on the screen. An element of the caller's own is not drawn here.
pub open spec fn element_spec<'a>(s: Seq<Color565>, off: Vector2<isize>, e: Element<'a>) -> Seq<Color565> {
    match e {
        Element::ColorRectangle { pos, size, color } =>
            fill_rect_spec(s, tile_w(), tile_h(), pos.x - off.x, pos.y - off.y, size.x as int, size.y as int, color),
        Element::ColorRectangleOutline { pos, size, color, thickness } =>
            outline_spec(s, pos.x - off.x, pos.y - off.y, size.x as int, size.y as int, thickness as int, color),
        Element::TransparentSprite { pos, texture } =>
            copy_region_spec(s, sprite_parts(*texture), pos.x - off.x, pos.y - off.y, 0, 0, texture.width as int,
                texture.height as int),
        Element::TransparentScaledSprite { pos, size, texture, scale_mode } =>
            scaled_region_spec(scale_mode, s, sprite_parts(*texture), pos.x - off.x, pos.y - off.y, 0, 0,
                texture.width as int, texture.height as int, size.x as int, size.y as int),
        Element::NinePartsRectangle { parts, pos, size, scaling_mode } =>
            nine_parts_spec(s, *parts, pos.x - off.x, pos.y - off.y, size.x as int, size.y as int, scaling_mode),
        Element::Text { pos, text, font, font_color, background_color } =>
            text_spec(s, *font, text.spec_bytes(), pos.x - off.x, pos.y - off.y, font_color, background_color),
        Element::External { .. } => s,
    }
}

/// `e` can be drawn into the tile at `off`: its position moved by the tile fits in an
/// `isize`, and what drawing it reads stays in its textures or font.
pub open spec fn element_ok<'a>(off: Vector2<isize>, e: Element<'a>) -> bool {
    match e {
        Element::ColorRectangle { pos, size, .. } => {
            &&& fits_isize(pos.x - off.x) && fits_isize(pos.y - off.y)
            &&& fits_isize(pos.x - off.x + size.x) && fits_isize(pos.y - off.y + size.y)
        },
        Element::ColorRectangleOutline { pos, size, thickness, .. } => {
            let x = pos.x - off.x;
            let y = pos.y - off.y;
            let t = thickness as int;
            &&& fits_isize(x) && fits_isize(y)
            &&& fits_isize(x + size.x) && fits_isize(y + size.y)
            &&& fits_isize(y + size.y - t) && fits_isize(x + size.x - t)
            &&& fits_isize(x + t) && fits_isize(y + t)
        },
        Element::TransparentSprite { pos, texture } => {
            &&& fits_isize(pos.x - off.x) && fits_isize(pos.y - off.y)
            &&& copy_region_ok(sprite_parts(*texture), pos.x - off.x, pos.y - off.y, 0, 0, texture.width as int,
                texture.height as int)
        },
        Element::TransparentScaledSprite { pos, size, texture, scale_mode } => {
            &&& fits_isize(pos.x - off.x) && fits_isize(pos.y - off.y)
            &&& scaled_region_ok(scale_mode, sprite_parts(*texture), pos.x - off.x, pos.y - off.y, 0, 0,
                texture.width as int, texture.height as int, size.x as int, size.y as int)
        },
        Element::NinePartsRectangle { parts, pos, size, scaling_mode } => {
            &&& fits_isize(pos.x - off.x) && fits_isize(pos.y - off.y)
            &&& nine_parts_ok(*parts, pos.x - off.x, pos.y - off.y, size.x as int, size.y as int, scaling_mode)
        },
        Element::Text { pos, text, font, .. } => {
            &&& fits_isize(pos.x - off.x) && fits_isize(pos.y - off.y)
            &&& text_draw_ok(pos.x - off.x, pos.y - off.y, text.spec_bytes(), *font)
        },
        Element::External { .. } => true,
    }
}

/// Where the tile in column `x` and row `y` of the screen starts.
pub open spec fn tile_offset(x: int, y: int) -> Vector2<isize> {
    Vector2 { x: (x * SCREEN_TILE_WIDTH) as isize, y: (y * SCREEN_TILE_HEIGHT) as isize }
}

/// The tiles pave the screen: every screen pixel lies in exactly one tile, at the tile
/// pixel found by taking the tile's top-left corner off it, and every tile pixel shows
/// a screen pixel.
pub proof fn lemma_tiles_pave_screen(sx: int, sy: int)
    requires
        0 <= sx < SCREEN_WIDTH,
        0 <= sy < SCREEN_HEIGHT,
    ensures
        ({
            let x = sx / (SCREEN_TILE_WIDTH as int);
            let y = sy / (SCREEN_TILE_HEIGHT as int);
            &&& 0 <= x < SCREEN_TILE_SUBDIVISION && 0 <= y < SCREEN_TILE_SUBDIVISION
            &&& 0 <= sx - tile_offset(x, y).x < SCREEN_TILE_WIDTH
            &&& 0 <= sy - tile_offset(x, y).y < SCREEN_TILE_HEIGHT
        }),
        forall|x: int, y: int|
            0 <= x < SCREEN_TILE_SUBDIVISION && 0 <= y < SCREEN_TILE_SUBDIVISION
                && 0 <= sx - #[trigger] tile_offset(x, y).x < SCREEN_TILE_WIDTH
                && 0 <= sy - tile_offset(x, y).y < SCREEN_TILE_HEIGHT
            ==> x == sx / (SCREEN_TILE_WIDTH as int) && y == sy / (SCREEN_TILE_HEIGHT as int),
        forall|x: int, y: int|
            0 <= x < SCREEN_TILE_SUBDIVISION && 0 <= y < SCREEN_TILE_SUBDIVISION
            ==> 0 <= #[trigger] tile_offset(x, y).x && tile_offset(x, y).x + SCREEN_TILE_WIDTH <= SCREEN_WIDTH
                && 0 <= tile_offset(x, y).y && tile_offset(x, y).y + SCREEN_TILE_HEIGHT <= SCREEN_HEIGHT,
{
    lemma_tile_size();
    assert forall|x: int, y: int| 0 <= x < 4 && 0 <= y < 4 implies
        #[trigger] tile_offset(x, y).x == x * 80 && tile_offset(x, y).y == y * 60 by {
        assert(0 <= x * 80 <= 240) by (nonlinear_arith) requires 0 <= x < 4;
        assert(0 <= y * 60 <= 180) by (nonlinear_arith) requires 0 <= y < 4;
    }
}

/// The tile after drawing the elements `es`, in order, into the tile at `off`.
pub open spec fn elements_spec<'a>(s: Seq<Color565>, off: Vector2<isize>, es: Seq<Element<'a>>) -> Seq<Color565>
    decreases es.len(),
{
    if es.len() == 0 {
        s
    } else {
        element_spec(elements_spec(s, off, es.drop_last()), off, es.last())
    }
}

/// A screen position moved into the coordinates of the tile at `off`.
pub open spec fn shifted(p: Vector2<isize>, off: Vector2<isize>) -> Vector2<isize> {
    Vector2 { x: (p.x - off.x) as isize, y: (p.y - off.y) as isize }
}

/// The element `e` moved by `-off`.
pub open spec fn translated<'a>(e: Element<'a>, off: Vector2<isize>) -> Element<'a> {
    match e {
        Element::ColorRectangle { pos, size, color } => Element::ColorRectangle { pos: shifted(pos, off), size, color },
        Element::ColorRectangleOutline { pos, size, color, thickness } =>
            Element::ColorRectangleOutline { pos: shifted(pos, off), size, color, thickness },
        Element::TransparentSprite { pos, texture } => Element::TransparentSprite { pos: shifted(pos, off), texture },
        Element::TransparentScaledSprite { pos, size, texture, scale_mode } =>
            Element::TransparentScaledSprite { pos: shifted(pos, off), size, texture, scale_mode },
        Element::NinePartsRectangle { parts, pos, size, scaling_mode } =>
            Element::NinePartsRectangle { parts, pos: shifted(pos, off), size, scaling_mode },
        Element::Text { pos, text, font, font_color, background_color } =>
            Element::Text { pos: shifted(pos, off), text, font, font_color, background_color },
        Element::External { id } => Element::External { id },
    }
}

/// The position of `e` moved by `-off` fits in an `isize`.
pub open spec fn shift_fits<'a>(e: Element<'a>, off: Vector2<isize>) -> bool {
    match e {
        Element::ColorRectangle { pos, .. } | Element::ColorRectangleOutline { pos, .. }
        | Element::TransparentSprite { pos, .. } | Element::TransparentScaledSprite { pos, .. }
        | Element::NinePartsRectangle { pos, .. } | Element::Text { pos, .. } =>
            fits_isize(pos.x - off.x) && fits_isize(pos.y - off.y),
        Element::External { .. } => true,
    }
}

/// Drawing into the tile at `off` is drawing the elements moved by `-off` into the tile
/// at the origin.
pub proof fn lemma_tile_is_translation<'a>(s: Seq<Color565>, off: Vector2<isize>, es: Seq<Element<'a>>)
    requires
        forall|k: int| 0 <= k < es.len() ==> shift_fits(#[trigger] es[k], off),
    ensures
        elements_spec(s, off, es) == elements_spec(s, Vector2 { x: 0, y: 0 }, es.map_values(|e: Element<'a>| translated(e, off))),
    decreases es.len(),
{
    let moved = es.map_values(|e: Element<'a>| translated(e, off));
    if es.len() > 0 {
        let init = es.drop_last();
        assert(init.map_values(|e: Element<'a>| translated(e, off)) =~= moved.drop_last());
        assert forall|k: int| 0 <= k < init.len() implies shift_fits(#[trigger] init[k], off) by {
            assert(init[k] == es[k]);
        }
        lemma_tile_is_translation(s, off, init);
        assert(shift_fits(es[es.len() - 1], off));
        assert(moved.last() == translated(es.last(), off));
    }
}

impl Renderer2d {
    /// Draws the border, `thickness` pixels wide, of the rectangle of corner `pos` and size `size`.
    pub fn draw_rectangle_outline(&mut self, pos: Vector2<isize>, size: Vector2<isize>, thickness: isize, color: Color565)
        requires
            0 <= thickness,
            fits_isize(pos.x + size.x) && fits_isize(pos.y + size.y),
            fits_isize(pos.y + size.y - thickness) && fits_isize(pos.x + size.x - thickness),
            fits_isize(pos.x + thickness) && fits_isize(pos.y + thickness),
            thickness <= u16::MAX, 0 <= size.x <= u16::MAX, 0 <= size.y <= u16::MAX,
        ensures
            final(self).clear_color == old(self).clear_color,
            final(self).tile_frame_buffer@ == outline_spec(old(self).tile_frame_buffer@, pos.x as int, pos.y as int,
                size.x as int, size.y as int, thickness as int, color),
    {
        let t = thickness;
        self.draw_rectangle(pos, Vector2 { x: size.x, y: t }, color);
        self.draw_rectangle(Vector2 { x: pos.x, y: pos.y + size.y - t }, Vector2 { x: size.x, y: t }, color);
        self.draw_rectangle(Vector2 { x: pos.x, y: pos.y + t }, Vector2 { x: t, y: size.y - 2 * t }, color);
        self.draw_rectangle(Vector2 { x: pos.x + size.x - t, y: pos.y + t }, Vector2 { x: t, y: size.y - 2 * t }, color);
    }

    /// Draws `element`, whose positions are screen positions, into the tile whose top-left
    /// corner is at `buffer_offset` on the screen. An element of the caller's own is left
    /// to the caller.
    pub fn draw_element(&mut self, buffer_offset: Vector2<isize>, element: &Element)
        requires
            element_ok(buffer_offset, *element),
        ensures
            final(self).clear_color == old(self).clear_color,
            final(self).tile_frame_buffer@ == element_spec(old(self).tile_frame_buffer@, buffer_offset, *element),
    {
        let origin = Vector2 { x: 0isize, y: 0isize };
        match element {
            Element::ColorRectangle { pos, size, color } => {
                let p = Vector2 { x: pos.x - buffer_offset.x, y: pos.y - buffer_offset.y };
                self.draw_rectangle(p, Vector2 { x: size.x as isize, y: size.y as isize }, *color);
            },
            Element::ColorRectangleOutline { pos, size, color, thickness } => {
                let p = Vector2 { x: pos.x - buffer_offset.x, y: pos.y - buffer_offset.y };
                self.draw_rectangle_outline(p, Vector2 { x: size.x as isize, y: size.y as isize }, *thickness as isize, *color);
            },
            Element::TransparentSprite { pos, texture } => {
                let p = Vector2 { x: pos.x - buffer_offset.x, y: pos.y - buffer_offset.y };
                self.draw_region(&texture.as_parts(), p, origin, texture.width as isize, texture.height as isize);
            },
            Element::TransparentScaledSprite { pos, size, texture, scale_mode } => {
                let p = Vector2 { x: pos.x - buffer_offset.x, y: pos.y - buffer_offset.y };
                match scale_mode {
                    ScaleMode::Stretch => self.draw_region_strech(&texture.as_parts(), p, origin, texture.width as isize,
                        texture.height as isize, size.x as isize, size.y as isize),
                    ScaleMode::Tile => self.draw_region_tile(&texture.as_parts(), p, origin, texture.width as isize,
                        texture.height as isize, size.x as isize, size.y as isize),
                }
            },
            Element::NinePartsRectangle { parts, pos, size, scaling_mode } => {
                let p = Vector2 { x: pos.x - buffer_offset.x, y: pos.y - buffer_offset.y };
                self.draw_nine_parts_rectangle(**parts, p, *size, *scaling_mode);
            },
            Element::Text { pos, text, font, font_color, background_color } => {
                let p = Vector2 { x: pos.x - buffer_offset.x, y: pos.y - buffer_offset.y };
                self.draw_text(p, text, font, *font_color, *background_color);
            },
            Element::External { .. } => {},
        }
    }

    /// Draws `elements`, in order, into the tile whose top-left corner is at
    /// `buffer_offset` on the screen (see [`Renderer2d::draw_element`]).
    pub fn draw_shapes(&mut self, buffer_offset: Vector2<isize>, elements: &[Element])
        requires
            forall|k: int| 0 <= k < elements@.len() ==> element_ok(buffer_offset, #[trigger] elements@[k]),
        ensures
            final(self).clear_color == old(self).clear_color,
            final(self).tile_frame_buffer@ == elements_spec(old(self).tile_frame_buffer@, buffer_offset, elements@),
    {
        let mut k: usize = 0;
        while k < elements.len()
            invariant
                k <= elements@.len(),
                forall|j: int| 0 <= j < elements@.len() ==> element_ok(buffer_offset, #[trigger] elements@[j]),
                self.clear_color == old(self).clear_color,
                self.tile_frame_buffer@ == elements_spec(old(self).tile_frame_buffer@, buffer_offset, elements@.take(k as int)),
            decreases elements@.len() - k,
        {
            self.draw_element(buffer_offset, &elements[k]);
            assert(elements@.take(k + 1).drop_last() =~= elements@.take(k as int));
            k += 1;
        }
        assert(elements@.take(elements@.len() as int) =~= elements@);
    }

    /// Renders the tile in column `tile_x` and row `tile_y` of the screen: clears it, then
    /// draws `elements` into it (see [`Renderer2d::draw_shapes`]).
    pub fn draw_tile(&mut self, tile_x: usize, tile_y: usize, elements: &[Element])
        requires
            tile_x < SCREEN_TILE_SUBDIVISION,
            tile_y < SCREEN_TILE_SUBDIVISION,
            forall|k: int| 0 <= k < elements@.len() ==> element_ok(tile_offset(tile_x as int, tile_y as int),
                #[trigger] elements@[k]),
        ensures
            final(self).clear_color == old(self).clear_color,
            final(self).tile_frame_buffer@ == elements_spec(Seq::new(TILE_PIXELS as nat, |i: int| old(self).clear_color),
                tile_offset(tile_x as int, tile_y as int), elements@),
    {
        proof { lemma_tile_size(); }
        self.clear_frame_frame_buffer();
        assert(self.tile_frame_buffer@ =~= Seq::new(TILE_PIXELS as nat, |i: int| old(self).clear_color));
        let offset = Vector2 { x: (tile_x * SCREEN_TILE_WIDTH) as isize, y: (tile_y * SCREEN_TILE_HEIGHT) as isize };
        self.draw_shapes(offset, elements);
    }
}

} // verus!
