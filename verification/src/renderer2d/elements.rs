//! Textures and fonts referred to by the drawing elements.
use vstd::prelude::*;
use crate::color::Color565;
use crate::geometry::Vector2;
use crate::renderer2d::nine_parts_rectangle::NinePartsTexture;
use crate::renderer2d::sprite::TransparentTexture;

verus! {

/// A texture struct that store a size and a reference to the actual pixels.
#[derive(Clone)]
pub struct Texture {
    pub width: u16,
    pub height: u16,
    pub data: &'static [Color565],
}

/// A scaling strategy: `Stretch` distorts the texture to the size of the area to
/// draw, while `Tile` repeats it without scaling it.
#[derive(Clone, Copy, PartialEq, Eq, Structural, Debug)]
pub enum ScaleMode {
    Stretch,
    Tile,
}

/// A monospace font: one image holding every character side by side, one byte of
/// coverage per pixel (0 for none, 255 for full). `chars` lists the characters in the
/// order they appear in the image.
#[derive(Clone, Copy)]
pub struct Font {
    pub data: &'static [u8],
    pub font_image_width: u16,
    pub char_width: u16,
    pub char_height: u16,
    pub chars: &'static str,
}

/// Something to draw, queued in a [`crate::renderer2d::draw_queue::DrawQueue`].
#[derive(Clone, Copy)]
pub enum Element<'a> {
    /// A flat colored rectangle. Very fast to draw.
    ColorRectangle { pos: Vector2<isize>, size: Vector2<u16>, color: Color565 },
    /// The border of a rectangle, `thickness` pixels wide, inside the rectangle.
    ColorRectangleOutline { pos: Vector2<isize>, size: Vector2<u16>, color: Color565, thickness: u16 },
    /// A textured non-scaled rectangle. Also known as a sprite.
    TransparentSprite { pos: Vector2<isize>, texture: &'a TransparentTexture },
    /// A textured scaled rectangle, stretched or tiled to its size.
    TransparentScaledSprite {
        pos: Vector2<isize>,
        size: Vector2<u16>,
        texture: &'a TransparentTexture,
        scale_mode: ScaleMode,
    },
    /// A textured rectangle drawn using 9 parts of a texture: one for each corner, side
    /// and the center.
    NinePartsRectangle {
        parts: &'a NinePartsTexture,
        pos: Vector2<isize>,
        size: Vector2<u16>,
        scaling_mode: ScaleMode,
    },
    /// A simple colored text label. A `None` background makes it transparent.
    Text {
        pos: Vector2<isize>,
        text: &'a str,
        font: &'a Font,
        font_color: Color565,
        background_color: Option<Color565>,
    },
    /// An element the caller draws itself (a circle, a rounded rectangle, a textured
    /// triangle or a plugin), known here by the caller's own number for it.
    External { id: usize },
}

} // verus!
