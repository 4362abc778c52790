//! The nodes of a layout tree: primitives (leaves that draw one element) and containers.
use vstd::prelude::*;
use crate::color::Color565;
use crate::geometry::Vector2;
use crate::gui::enums::{AlignDirection, Layout};
use crate::gui::margin::Margin;
use crate::renderer2d::elements::{Font, ScaleMode};
use crate::renderer2d::nine_parts_rectangle::NinePartsTexture;
use crate::renderer2d::sprite::TransparentTexture;

verus! {

/// A flat colour rectangle, or only its outline when `outline_thickness` is set.
#[derive(Clone, Copy)]
pub struct ColorRectanglePrimitive {
    pub size: Vector2<u16>,
    pub color: Color565,
    pub layout_override: Layout,
    pub margin: Margin,
    pub outline_thickness: Option<u16>,
}

/// A nine-parts rectangle.
#[derive(Clone, Copy)]
pub struct NinePartsRectanglePrimitive<'a> {
    pub parts: &'a NinePartsTexture,
    pub size: Vector2<u16>,
    pub scaling_mode: ScaleMode,
    pub layout_override: Layout,
    pub margin: Margin,
}

/// A line of text, centred in the space the container gives it.
#[derive(Clone, Copy)]
pub struct TextPrimitive<'a> {
    pub text: &'a str,
    pub font: &'a Font,
    pub font_color: Color565,
    pub background_color: Option<Color565>,
    pub layout_override: Layout,
    pub margin: Margin,
}

/// A sprite stretched or tiled to its size. It has no margin.
#[derive(Clone, Copy)]
pub struct TransparentScaledSpritePrimitive<'a> {
    pub size: Vector2<u16>,
    pub texture: &'a TransparentTexture,
    pub scale_mode: ScaleMode,
    pub layout_override: Layout,
}

/// A leaf of the layout tree: it draws one element.
#[derive(Clone, Copy)]
pub enum Primitive<'a> {
    ColorRectangle(ColorRectanglePrimitive),
    NinePartsRectangle(NinePartsRectanglePrimitive<'a>),
    Text(TextPrimitive<'a>),
    TransparentScaledSprite(TransparentScaledSpritePrimitive<'a>),
}

/// A node that lays its children out one after the other in the direction `align`.
/// An expanding container shares the space its parent leaves free with the other
/// expanding containers.
pub struct Container<'a> {
    pub children: Vec<Node<'a>>,
    pub align: AlignDirection,
    pub layout_override: Layout,
    pub expand: bool,
    pub margin: Margin,
}

/// A node of the layout tree.
pub enum Node<'a> {
    Primitive(Primitive<'a>),
    Container(Container<'a>),
}

/// A size constraint on each axis: `Some` forces that length.
pub open spec fn opt_or(o: Option<isize>, d: int) -> int {
    match o {
        Some(v) => v as int,
        None => d,
    }
}

/// Number of bytes of a string.
pub open spec fn text_len(s: &str) -> int {
    s.len() as int
}

/// The width of a text: its byte length times the font's character width, as computed
/// in a `usize` and then read as an `isize`.
pub open spec fn text_width(t: TextPrimitive) -> int {
    (text_len(t.text) * t.font.char_width as int) as usize as isize as int
}

/// The layout of a primitive.
pub open spec fn prim_layout(p: Primitive) -> Layout {
    match p {
        Primitive::ColorRectangle(r) => r.layout_override,
        Primitive::NinePartsRectangle(r) => r.layout_override,
        Primitive::Text(t) => t.layout_override,
        Primitive::TransparentScaledSprite(s) => s.layout_override,
    }
}

/// The margin of a primitive (none for a sprite).
pub open spec fn prim_margin(p: Primitive) -> Margin {
    match p {
        Primitive::ColorRectangle(r) => r.margin,
        Primitive::NinePartsRectangle(r) => r.margin,
        Primitive::Text(t) => t.margin,
        Primitive::TransparentScaledSprite(s) => Margin { top: 0, bottom: 0, right: 0, left: 0 },
    }
}

/// The size a primitive has on its own.
pub open spec fn prim_natural(p: Primitive) -> (int, int) {
    match p {
        Primitive::ColorRectangle(r) => (r.size.x as int, r.size.y as int),
        Primitive::NinePartsRectangle(r) => (r.size.x as int, r.size.y as int),
        Primitive::Text(t) => (text_width(t), t.font.char_height as int),
        Primitive::TransparentScaledSprite(s) => (s.size.x as int, s.size.y as int),
    }
}

/// Its size can be computed: a text's byte length times its character width fits in a `usize`.
pub open spec fn prim_ok(p: Primitive) -> bool {
    match p {
        Primitive::Text(t) => text_len(t.text) * t.font.char_width as int <= usize::MAX,
        _ => true,
    }
}

/// The size of a primitive: a detached one keeps its own size, any other takes the
/// forced length on each axis where there is one.
pub open spec fn prim_size(p: Primitive, force: (Option<isize>, Option<isize>)) -> (int, int) {
    if prim_layout(p) is Relative {
        prim_natural(p)
    } else {
        (opt_or(force.0, prim_natural(p).0), opt_or(force.1, prim_natural(p).1))
    }
}

impl TextPrimitive<'_> {
    /// Width of the text in pixels.
    pub fn width(&self) -> (w: isize)
        requires
            text_len(self.text) * self.font.char_width as int <= usize::MAX,
        ensures
            w == text_width(*self),
    {
        let n = self.text.len();
        let c = self.font.char_width as usize;
        let p = n * c;
        #[verifier::truncate]
        (p as isize)
    }
}

impl<'a> Primitive<'a> {
    /// How the primitive takes part in its container's flow.
    pub fn get_layout_ovewrite(&self) -> (l: Layout)
        ensures
            l == prim_layout(*self),
    {
        match self {
            Primitive::ColorRectangle(r) => r.layout_override,
            Primitive::NinePartsRectangle(r) => r.layout_override,
            Primitive::Text(t) => t.layout_override,
            Primitive::TransparentScaledSprite(s) => s.layout_override,
        }
    }

    /// The space kept around the primitive.
    pub fn get_margin(&self) -> (m: Margin)
        ensures
            m == prim_margin(*self),
    {
        match self {
            Primitive::ColorRectangle(r) => r.margin,
            Primitive::NinePartsRectangle(r) => r.margin,
            Primitive::Text(t) => t.margin,
            Primitive::TransparentScaledSprite(_) => Margin::none(),
        }
    }

    /// The size of the primitive under the given constraints (see [`prim_size`]).
    pub fn get_size(&self, force_size: (Option<isize>, Option<isize>)) -> (s: Vector2<isize>)
        requires
            prim_ok(*self),
        ensures
            (s.x as int, s.y as int) == prim_size(*self, force_size),
    {
        let natural = match self {
            Primitive::ColorRectangle(r) => Vector2 { x: r.size.x as isize, y: r.size.y as isize },
            Primitive::NinePartsRectangle(r) => Vector2 { x: r.size.x as isize, y: r.size.y as isize },
            Primitive::Text(t) => Vector2 { x: t.width(), y: t.font.char_height as isize },
            Primitive::TransparentScaledSprite(s) => Vector2 { x: s.size.x as isize, y: s.size.y as isize },
        };
        if let Layout::Relative(..) = self.get_layout_ovewrite() {
            natural
        } else {
            Vector2 {
                x: match force_size.0 { Some(w) => w, None => natural.x },
                y: match force_size.1 { Some(h) => h, None => natural.y },
            }
        }
    }
}

} // verus!
