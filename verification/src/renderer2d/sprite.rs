//! Textures whose pixels carry an opacity.
use vstd::prelude::*;
use crate::color::{Color565, pack565, red_of, green_of, blue_of};

verus! {

/// A colour with an opacity: 0 is fully transparent, 255 fully opaque.
/// In memory it takes three bytes: the colour, low byte first, then the opacity.
#[derive(Clone, Copy, Debug)]
pub struct TransparentRGB565 {
    pub rgb: Color565,
    pub alpha: u8,
}

/// The pixel stored in the three bytes `b0 b1 b2`.
pub open spec fn decode_pixel(b0: u8, b1: u8, b2: u8) -> TransparentRGB565 {
    TransparentRGB565 { rgb: Color565 { value: (b0 as int + 256 * b1 as int) as u16 }, alpha: b2 }
}

impl TransparentRGB565 {
    /// Reads a pixel from its three stored bytes.
    pub fn from_bytes(b: [u8; 3]) -> (p: TransparentRGB565)
        ensures
            p == decode_pixel(b@[0], b@[1], b@[2]),
    {
        let lo = b[0] as u16;
        let hi = b[1] as u16;
        TransparentRGB565 { rgb: Color565 { value: lo + 256 * hi }, alpha: b[2] }
    }
}

/// A texture whose pixels carry an opacity. The pixels are stored row by row,
/// three bytes each (see [`TransparentRGB565`]).
#[derive(Clone, Copy)]
pub struct TransparentTexture {
    pub width: u16,
    pub height: u16,
    pub data: &'static [u8],
}

impl TransparentTexture {
    /// A texture over the given pixel bytes, which must hold whole pixels.
    pub fn new(data: &'static [u8], width: u16, height: u16) -> (t: TransparentTexture)
        requires
            data@.len() % 3 == 0,
        ensures
            t.data@ == data@,
            t.width == width,
            t.height == height,
    {
        TransparentTexture { width, height, data }
    }
}

/// The `k`-th pixel stored in a byte sequence.
pub open spec fn texel(data: Seq<u8>, k: int) -> TransparentRGB565 {
    decode_pixel(data[3 * k], data[3 * k + 1], data[3 * k + 2])
}

/// Reads the `k`-th pixel stored in `data`.
pub fn read_texel(data: &[u8], k: usize) -> (p: TransparentRGB565)
    requires
        3 * k + 3 <= data@.len(),
    ensures
        p == texel(data@, k as int),
{
    let n = data.len();
    assert(3 * k + 3 <= n);
    let i = 3 * k;
    TransparentRGB565::from_bytes([data[i], data[i + 1], data[i + 2]])
}

/// One channel of `a` covered by `b` with opacity `alpha` out of 255.
pub open spec fn blend_channel(a: int, b: int, alpha: int) -> int {
    ((255 - alpha) * a + b * alpha) / 255
}

/// `a` covered by `b` with opacity `alpha` out of 255, channel by channel.
pub open spec fn alpha_blend_spec(a: Color565, b: Color565, alpha: int) -> Color565 {
    Color565 {
        value: pack565(
            blend_channel(red_of(a.value), red_of(b.value), alpha),
            blend_channel(green_of(a.value), green_of(b.value), alpha),
            blend_channel(blue_of(a.value), blue_of(b.value), alpha),
        ) as u16,
    }
}

/// A channel weighted by `255 - alpha` plus another weighted by `alpha` stays
/// within `255` times the larger of the two bounds.
pub proof fn lemma_weighted_channel(a: int, b: int, alpha: int, bound: int)
    requires
        0 <= a <= bound,
        0 <= b <= bound,
        0 <= alpha <= 255,
    ensures
        0 <= (255 - alpha) * a + b * alpha <= 255 * bound,
        0 <= blend_channel(a, b, alpha) <= bound,
{
    assert(0 <= (255 - alpha) * a + b * alpha <= 255 * bound) by (nonlinear_arith)
        requires 0 <= a <= bound, 0 <= b <= bound, 0 <= alpha <= 255;
}

/// `a` covered by `b.rgb` with the opacity of `b`.
pub fn add_alpha_color(a: Color565, b: TransparentRGB565) -> (c: Color565)
    ensures
        c == alpha_blend_spec(a, b.rgb, b.alpha as int),
{
    let rgb = b.rgb;
    let a_comp = a.get_components();
    let b_comp = rgb.get_components();
    let alpha = b.alpha as u16;
    proof {
        lemma_weighted_channel(a_comp.0 as int, b_comp.0 as int, alpha as int, 31);
        lemma_weighted_channel(a_comp.1 as int, b_comp.1 as int, alpha as int, 63);
        lemma_weighted_channel(a_comp.2 as int, b_comp.2 as int, alpha as int, 31);
        assert((255 - alpha) * a_comp.0 <= 255 * 31) by (nonlinear_arith) requires a_comp.0 <= 31, alpha <= 255;
        assert((255 - alpha) * a_comp.1 <= 255 * 63) by (nonlinear_arith) requires a_comp.1 <= 63, alpha <= 255;
        assert((255 - alpha) * a_comp.2 <= 255 * 31) by (nonlinear_arith) requires a_comp.2 <= 31, alpha <= 255;
        assert(b_comp.0 * alpha <= 255 * 31) by (nonlinear_arith) requires b_comp.0 <= 31, alpha <= 255;
        assert(b_comp.1 * alpha <= 255 * 63) by (nonlinear_arith) requires b_comp.1 <= 63, alpha <= 255;
        assert(b_comp.2 * alpha <= 255 * 31) by (nonlinear_arith) requires b_comp.2 <= 31, alpha <= 255;
    }
    Color565::new(
        ((255 - alpha) * a_comp.0 + b_comp.0 * alpha) / 255,
        ((255 - alpha) * a_comp.1 + b_comp.1 * alpha) / 255,
        ((255 - alpha) * a_comp.2 + b_comp.2 * alpha) / 255,
    )
}

/// Full transparency leaves the colour underneath, full opacity gives the colour on top.
pub proof fn lemma_blend_extremes(a: Color565, b: Color565)
    ensures
        alpha_blend_spec(a, b, 0) == a,
        alpha_blend_spec(a, b, 255) == b,
{
    crate::color::lemma_components_roundtrip(a);
    crate::color::lemma_components_roundtrip(b);
    assert forall|x: int, y: int| #[trigger] blend_channel(x, y, 0) == x && blend_channel(x, y, 255) == y by {
        assert((255 - 0) * x + y * 0 == 255 * x) by (nonlinear_arith);
        assert((255 - 255) * x + y * 255 == 255 * y) by (nonlinear_arith);
    }
}

} // verus!
