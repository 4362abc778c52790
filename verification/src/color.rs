//! RGB565 colours, packed in one `u16`.
use vstd::prelude::*;

verus! {

/// A colour with 5 bits of red, 6 bits of green and 5 bits of blue, packed
/// as `rrrrrggggggbbbbb`.
#[derive(Clone, Copy, PartialEq, Eq, Structural, Debug)]
pub struct Color565 {
    pub value: u16,
}

/// Packed value of a colour from its three channels, each taken modulo its range.
pub open spec fn pack565(r: int, g: int, b: int) -> int {
    (r % 32) * 2048 + (g % 64) * 32 + (b % 32)
}

/// The red channel of a packed colour (its top 5 bits).
pub open spec fn red_of(v: u16) -> int {
    v as int / 2048
}

/// The green channel of a packed colour (its middle 6 bits).
pub open spec fn green_of(v: u16) -> int {
    (v as int / 32) % 64
}

/// The blue channel of a packed colour (its low 5 bits).
pub open spec fn blue_of(v: u16) -> int {
    v as int % 32
}

impl Color565 {
    /// Builds a colour from its channels; each channel keeps only its low bits
    /// (5 for red and blue, 6 for green).
    pub fn new(r: u16, g: u16, b: u16) -> (c: Color565)
        ensures
            c.value == pack565(r as int, g as int, b as int),
    {
        let v: u16 = ((r & 0x1f) << 11u16) | ((g & 0x3f) << 5u16) | (b & 0x1f);
        assert(v == pack565(r as int, g as int, b as int)) by (bit_vector)
            requires v == ((r & 0x1f) << 11u16) | ((g & 0x3f) << 5u16) | (b & 0x1f);
        Color565 { value: v }
    }

    /// The red, green and blue channels of the colour.
    pub fn get_components(&self) -> (c: (u16, u16, u16))
        ensures
            c.0 == red_of(self.value),
            c.1 == green_of(self.value),
            c.2 == blue_of(self.value),
    {
        let v = self.value;
        let r: u16 = (v >> 11u16) & 0x1f;
        let g: u16 = (v >> 5u16) & 0x3f;
        let b: u16 = v & 0x1f;
        assert(r == v / 2048 && g == (v / 32) % 64 && b == v % 32) by (bit_vector)
            requires r == (v >> 11u16) & 0x1f, g == (v >> 5u16) & 0x3f, b == v & 0x1f;
        (r, g, b)
    }
}

} // verus!

verus! {

/// Black, the colour read outside a frame.
pub open spec fn black() -> Color565 {
    Color565 { value: 0 }
}

/// Black as a value.
pub fn color_black() -> (c: Color565)
    ensures
        c == black(),
{
    Color565 { value: 0 }
}

/// White as a value.
pub fn color_white() -> (c: Color565)
    ensures
        c.value == 0xffff,
{
    Color565 { value: 0xffff }
}

/// The colour half way between `a` and `b`, channel by channel (rounded down).
pub open spec fn mix_spec(a: Color565, b: Color565) -> Color565 {
    Color565 {
        value: pack565(
            (red_of(a.value) + red_of(b.value)) / 2,
            (green_of(a.value) + green_of(b.value)) / 2,
            (blue_of(a.value) + blue_of(b.value)) / 2,
        ) as u16,
    }
}

/// A colour built from its own channels is the same colour.
pub proof fn lemma_components_roundtrip(c: Color565)
    ensures
        pack565(red_of(c.value), green_of(c.value), blue_of(c.value)) == c.value,
{
    let v = c.value;
    assert(((v / 2048) % 32) * 2048 + (((v / 32) % 64) % 64) * 32 + (v % 32) % 32 == v) by (bit_vector);
}

/// The channels of a built colour are the ones given, each cut to its width.
pub proof fn lemma_components_of_new(r: u16, g: u16, b: u16)
    ensures
        red_of(pack565(r as int, g as int, b as int) as u16) == r % 32,
        green_of(pack565(r as int, g as int, b as int) as u16) == g % 64,
        blue_of(pack565(r as int, g as int, b as int) as u16) == b % 32,
{
    assert(((r % 32) * 2048 + (g % 64) * 32 + (b % 32)) as u16 / 2048 == r % 32) by (bit_vector);
    assert((((r % 32) * 2048 + (g % 64) * 32 + (b % 32)) as u16 / 32) % 64 == g % 64) by (bit_vector);
    assert(((r % 32) * 2048 + (g % 64) * 32 + (b % 32)) as u16 % 32 == b % 32) by (bit_vector);
}

/// Mixing a colour with itself gives it back, and mixing does not depend on the order.
pub proof fn lemma_mix_laws(a: Color565, b: Color565)
    ensures
        mix_spec(a, a) == a,
        mix_spec(a, b) == mix_spec(b, a),
{
    lemma_components_roundtrip(a);
    let v = a.value;
    assert(pack565((red_of(v) + red_of(v)) / 2, (green_of(v) + green_of(v)) / 2, (blue_of(v) + blue_of(v)) / 2)
        == pack565(red_of(v), green_of(v), blue_of(v)));
}

} // verus!
