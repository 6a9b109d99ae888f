//! Colours with 8-bit channels and their packed 32-bit form.
use vstd::prelude::*;

verus! {

/// Packed form `0xAARRGGBB`.
pub open spec fn packed(a: int, r: int, g: int, b: int) -> int {
    a * 0x100_0000 + r * 0x1_0000 + g * 0x100 + b
}

/// A colour; each channel runs from 0 (none) to 255 (full).
#[derive(Clone, Copy, Debug, PartialEq, Eq, Structural)]
pub struct Color {
    pub r: u8,
    pub g: u8,
    pub b: u8,
    pub a: u8,
}

impl Color {
    /// An opaque colour.
    pub fn from_rgb(r: u8, g: u8, b: u8) -> (c: Self)
        ensures
            c == (Color { r, g, b, a: 255 }),
    {
        Self { r, g, b, a: 255 }
    }

    /// The packed form `0xAARRGGBB`.
    pub fn to_u32(self) -> (r: u32)
        ensures
            r == packed(self.a as int, self.r as int, self.g as int, self.b as int),
    {
        (self.a as u32) * 0x100_0000 + (self.r as u32) * 0x1_0000 + (self.g as u32) * 0x100
            + self.b as u32
    }

    /// Every channel multiplied by `num / den`, rounded down.
    pub fn scale(self, num: u32, den: u32) -> (c: Self)
        requires
            0 < den,
            num <= den,
        ensures
            c.r == self.r * num / (den as int),
            c.g == self.g * num / (den as int),
            c.b == self.b * num / (den as int),
            c.a == self.a * num / (den as int),
    {
        Self {
            r: scale_channel(self.r, num, den),
            g: scale_channel(self.g, num, den),
            b: scale_channel(self.b, num, den),
            a: scale_channel(self.a, num, den),
        }
    }
}

fn scale_channel(c: u8, num: u32, den: u32) -> (r: u8)
    requires
        0 < den,
        num <= den,
    ensures
        r == c * num / (den as int),
{
    proof {
        vstd::arithmetic::mul::lemma_mul_inequality(num as int, den as int, c as int);
        assert(c * num == num * c && c * den == den * c) by (nonlinear_arith);
        vstd::arithmetic::div_mod::lemma_div_is_ordered(c * num, c * den, den as int);
        vstd::arithmetic::div_mod::lemma_div_by_multiple(c as int, den as int);
        assert(c * num <= 255 * den) by (nonlinear_arith)
            requires
                c <= 255,
                num <= den,
        ;
    }
    ((c as u64) * (num as u64) / (den as u64)) as u8
}

} // verus!
