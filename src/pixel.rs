//! Pixels and the color-cache index.
use vstd::prelude::*;

verus! {

/// One decoded pixel, always held with four channels.
#[derive(Clone, Copy, Debug, PartialEq, Eq, Structural)]
pub struct Pix {
    pub r: u8,
    pub g: u8,
    pub b: u8,
    pub a: u8,
}

/// Cache slot of a pixel with the given channels. The format computes the sum
/// with 8-bit wrapping arithmetic; since 64 divides 256 the slot is the same.
pub open spec fn hash_spec(r: u8, g: u8, b: u8, a: u8) -> int {
    (r * 3 + g * 5 + b * 7 + a * 11) % 64
}

/// Cache slot of a pixel.
pub open spec fn slot_of(p: Pix) -> int {
    hash_spec(p.r, p.g, p.b, p.a)
}

/// The cache slot `(r*3 + g*5 + b*7 + a*11) mod 64`.
pub fn hash(r: u8, g: u8, b: u8, a: u8) -> (h: u8)
    ensures
        h as int == hash_spec(r, g, b, a),
        h < 64,
{
    let sum: u32 = r as u32 * 3 + g as u32 * 5 + b as u32 * 7 + a as u32 * 11;
    (sum % 64) as u8
}

impl Pix {
    pub fn new(r: u8, g: u8, b: u8, a: u8) -> (p: Pix)
        ensures
            p == (Pix { r, g, b, a }),
    {
        Pix { r, g, b, a }
    }

    /// The cache slot of this pixel.
    pub fn hash(&self) -> (h: u8)
        ensures
            h as int == slot_of(*self),
            h < 64,
    {
        hash(self.r, self.g, self.b, self.a)
    }
}

} // verus!
