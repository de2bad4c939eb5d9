//! The operation stream as a state machine over mathematical values: what one
//! operation does to the previous pixel, the color cache and the output.
use crate::pixel::{slot_of, Pix};
use vstd::prelude::*;

verus! {

/// Tag of the operation that gives a literal red, green and blue.
pub const OP_RGB: u8 = 0xfe;

/// Tag of the operation that gives a literal pixel with alpha.
pub const OP_RGBA: u8 = 0xff;

/// The decoder's state between two operations.
pub struct Model {
    /// The pixel emitted last.
    pub prev: Pix,
    /// The 64-slot color cache.
    pub cache: Seq<Pix>,
    /// Read position in the operation stream.
    pub pos: int,
    /// Every pixel emitted so far, in raster order.
    pub out: Seq<Pix>,
}

/// Transparent black, the initial content of every cache slot.
pub open spec fn empty_pix() -> Pix {
    Pix { r: 0, g: 0, b: 0, a: 0 }
}

/// The previous pixel before the first operation: opaque black.
pub open spec fn start_pix() -> Pix {
    Pix { r: 0, g: 0, b: 0, a: 255 }
}

/// State before the first operation.
pub open spec fn initial_model() -> Model {
    Model { prev: start_pix(), cache: Seq::new(64, |i: int| empty_pix()), pos: 0, out: seq![] }
}

/// Operation class given by the two top bits of a tag other than the two literal tags:
/// 0 cache index, 1 small delta, 2 luma delta, 3 run.
pub open spec fn tag_class(tag: u8) -> int {
    (tag / 64) as int
}

/// Number of stream bytes an operation takes, its tag included.
pub open spec fn op_len(tag: u8) -> int {
    if tag == OP_RGB {
        4
    } else if tag == OP_RGBA {
        5
    } else if tag_class(tag) == 2 {
        2
    } else {
        1
    }
}

/// A channel value reduced to 8 bits with wrap-around.
pub open spec fn wrap8(x: int) -> u8 {
    (x % 256) as u8
}

/// The pixel produced by the operation at `pos`, given the previous pixel
/// and the cache. Meaningful where the whole operation lies inside `src`.
pub open spec fn op_pixel(src: Seq<u8>, pos: int, prev: Pix, cache: Seq<Pix>) -> Pix {
    let tag = src[pos];
    if tag == OP_RGB {
        Pix { r: src[pos + 1], g: src[pos + 2], b: src[pos + 3], a: prev.a }
    } else if tag == OP_RGBA {
        Pix { r: src[pos + 1], g: src[pos + 2], b: src[pos + 3], a: src[pos + 4] }
    } else if tag_class(tag) == 0 {
        cache[(tag % 64) as int]
    } else if tag_class(tag) == 1 {
        Pix {
            r: wrap8(prev.r + (tag / 16) % 4 - 2),
            g: wrap8(prev.g + (tag / 4) % 4 - 2),
            b: wrap8(prev.b + tag % 4 - 2),
            a: prev.a,
        }
    } else if tag_class(tag) == 2 {
        let dg = tag % 64 - 32;
        let next = src[pos + 1];
        Pix {
            r: wrap8(prev.r + dg + next / 16 - 8),
            g: wrap8(prev.g + dg),
            b: wrap8(prev.b + dg + next % 16 - 8),
            a: prev.a,
        }
    } else {
        prev
    }
}

/// How many copies of its pixel an operation emits (before clamping to the image).
pub open spec fn op_count(tag: u8) -> int {
    if tag != OP_RGB && tag != OP_RGBA && tag_class(tag) == 3 {
        tag % 64 + 1
    } else {
        1
    }
}

/// Whether an operation stores its pixel in the cache: all but index and run.
pub open spec fn op_stores(tag: u8) -> bool {
    tag == OP_RGB || tag == OP_RGBA || tag_class(tag) == 1 || tag_class(tag) == 2
}

/// Smaller of two integers.
pub open spec fn min(a: int, b: int) -> int {
    if a <= b {
        a
    } else {
        b
    }
}

/// The state after the operation at `m.pos`, for an image of `total` pixels:
/// a run never emits past the last pixel.
pub open spec fn step(src: Seq<u8>, m: Model, total: nat) -> Model {
    let tag = src[m.pos];
    let p = op_pixel(src, m.pos, m.prev, m.cache);
    let n = min(op_count(tag), total - m.out.len());
    Model {
        prev: p,
        cache: if op_stores(tag) {
            m.cache.update(slot_of(p), p)
        } else {
            m.cache
        },
        pos: m.pos + op_len(tag),
        out: m.out + Seq::new(n as nat, |i: int| p),
    }
}

/// Whether the operation at `m.pos` lies wholly inside `src`.
pub open spec fn op_fits(src: Seq<u8>, m: Model) -> bool {
    0 <= m.pos < src.len() && m.pos + op_len(src[m.pos]) <= src.len()
}

/// Runs operations from `m` until `total` pixels are out (`Some` of the final
/// state) or the stream cannot supply the next whole operation (`None`).
pub open spec fn run(src: Seq<u8>, m: Model, total: nat) -> Option<Model>
    decreases src.len() - m.pos,
{
    if m.out.len() >= total {
        Some(m)
    } else if !op_fits(src, m) {
        None
    } else {
        run(src, step(src, m, total), total)
    }
}

/// The pixels that the operation stream `src` gives for an image of `total`
/// pixels, or `None` where the stream ends first.
pub open spec fn decode_pixels(src: Seq<u8>, total: nat) -> Option<Seq<Pix>> {
    match run(src, initial_model(), total) {
        Some(m) => Some(m.out),
        None => None,
    }
}

/// Channel `j` of a pixel: red, green, blue, then alpha.
pub open spec fn channel(p: Pix, j: int) -> u8 {
    if j == 0 {
        p.r
    } else if j == 1 {
        p.g
    } else if j == 2 {
        p.b
    } else {
        p.a
    }
}

/// Bytes per output pixel.
pub open spec fn arity(alpha: bool) -> int {
    if alpha {
        4
    } else {
        3
    }
}

/// The raw bytes of `ps` in raster order, with three or four channels each.
pub open spec fn pixel_bytes(ps: Seq<Pix>, alpha: bool) -> Seq<u8> {
    Seq::new(
        (ps.len() * arity(alpha)) as nat,
        |k: int| channel(ps[k / arity(alpha)], k % arity(alpha)),
    )
}

} // verus!
