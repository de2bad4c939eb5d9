//! The decode engine: runs the operation stream into a caller's buffer.
use crate::header::{Error, Header};
use crate::model::{
    arity, channel, decode_pixels, initial_model, min, op_count, op_fits, op_len, op_pixel,
    op_stores, run, step, Model, OP_RGB, OP_RGBA,
};
use crate::pixel::{slot_of, Pix};
use vstd::arithmetic::div_mod::lemma_fundamental_div_mod_converse;
use vstd::prelude::*;

verus! {

/// Number of pixels an image of header `h` has.
pub open spec fn pixel_count(h: Header) -> nat {
    (h.width * h.height) as nat
}

/// Number of bytes the decoded image of header `h` takes.
pub open spec fn image_len(h: Header, alpha: bool) -> int {
    pixel_count(h) * arity(alpha)
}

/// The `required` figure reported for an image of `len` bytes: `len`, or
/// `usize::MAX` where `len` does not fit in memory at all.
pub open spec fn clamp_usize(len: int) -> usize {
    if len > usize::MAX {
        usize::MAX
    } else {
        len as usize
    }
}

/// Byte `k` of the raster that `ps` gives with `c` channels per pixel.
pub open spec fn raster_byte(ps: Seq<Pix>, c: int, k: int) -> u8 {
    channel(ps[k / c], k % c)
}

proof fn lemma_in_pixel(k: int, i: int, c: int)
    requires
        c > 0,
        i * c <= k < i * c + c,
    ensures
        k / c == i,
        k % c == k - i * c,
{
    lemma_fundamental_div_mod_converse(k, c, i, k - i * c);
}

proof fn lemma_before_pixel(k: int, n: int, c: int)
    requires
        c > 0,
        0 <= k < n * c,
    ensures
        0 <= k / c < n,
{
    assert(0 <= k / c < n) by (nonlinear_arith)
        requires
            c > 0,
            0 <= k < n * c,
    ;
}

/// Writes the three or four channels of `p` at `ox`.
fn put_pixel(dest: &mut [u8], ox: usize, p: Pix, alpha: bool)
    requires
        ox + arity(alpha) <= old(dest)@.len(),
    ensures
        final(dest)@.len() == old(dest)@.len(),
        forall|k: int|
            0 <= k < final(dest)@.len() && !(ox <= k < ox + arity(alpha))
                ==> #[trigger] final(dest)@[k] == old(dest)@[k],
        forall|j: int|
            0 <= j < arity(alpha) ==> #[trigger] final(dest)@[ox + j] == channel(p, j),
{
    dest[ox] = p.r;
    dest[ox + 1] = p.g;
    dest[ox + 2] = p.b;
    if alpha {
        dest[ox + 3] = p.a;
    }
}

/// Adds `x` and `d - bias` to `v` with 8-bit wrap-around.
fn add_wrap(v: u8, x: u8, d: u8, bias: u16) -> (r: u8)
    requires
        bias <= 256,
    ensures
        r == ((v + x + d - bias) % 256) as u8,
{
    ((v as u16 + x as u16 + d as u16 + (256 - bias)) % 256) as u8
}

/// Parses the operation at `ix`: its pixel, its length in bytes and how many
/// copies of the pixel it asks for; `None` where it runs past the end of `src`.
fn read_op(src: &[u8], ix: usize, prev: Pix, cache: &[Pix; 64]) -> (r: Option<(Pix, usize, usize)>)
    requires
        ix < src@.len(),
    ensures
        match r {
            None => ix + op_len(src@[ix as int]) > src@.len(),
            Some((p, len, cnt)) => {
                &&& ix + op_len(src@[ix as int]) <= src@.len()
                &&& len == op_len(src@[ix as int])
                &&& cnt == op_count(src@[ix as int])
                &&& p == op_pixel(src@, ix as int, prev, cache@)
            },
        },
{
    let tag = src[ix];
    let len: usize = if tag == OP_RGB {
        4
    } else if tag == OP_RGBA {
        5
    } else if tag / 64 == 2 {
        2
    } else {
        1
    };
    if len > src.len() - ix {
        return None;
    }
    let p: Pix = if tag == OP_RGB {
        Pix::new(src[ix + 1], src[ix + 2], src[ix + 3], prev.a)
    } else if tag == OP_RGBA {
        Pix::new(src[ix + 1], src[ix + 2], src[ix + 3], src[ix + 4])
    } else if tag / 64 == 0 {
        cache[(tag % 64) as usize]
    } else if tag / 64 == 1 {
        Pix::new(
            add_wrap(prev.r, (tag / 16) % 4, 0, 2),
            add_wrap(prev.g, (tag / 4) % 4, 0, 2),
            add_wrap(prev.b, tag % 4, 0, 2),
            prev.a,
        )
    } else if tag / 64 == 2 {
        let next = src[ix + 1];
        Pix::new(
            add_wrap(prev.r, tag % 64, next / 16, 40),
            add_wrap(prev.g, tag % 64, 0, 32),
            add_wrap(prev.b, tag % 64, next % 16, 40),
            prev.a,
        )
    } else {
        prev
    };
    let cnt: usize = if tag != OP_RGB && tag != OP_RGBA && tag / 64 == 3 {
        (tag % 64) as usize + 1
    } else {
        1
    };
    Some((p, len, cnt))
}

/// The decoder's state between two operations: the previous pixel, the
/// color cache and the read position in the operation stream.
pub struct DecodeState {
    pub prev: Pix,
    pub cache: [Pix; 64],
    pub pos: usize,
}

impl DecodeState {
    /// This state, with `out` as the pixels emitted so far.
    pub open spec fn model(&self, out: Seq<Pix>) -> Model {
        Model { prev: self.prev, cache: self.cache@, pos: self.pos as int, out }
    }

    /// The state before the first operation.
    pub fn new() -> (s: DecodeState)
        ensures
            s.model(seq![]) == initial_model(),
    {
        let s = DecodeState {
            prev: Pix::new(0, 0, 0, 255),
            cache: [Pix::new(0, 0, 0, 0); 64],
            pos: 0,
        };
        proof {
            assert(s.cache@ =~= initial_model().cache);
        }
        s
    }

    /// Runs the operation at `pos` of `src` for an image that still lacks
    /// `remaining` pixels: moves past it, stores its pixel in the cache where
    /// the operation says so, and returns the pixel with how many copies of it
    /// to emit. `None`, with the state unchanged, where no whole operation
    /// starts at `pos`.
    pub fn next_op(&mut self, src: &[u8], remaining: usize) -> (r: Option<(Pix, usize)>)
        requires
            old(self).pos <= src@.len(),
        ensures
            final(self).pos <= src@.len(),
            match r {
                None => {
                    &&& *final(self) == *old(self)
                    &&& !op_fits(src@, old(self).model(seq![]))
                },
                Some((p, n)) => {
                    let tag = src@[old(self).pos as int];
                    &&& op_fits(src@, old(self).model(seq![]))
                    &&& p == op_pixel(src@, old(self).pos as int, old(self).prev, old(self).cache@)
                    &&& n == min(op_count(tag), remaining as int)
                    &&& final(self).prev == p
                    &&& final(self).pos == old(self).pos + op_len(tag)
                    &&& final(self).cache@ == if op_stores(tag) {
                        old(self).cache@.update(slot_of(p), p)
                    } else {
                        old(self).cache@
                    }
                },
            },
    {
        if self.pos >= src.len() {
            return None;
        }
        let (p, len, cnt) = match read_op(src, self.pos, self.prev, &self.cache) {
            Some(op) => op,
            None => {
                return None;
            },
        };
        let tag = src[self.pos];
        if tag == OP_RGB || tag == OP_RGBA || tag / 64 == 1 || tag / 64 == 2 {
            self.cache[p.hash() as usize] = p;
        }
        self.prev = p;
        self.pos = self.pos + len;
        let n: usize = if cnt <= remaining {
            cnt
        } else {
            remaining
        };
        Some((p, n))
    }
}

/// Writes `n` copies of `p` after the raster of `out`, which ends at `ox`.
fn put_run(
    dest: &mut [u8],
    ox: usize,
    p: Pix,
    n: usize,
    alpha: bool,
    Ghost(out): Ghost<Seq<Pix>>,
) -> (ox2: usize)
    requires
        ox == out.len() * arity(alpha),
        ox + n * arity(alpha) <= old(dest)@.len(),
        forall|k: int|
            0 <= k < ox ==> #[trigger] old(dest)@[k] == raster_byte(out, arity(alpha), k),
    ensures
        final(dest)@.len() == old(dest)@.len(),
        ox2 == ox + n * arity(alpha),
        forall|k: int|
            ox2 <= k < old(dest)@.len() ==> #[trigger] final(dest)@[k] == old(dest)@[k],
        forall|k: int|
            0 <= k < ox2 ==> #[trigger] final(dest)@[k] == raster_byte(
                out + Seq::new(n as nat, |q: int| p),
                arity(alpha),
                k,
            ),
{
    let c: usize = if alpha {
        4
    } else {
        3
    };
    let dl: usize = dest.len();
    let ghost len0 = dest@.len();
    let ghost d0 = dest@;
    let ghost cur: Seq<Pix> = out;
    let mut o: usize = ox;
    let mut i: usize = 0;
    while i < n
        invariant
            c == arity(alpha),
            dest@.len() == len0,
            len0 == dl,
            ox + n * c <= len0,
            0 <= i <= n,
            cur == out + Seq::new(i as nat, |q: int| p),
            o == cur.len() * c,
            o == ox + i * c,
            forall|k: int| 0 <= k < o ==> #[trigger] dest@[k] == raster_byte(cur, c as int, k),
            forall|k: int| o <= k < len0 ==> #[trigger] dest@[k] == d0[k],
        decreases n - i,
    {
        proof {
            assert(ox + i * c + c <= ox + n * c) by (nonlinear_arith)
                requires
                    i + 1 <= n,
            ;
            assert(ox + (i + 1) * c == ox + i * c + c) by (nonlinear_arith);
            assert((cur.len() + 1) * c == cur.len() * c + c) by (nonlinear_arith);
        }
        let ghost dest0 = dest@;
        let ghost cur0 = cur;
        put_pixel(dest, o, p, alpha);
        proof {
            cur = cur + seq![p];
            assert(cur =~= out + Seq::new((i + 1) as nat, |q: int| p));
            assert forall|k: int| 0 <= k < o + c implies #[trigger] dest@[k] == raster_byte(
                cur,
                c as int,
                k,
            ) by {
                if k < o {
                    lemma_before_pixel(k, cur0.len() as int, c as int);
                    assert(dest@[k] == dest0[k]);
                    assert(cur[k / (c as int)] == cur0[k / (c as int)]);
                } else {
                    lemma_in_pixel(k, cur0.len() as int, c as int);
                    assert(dest@[o + (k - o)] == channel(p, k - o));
                }
            }
        }
        o = o + c;
        i = i + 1;
    }
    o
}

/// Decodes the operation stream `src` (the bytes after the header) of an
/// image described by `header` into `dest`, with four channels per pixel
/// where `ALPHA` holds and three otherwise.
#[verifier::rlimit(40)]
pub fn decode_impl<const ALPHA: bool>(src: &[u8], dest: &mut [u8], header: Header) -> (r: Result<
    (),
    Error,
>)
    ensures
        final(dest)@.len() == old(dest)@.len(),
        match r {
            Ok(()) => {
                &&& old(dest)@.len() >= image_len(header, ALPHA)
                &&& decode_pixels(src@, pixel_count(header)) matches Some(ps)
                &&& final(dest)@.subrange(0, image_len(header, ALPHA)) == crate::model::pixel_bytes(
                    ps,
                    ALPHA,
                )
                &&& final(dest)@.subrange(image_len(header, ALPHA), old(dest)@.len() as int)
                    == old(dest)@.subrange(image_len(header, ALPHA), old(dest)@.len() as int)
            },
            Err(Error::BufferTooSmall { required, size }) => {
                &&& old(dest)@.len() < image_len(header, ALPHA)
                &&& size == old(dest)@.len()
                &&& required == clamp_usize(image_len(header, ALPHA))
                &&& final(dest)@ == old(dest)@
            },
            Err(Error::IncompleteImage) => {
                &&& old(dest)@.len() >= image_len(header, ALPHA)
                &&& decode_pixels(src@, pixel_count(header)) is None
            },
            Err(Error::IncorrectMagic(_)) => false,
        },
{
    let c: usize = if ALPHA {
        4
    } else {
        3
    };
    let w = header.width as u128;
    let h = header.height as u128;
    proof {
        assert(w * h <= 0xffff_ffffu128 * 0xffff_ffffu128) by (nonlinear_arith)
            requires
                w <= 0xffff_ffffu128,
                h <= 0xffff_ffffu128,
        ;
        assert(w * h * (c as u128) <= 0xffff_ffffu128 * 0xffff_ffffu128 * 4) by (nonlinear_arith)
            requires
                w * h <= 0xffff_ffffu128 * 0xffff_ffffu128,
                (c as u128) <= 4,
        ;
    }
    let needed: u128 = w * h * (c as u128);
    if (dest.len() as u128) < needed {
        let required: usize = if needed > usize::MAX as u128 {
            usize::MAX
        } else {
            needed as usize
        };
        return Err(Error::buff(dest.len(), required));
    }
    proof {
        assert(w * h <= w * h * (c as u128)) by (nonlinear_arith)
            requires
                c >= 3,
        ;
    }
    let total: usize = (w * h) as usize;
    let ghost tot: nat = total as nat;
    let ghost len0: int = dest@.len() as int;
    let ghost start: Option<Model> = run(src@, initial_model(), tot);

    let mut st = DecodeState::new();
    let mut ox: usize = 0;
    let mut count: usize = 0;
    let ghost mut out: Seq<Pix> = seq![];

    while count < total
        invariant
            c == arity(ALPHA),
            tot == total,
            tot == pixel_count(header),
            total * c == image_len(header, ALPHA),
            start == run(src@, initial_model(), pixel_count(header)),
            total * c <= len0,
            dest@.len() == len0,
            len0 == old(dest)@.len(),
            st.pos <= src@.len(),
            count == out.len(),
            count <= total,
            ox == count * c,
            run(src@, st.model(out), tot) == start,
            forall|k: int| 0 <= k < ox ==> #[trigger] dest@[k] == raster_byte(out, c as int, k),
            forall|k: int| ox <= k < len0 ==> #[trigger] dest@[k] == old(dest)@[k],
        decreases total - count,
    {
        let ghost m = st.model(out);
        let (p, n) = match st.next_op(src, total - count) {
            Some(op) => op,
            None => {
                return Err(Error::IncompleteImage);
            },
        };
        proof {
            assert(ox + n * c <= total * c) by (nonlinear_arith)
                requires
                    ox == count * c,
                    count + n <= total,
            ;
            assert((count + n) * c == count * c + n * c) by (nonlinear_arith);
        }
        ox = put_run(dest, ox, p, n, ALPHA, Ghost(out));
        proof {
            out = out + Seq::new(n as nat, |q: int| p);
        }
        count = count + n;
        proof {
            let m2 = step(src@, m, tot);
            assert(out =~= m2.out);
            assert(st.model(out) == m2);
            assert(run(src@, m, tot) == run(src@, m2, tot));
        }
    }
    proof {
        let fin = st.model(out);
        assert(run(src@, fin, tot) == Some(fin));
        assert(dest@.subrange(0, ox as int) =~= crate::model::pixel_bytes(out, ALPHA));
        assert(dest@.subrange(ox as int, len0) =~= old(dest)@.subrange(ox as int, len0));
    }
    Ok(())
}

} // verus!
