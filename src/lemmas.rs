//! Properties of the decoder that relate several states or several calls.
use crate::decode::{image_len, pixel_count};
use crate::model::{
    op_pixel,
    decode_pixels, empty_pix, initial_model, op_fits, op_stores, run, step, tag_class, Model,
    OP_RGB, OP_RGBA,
};
use crate::pixel::{slot_of, Pix};
use crate::{file_bytes, stream_of};
use crate::header::Header;
use vstd::arithmetic::div_mod::lemma_fundamental_div_mod_converse;
use vstd::prelude::*;

verus! {

/// A cache in which every slot holds either its initial transparent black or
/// a pixel that hashes to that very slot.
pub open spec fn cache_consistent(cache: Seq<Pix>) -> bool {
    &&& cache.len() == 64
    &&& forall|i: int|
        0 <= i < 64 ==> #[trigger] cache[i] == empty_pix() || slot_of(cache[i]) == i
}

/// The cache starts consistent, and every operation keeps it so: a slot is
/// only ever overwritten with a pixel whose hash names that slot, and the
/// index and run operations leave the cache as it was.
pub proof fn lemma_cache_consistent(src: Seq<u8>, m: Model, total: nat)
    requires
        cache_consistent(m.cache),
        op_fits(src, m),
    ensures
        cache_consistent(initial_model().cache),
        cache_consistent(step(src, m, total).cache),
        !op_stores(src[m.pos]) ==> step(src, m, total).cache == m.cache,
{
    let p = step(src, m, total).prev;
    assert(0 <= slot_of(p) < 64);
}

proof fn lemma_run_keeps_cache(src: Seq<u8>, m: Model, total: nat)
    requires
        cache_consistent(m.cache),
        run(src, m, total) is Some,
    ensures
        cache_consistent(run(src, m, total)->Some_0.cache),
    decreases src.len() - m.pos,
{
    if m.out.len() < total {
        lemma_cache_consistent(src, m, total);
        lemma_run_keeps_cache(src, step(src, m, total), total);
    }
}

/// A decode that gives an image ends with a consistent cache.
pub proof fn lemma_final_cache_consistent(src: Seq<u8>, total: nat)
    requires
        run(src, initial_model(), total) is Some,
    ensures
        cache_consistent(run(src, initial_model(), total)->Some_0.cache),
{
    assert(cache_consistent(initial_model().cache));
    lemma_run_keeps_cache(src, initial_model(), total);
}

proof fn lemma_run_prefix(src: Seq<u8>, k: int, m: Model, total: nat)
    requires
        0 <= k <= src.len(),
        run(src.subrange(0, k), m, total) is Some,
    ensures
        run(src, m, total) == run(src.subrange(0, k), m, total),
    decreases k - m.pos,
{
    let pre = src.subrange(0, k);
    if m.out.len() < total {
        assert(op_fits(pre, m));
        assert(op_fits(src, m));
        assert(pre[m.pos] == src[m.pos]);
        assert forall|i: int| 0 <= i < k implies #[trigger] pre[i] == src[i] by {}
        assert(step(pre, m, total) == step(src, m, total));
        lemma_run_prefix(src, k, step(src, m, total), total);
    }
}

/// A stream cut short at any byte either fails to give the image, or gives
/// exactly the pixels of the whole stream: the cut never changes a pixel.
pub proof fn lemma_truncation(src: Seq<u8>, k: int, total: nat)
    requires
        0 <= k <= src.len(),
    ensures
        decode_pixels(src.subrange(0, k), total) is None
            || decode_pixels(src.subrange(0, k), total) == decode_pixels(src, total),
{
    if run(src.subrange(0, k), initial_model(), total) is Some {
        lemma_run_prefix(src, k, initial_model(), total);
    }
}

/// Decoding a file to three and to four channels gives the same red, green and
/// blue bytes for every pixel; the fourth channel carries each pixel's alpha.
pub proof fn lemma_channel_projection(data: Seq<u8>, h: Header)
    requires
        decode_pixels(stream_of(data), pixel_count(h)) is Some,
    ensures
        file_bytes(data, h, false).len() == image_len(h, false),
        file_bytes(data, h, true).len() == image_len(h, true),
        forall|i: int, j: int|
            0 <= i < pixel_count(h) && 0 <= j < 3 ==> #[trigger] file_bytes(data, h, false)[3 * i
                + j] == #[trigger] file_bytes(data, h, true)[4 * i + j],
        forall|i: int|
            0 <= i < pixel_count(h) ==> #[trigger] file_bytes(data, h, true)[4 * i + 3]
                == decode_pixels(stream_of(data), pixel_count(h))->Some_0[i].a,
{
    let ps = decode_pixels(stream_of(data), pixel_count(h))->Some_0;
    lemma_pixels_len(stream_of(data), pixel_count(h));
    assert forall|i: int, j: int| 0 <= i < pixel_count(h) && 0 <= j < 3 implies #[trigger] file_bytes(
        data,
        h,
        false,
    )[3 * i + j] == #[trigger] file_bytes(data, h, true)[4 * i + j] by {
        lemma_fundamental_div_mod_converse(3 * i + j, 3, i, j);
        lemma_fundamental_div_mod_converse(4 * i + j, 4, i, j);
        assert(3 * i + j < pixel_count(h) * 3) by (nonlinear_arith)
            requires i < pixel_count(h), j < 3;
        assert(4 * i + j < pixel_count(h) * 4) by (nonlinear_arith)
            requires i < pixel_count(h), j < 3;
    }
    assert forall|i: int| 0 <= i < pixel_count(h) implies #[trigger] file_bytes(data, h, true)[4 * i
        + 3] == ps[i].a by {
        lemma_fundamental_div_mod_converse(4 * i + 3, 4, i, 3);
        assert(4 * i + 3 < pixel_count(h) * 4) by (nonlinear_arith)
            requires i < pixel_count(h);
    }
}

proof fn lemma_run_len(src: Seq<u8>, m: Model, total: nat)
    requires
        m.out.len() <= total,
        run(src, m, total) is Some,
    ensures
        run(src, m, total)->Some_0.out.len() == total,
    decreases src.len() - m.pos,
{
    if m.out.len() < total {
        lemma_run_len(src, step(src, m, total), total);
    }
}

/// A stream that gives an image gives exactly as many pixels as it has.
pub proof fn lemma_pixels_len(src: Seq<u8>, total: nat)
    requires
        decode_pixels(src, total) is Some,
    ensures
        decode_pixels(src, total)->Some_0.len() == total,
{
    lemma_run_len(src, initial_model(), total);
}

proof fn lemma_run_bound(src: Seq<u8>, m: Model, total: nat)
    requires
        0 <= m.pos <= src.len(),
        m.out.len() <= 62 * m.pos,
        m.out.len() <= total,
        run(src, m, total) is Some,
    ensures
        total <= 62 * src.len(),
    decreases src.len() - m.pos,
{
    if m.out.len() < total {
        let tag = src[m.pos];
        assert(crate::model::op_count(tag) <= 62);
        lemma_run_bound(src, step(src, m, total), total);
    }
}

/// Every operation takes at least one byte and emits at most 62 pixels, so a
/// stream of `n` bytes gives an image of at most `62 * n` pixels.
pub proof fn lemma_pixels_bound(src: Seq<u8>, total: nat)
    requires
        decode_pixels(src, total) is Some,
    ensures
        total <= 62 * src.len(),
{
    lemma_run_bound(src, initial_model(), total);
}

/// The latest pixel of `h` whose hash names slot `s`, or transparent black
/// where `h` holds none.
pub open spec fn latest_in_slot(h: Seq<Pix>, s: int) -> Pix
    decreases h.len(),
{
    if h.len() == 0 {
        empty_pix()
    } else if slot_of(h.last()) == s {
        h.last()
    } else {
        latest_in_slot(h.drop_last(), s)
    }
}

/// The state after the first `k` operations of `src` (fewer where decoding
/// stops earlier), with every pixel stored in the cache so far, in order.
pub open spec fn after_ops(src: Seq<u8>, total: nat, k: nat) -> (Model, Seq<Pix>)
    decreases k,
{
    if k == 0 {
        (initial_model(), seq![])
    } else {
        let (m, h) = after_ops(src, total, (k - 1) as nat);
        if m.out.len() < total && op_fits(src, m) {
            let m2 = step(src, m, total);
            (m2, if op_stores(src[m.pos]) {
                h.push(m2.prev)
            } else {
                h
            })
        } else {
            (m, h)
        }
    }
}

/// After any number of operations, each cache slot holds the latest stored
/// pixel whose hash names that slot, or transparent black where none was
/// stored; so an index operation emits exactly that pixel. The states
/// `after_ops` walks through are those of the decode itself.
pub proof fn lemma_cache_latest(src: Seq<u8>, total: nat, k: nat)
    ensures
        run(src, after_ops(src, total, k).0, total) == run(src, initial_model(), total),
        after_ops(src, total, k).0.cache.len() == 64,
        forall|s: int|
            0 <= s < 64 ==> #[trigger] after_ops(src, total, k).0.cache[s] == latest_in_slot(
                after_ops(src, total, k).1,
                s,
            ),
        ({
            let (m, h) = after_ops(src, total, k);
            let tag = src[m.pos];
            op_fits(src, m) && tag != OP_RGB && tag != OP_RGBA && tag_class(tag) == 0
                ==> op_pixel(src, m.pos, m.prev, m.cache) == latest_in_slot(h, (tag % 64) as int)
        }),
    decreases k,
{
    if k > 0 {
        lemma_cache_latest(src, total, (k - 1) as nat);
        let (m, h) = after_ops(src, total, (k - 1) as nat);
        if m.out.len() < total && op_fits(src, m) {
            let m2 = step(src, m, total);
            let p = m2.prev;
            assert(0 <= slot_of(p) < 64);
            if op_stores(src[m.pos]) {
                let h2 = h.push(p);
                assert(h2.drop_last() =~= h);
                assert forall|s: int| 0 <= s < 64 implies #[trigger] m2.cache[s] == latest_in_slot(
                    h2,
                    s,
                ) by {
                    assert(h2.last() == p);
                }
            }
        }
    }
    let (m, h) = after_ops(src, total, k);
    let tag = src[m.pos];
    if op_fits(src, m) && tag != OP_RGB && tag != OP_RGBA && tag_class(tag) == 0 {
        assert(0 <= ((tag % 64) as int) < 64);
        assert(m.cache[(tag % 64) as int] == latest_in_slot(h, (tag % 64) as int));
    }
}

/// The alpha of the pixel an operation gives: the literal alpha of an RGBA
/// operation, the cached pixel's alpha for an index operation, and the
/// previous pixel's alpha for every other operation, starting from 255.
/// Every copy the operation emits carries that pixel.
pub proof fn lemma_alpha_rule(src: Seq<u8>, m: Model, total: nat)
    requires
        op_fits(src, m),
        m.out.len() <= total,
    ensures
        initial_model().prev.a == 255,
        ({
            let tag = src[m.pos];
            let a = step(src, m, total).prev.a;
            &&& tag == OP_RGBA ==> a == src[m.pos + 4]
            &&& tag != OP_RGB && tag != OP_RGBA && tag_class(tag) == 0 ==> a == m.cache[(tag
                % 64) as int].a
            &&& tag == OP_RGB || (tag != OP_RGBA && tag_class(tag) != 0) ==> a == m.prev.a
        }),
        forall|i: int|
            0 <= i < m.out.len() ==> #[trigger] step(src, m, total).out[i] == m.out[i],
        forall|i: int|
            m.out.len() <= i < step(src, m, total).out.len() ==> #[trigger] step(
                src,
                m,
                total,
            ).out[i] == step(src, m, total).prev,
{
}

} // verus!
