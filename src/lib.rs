//! Decoder for the "qoif" lossless image format: a 14-byte header followed by
//! a stream of operations that rebuild the pixels from the previous pixel, a
//! 64-slot color cache, small deltas, literal values and runs.
use vstd::prelude::*;

pub mod decode;
pub mod header;
pub mod lemmas;
pub mod model;
pub mod pixel;

pub use decode::decode_impl;
pub use header::{decode_header, Error, Header};

use decode::{clamp_usize, image_len, pixel_count};
use header::{parse_header_spec, HEADER_LEN};
use model::{decode_pixels, pixel_bytes};

verus! {

/// The operation stream of a file: everything after the header.
pub open spec fn stream_of(data: Seq<u8>) -> Seq<u8> {
    data.subrange(14, data.len() as int)
}

/// Whether a file asks for four output channels by its own header.
pub open spec fn native_alpha(data: Seq<u8>) -> bool {
    data.len() >= 14 && data[12] == 4
}

/// What decoding the file `data` into a caller's buffer of `size` bytes gives.
pub open spec fn decode_into_spec(data: Seq<u8>, size: int, alpha: bool) -> Result<Header, Error> {
    match parse_header_spec(data) {
        Err(e) => Err(e),
        Ok(h) => if size < image_len(h, alpha) {
            Err(
                Error::BufferTooSmall {
                    required: clamp_usize(image_len(h, alpha)),
                    size: size as usize,
                },
            )
        } else if decode_pixels(stream_of(data), pixel_count(h)) is None {
            Err(Error::IncompleteImage)
        } else {
            Ok(h)
        },
    }
}

/// The raw bytes that a decodable file gives.
pub open spec fn file_bytes(data: Seq<u8>, h: Header, alpha: bool) -> Seq<u8> {
    pixel_bytes(decode_pixels(stream_of(data), pixel_count(h))->Some_0, alpha)
}

/// What decoding the file `data` into a new buffer gives. An image too large
/// to address is reported as a buffer of size 0 that would need `usize::MAX`.
pub open spec fn decode_vec_spec(data: Seq<u8>, alpha: bool) -> Result<(Header, Seq<u8>), Error> {
    match parse_header_spec(data) {
        Err(e) => Err(e),
        Ok(h) => if image_len(h, alpha) > usize::MAX {
            Err(Error::BufferTooSmall { required: usize::MAX, size: 0 })
        } else {
            match decode_pixels(stream_of(data), pixel_count(h)) {
                None => Err(Error::IncompleteImage),
                Some(ps) => Ok((h, pixel_bytes(ps, alpha))),
            }
        },
    }
}

fn decode_file_into<const ALPHA: bool>(data: &[u8], buf: &mut [u8]) -> (r: Result<Header, Error>)
    ensures
        final(buf)@.len() == old(buf)@.len(),
        r == decode_into_spec(data@, old(buf)@.len() as int, ALPHA),
        r matches Ok(h) ==> final(buf)@.subrange(0, image_len(h, ALPHA))
            == file_bytes(data@, h, ALPHA),
        r matches Ok(h) ==> final(buf)@.subrange(image_len(h, ALPHA), old(buf)@.len() as int)
            == old(buf)@.subrange(image_len(h, ALPHA), old(buf)@.len() as int),
        r is Err && r != Err::<Header, Error>(Error::IncompleteImage) ==> final(buf)@ == old(buf)@,
{
    let header = decode_header(data)?;
    let src = vstd::slice::slice_subrange(data, HEADER_LEN, data.len());
    decode_impl::<ALPHA>(src, buf, header)?;
    Ok(header)
}

/// Decodes the file `data` into `buf`, with as many channels as its header
/// names: four where it says 4, three otherwise.
pub fn decode_to_buf(data: &[u8], buf: &mut [u8]) -> (r: Result<Header, Error>)
    ensures
        final(buf)@.len() == old(buf)@.len(),
        r == decode_into_spec(data@, old(buf)@.len() as int, native_alpha(data@)),
        r matches Ok(h) ==> final(buf)@.subrange(0, image_len(h, native_alpha(data@)))
            == file_bytes(data@, h, native_alpha(data@)),
        r matches Ok(h) ==> final(buf)@.subrange(image_len(h, native_alpha(data@)), old(buf)@.len() as int)
            == old(buf)@.subrange(image_len(h, native_alpha(data@)), old(buf)@.len() as int),
        r is Err && r != Err::<Header, Error>(Error::IncompleteImage) ==> final(buf)@ == old(buf)@,
{
    if data.len() >= HEADER_LEN && data[12] == 4 {
        decode_file_into::<true>(data, buf)
    } else {
        decode_file_into::<false>(data, buf)
    }
}

/// Decodes the file `data` into `buf` with three channels (RGB) per pixel.
pub fn decode_to_buf_rgb(data: &[u8], buf: &mut [u8]) -> (r: Result<Header, Error>)
    ensures
        final(buf)@.len() == old(buf)@.len(),
        r == decode_into_spec(data@, old(buf)@.len() as int, false),
        r matches Ok(h) ==> final(buf)@.subrange(0, image_len(h, false))
            == file_bytes(data@, h, false),
        r matches Ok(h) ==> final(buf)@.subrange(image_len(h, false), old(buf)@.len() as int)
            == old(buf)@.subrange(image_len(h, false), old(buf)@.len() as int),
        r is Err && r != Err::<Header, Error>(Error::IncompleteImage) ==> final(buf)@ == old(buf)@,
{
    decode_file_into::<false>(data, buf)
}

/// Decodes the file `data` into `buf` with four channels (RGBA) per pixel.
pub fn decode_to_buf_rgba(data: &[u8], buf: &mut [u8]) -> (r: Result<Header, Error>)
    ensures
        final(buf)@.len() == old(buf)@.len(),
        r == decode_into_spec(data@, old(buf)@.len() as int, true),
        r matches Ok(h) ==> final(buf)@.subrange(0, image_len(h, true))
            == file_bytes(data@, h, true),
        r matches Ok(h) ==> final(buf)@.subrange(image_len(h, true), old(buf)@.len() as int)
            == old(buf)@.subrange(image_len(h, true), old(buf)@.len() as int),
        r is Err && r != Err::<Header, Error>(Error::IncompleteImage) ==> final(buf)@ == old(buf)@,
{
    decode_file_into::<true>(data, buf)
}

/// Decodes into a new buffer; a header that names more pixels than its stream
/// could ever give is refused before anything is allocated.
fn decode_file_to_vec<const ALPHA: bool>(data: &[u8]) -> (r: Result<(Header, Vec<u8>), Error>)
    ensures
        match r {
            Ok((h, v)) => decode_vec_spec(data@, ALPHA)
                == Ok::<(Header, Seq<u8>), Error>((h, v@)),
            Err(e) => decode_vec_spec(data@, ALPHA)
                == Err::<(Header, Seq<u8>), Error>(e),
        },
{
    let header = decode_header(data)?;
    let c: u128 = if ALPHA {
        4
    } else {
        3
    };
    let w = header.width as u128;
    let h = header.height as u128;
    proof {
        assert(w * h <= 0xffff_ffffu128 * 0xffff_ffffu128) by (nonlinear_arith)
            requires
                w <= 0xffff_ffffu128,
                h <= 0xffff_ffffu128,
        ;
        assert(w * h * c <= 0xffff_ffffu128 * 0xffff_ffffu128 * 4) by (nonlinear_arith)
            requires
                w * h <= 0xffff_ffffu128 * 0xffff_ffffu128,
                c <= 4,
        ;
    }
    let needed: u128 = w * h * c;
    if needed > usize::MAX as u128 {
        return Err(Error::BufferTooSmall { required: usize::MAX, size: 0 });
    }
    if w * h > 62 * ((data.len() - HEADER_LEN) as u128) {
        proof {
            if decode_pixels(stream_of(data@), pixel_count(header)) is Some {
                lemmas::lemma_pixels_bound(stream_of(data@), pixel_count(header));
            }
        }
        return Err(Error::IncompleteImage);
    }
    let mut v: Vec<u8> = vec![0u8; needed as usize];
    let src = vstd::slice::slice_subrange(data, HEADER_LEN, data.len());
    decode_impl::<ALPHA>(src, v.as_mut_slice(), header)?;
    proof {
        assert(v@ =~= v@.subrange(0, image_len(header, ALPHA)));
    }
    Ok((header, v))
}

/// Decodes the file `data` into a new buffer, with as many channels as its
/// header names: four where it says 4, three otherwise.
pub fn decode_to_vec(data: &[u8]) -> (r: Result<(Header, Vec<u8>), Error>)
    ensures
        match r {
            Ok((h, v)) => decode_vec_spec(data@, native_alpha(data@))
                == Ok::<(Header, Seq<u8>), Error>((h, v@)),
            Err(e) => decode_vec_spec(data@, native_alpha(data@))
                == Err::<(Header, Seq<u8>), Error>(e),
        },
{
    if data.len() >= HEADER_LEN && data[12] == 4 {
        decode_file_to_vec::<true>(data)
    } else {
        decode_file_to_vec::<false>(data)
    }
}

/// Decodes the file `data` into a new buffer with three channels (RGB) per pixel.
pub fn decode_to_vec_rgb(data: &[u8]) -> (r: Result<(Header, Vec<u8>), Error>)
    ensures
        match r {
            Ok((h, v)) => decode_vec_spec(data@, false)
                == Ok::<(Header, Seq<u8>), Error>((h, v@)),
            Err(e) => decode_vec_spec(data@, false)
                == Err::<(Header, Seq<u8>), Error>(e),
        },
{
    decode_file_to_vec::<false>(data)
}

/// Decodes the file `data` into a new buffer with four channels (RGBA) per pixel.
pub fn decode_to_vec_rgba(data: &[u8]) -> (r: Result<(Header, Vec<u8>), Error>)
    ensures
        match r {
            Ok((h, v)) => decode_vec_spec(data@, true)
                == Ok::<(Header, Seq<u8>), Error>((h, v@)),
            Err(e) => decode_vec_spec(data@, true)
                == Err::<(Header, Seq<u8>), Error>(e),
        },
{
    decode_file_to_vec::<true>(data)
}

} // verus!
