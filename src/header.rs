//! The fixed 14-byte header and the library's errors.
use vstd::prelude::*;

verus! {

/// Size of the header in bytes.
pub const HEADER_LEN: usize = 14;

/// Why decoding failed.
#[derive(Clone, Debug, PartialEq, Eq)]
pub enum Error {
    /// The first four bytes are not `qoif`; they are carried here.
    IncorrectMagic([u8; 4]),
    /// A buffer holds `size` bytes where `required` are needed.
    BufferTooSmall { required: usize, size: usize },
    /// The operation stream ended before every pixel was produced.
    IncompleteImage,
}

impl Error {
    pub(crate) fn buff(size: usize, required: usize) -> (e: Error)
        ensures
            e == (Error::BufferTooSmall { required, size }),
    {
        Error::BufferTooSmall { required, size }
    }
}

/// Metadata at the start of an image.
#[derive(Clone, Copy, Debug, PartialEq, Eq, Structural)]
pub struct Header {
    pub width: u32,
    pub height: u32,
    pub channels: u8,
    pub colorspace: u8,
}

/// Big-endian 32-bit value of the four bytes of `d` from `i` on.
pub open spec fn be32(d: Seq<u8>, i: int) -> int {
    d[i] * 0x1000000 + d[i + 1] * 0x10000 + d[i + 2] * 0x100 + d[i + 3]
}

/// Whether `d` starts with the ASCII magic `qoif`.
pub open spec fn has_magic(d: Seq<u8>) -> bool {
    d[0] == 0x71u8 && d[1] == 0x6fu8 && d[2] == 0x69u8 && d[3] == 0x66u8
}

/// The header that a well-formed prefix `d` describes.
pub open spec fn header_of(d: Seq<u8>) -> Header {
    Header {
        width: be32(d, 4) as u32,
        height: be32(d, 8) as u32,
        channels: d[12],
        colorspace: d[13],
    }
}

/// What parsing the header of `d` gives.
pub open spec fn parse_header_spec(d: Seq<u8>) -> Result<Header, Error> {
    if d.len() < 14 {
        Err(Error::BufferTooSmall { required: 14, size: d.len() as usize })
    } else if !has_magic(d) {
        Err(Error::IncorrectMagic([d[0], d[1], d[2], d[3]]))
    } else {
        Ok(header_of(d))
    }
}

fn read_be32(d: &[u8], i: usize) -> (v: u32)
    requires
        i + 4 <= d@.len(),
    ensures
        v as int == be32(d@, i as int),
{
    (d[i] as u32) * 0x1000000 + (d[i + 1] as u32) * 0x10000 + (d[i + 2] as u32) * 0x100 + (d[i
        + 3] as u32)
}

/// Parses the header at the start of `data`.
pub fn decode_header(data: &[u8]) -> (r: Result<Header, Error>)
    ensures
        r == parse_header_spec(data@),
{
    if data.len() < HEADER_LEN {
        return Err(Error::buff(data.len(), HEADER_LEN));
    }
    if !(data[0] == 0x71 && data[1] == 0x6f && data[2] == 0x69 && data[3] == 0x66) {
        return Err(Error::IncorrectMagic([data[0], data[1], data[2], data[3]]));
    }
    let width = read_be32(data, 4);
    let height = read_be32(data, 8);
    Ok(Header { width, height, channels: data[12], colorspace: data[13] })
}

} // verus!
