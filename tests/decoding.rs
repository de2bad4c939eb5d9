use qoi_decode::decode::{decode_impl as decode_stream, DecodeState};
use qoi_decode::pixel::{hash, Pix};
use qoi_decode::{
    decode_header, decode_to_buf, decode_to_buf_rgb, decode_to_buf_rgba, decode_to_vec,
    decode_to_vec_rgb, decode_to_vec_rgba, Error, Header,
};

fn file(width: u32, height: u32, channels: u8, ops: &[u8]) -> Vec<u8> {
    let mut v = b"qoif".to_vec();
    v.extend_from_slice(&width.to_be_bytes());
    v.extend_from_slice(&height.to_be_bytes());
    v.push(channels);
    v.push(0);
    v.extend_from_slice(ops);
    v
}

fn noise(n: usize, seed: u32) -> Vec<u8> {
    let mut x = seed;
    let mut v = Vec::with_capacity(n);
    for _ in 0..n {
        x = x.wrapping_mul(1_103_515_245).wrapping_add(12_345);
        v.push((x >> 16) as u8);
    }
    v
}

/// Images that exercise every operation of an encoder: runs, small and
/// large deltas, repeats of earlier colours, and random pixels.
fn sample_image(width: u32, height: u32, channels: usize, seed: u32) -> Vec<u8> {
    let n = (width * height) as usize;
    let rnd = noise(n * channels, seed);
    let mut img = Vec::with_capacity(n * channels);
    for i in 0..n {
        let px: Vec<u8> = match (i / 7) % 5 {
            0 => vec![10, 20, 30, 255],
            1 => vec![(i * 3) as u8, (i * 3 + 1) as u8, (i * 2) as u8, 255],
            2 => vec![(100 + i % 3) as u8, (120 + i % 4) as u8, (90 + i % 2) as u8, 200],
            3 => vec![(i % 3 * 50) as u8, 5, 9, (i % 2 * 128) as u8],
            _ => rnd[i * channels..i * channels + channels].to_vec(),
        };
        img.extend_from_slice(&px[..channels.min(px.len())]);
        if px.len() < channels {
            img.push(255);
        }
    }
    img
}

#[test]
fn end_to_end_red_pixel() {
    let data = file(1, 1, 4, &[0xFF, 0xFF, 0x00, 0x00, 0xFF]);
    let (h, v) = decode_to_vec_rgba(&data).unwrap();
    assert_eq!(h, Header { width: 1, height: 1, channels: 4, colorspace: 0 });
    assert_eq!(v, vec![255, 0, 0, 255]);
    let (_, v) = decode_to_vec(&data).unwrap();
    assert_eq!(v, vec![255, 0, 0, 255]);
}

#[test]
fn header_rejects_short_input() {
    assert_eq!(
        decode_header(&[]).unwrap_err(),
        Error::BufferTooSmall { required: 14, size: 0 }
    );
    let data = file(2, 3, 4, &[]);
    assert_eq!(
        decode_header(&data[0..13]).unwrap_err(),
        Error::BufferTooSmall { required: 14, size: 13 }
    );
}

#[test]
fn header_rejects_wrong_magic() {
    let mut data = b"qoig".to_vec();
    data.extend_from_slice(&[0u8; 10]);
    assert_eq!(decode_header(&data).unwrap_err(), Error::IncorrectMagic(*b"qoig"));
}

#[test]
fn header_fields_are_big_endian() {
    let data = file(0x0102_0304, 0x0a0b_0c0d, 3, &[]);
    let h = decode_header(&data).unwrap();
    assert_eq!(h, Header { width: 0x0102_0304, height: 0x0a0b_0c0d, channels: 3, colorspace: 0 });
    let mut data = data;
    data[12] = 9;
    data[13] = 7;
    let h = decode_header(&data).unwrap();
    assert_eq!((h.channels, h.colorspace), (9, 7));
}

#[test]
fn buffer_one_byte_short_is_rejected() {
    let data = file(2, 2, 4, &[0xc3]);
    let mut buf = vec![0u8; 2 * 2 * 4 - 1];
    assert_eq!(
        decode_to_buf_rgba(&data, &mut buf).unwrap_err(),
        Error::BufferTooSmall { required: 16, size: 15 }
    );
    let mut buf = vec![0u8; 2 * 2 * 4];
    decode_to_buf_rgba(&data, &mut buf).unwrap();
    assert_eq!(buf, [0, 0, 0, 255].repeat(4));
}

#[test]
fn native_channel_count_decides_arity() {
    let data = file(1, 1, 4, &[0xfe, 1, 2, 3]);
    let mut buf = vec![9u8; 6];
    let h = decode_to_buf(&data, &mut buf).unwrap();
    assert_eq!(h.channels, 4);
    assert_eq!(buf, vec![1, 2, 3, 255, 9, 9]);
    let data = file(1, 1, 3, &[0xfe, 1, 2, 3]);
    let mut buf = vec![9u8; 4];
    decode_to_buf(&data, &mut buf).unwrap();
    assert_eq!(buf, vec![1, 2, 3, 9]);
    let data = file(1, 1, 7, &[0xfe, 1, 2, 3]);
    let (_, v) = decode_to_vec(&data).unwrap();
    assert_eq!(v, vec![1, 2, 3]);
}

#[test]
fn small_delta_wraps() {
    // 0b01_00_10_11: dr = -2, dg = 0, db = +1 from opaque black.
    let data = file(1, 1, 4, &[0b0100_1011]);
    let (_, v) = decode_to_vec_rgba(&data).unwrap();
    assert_eq!(v, vec![254, 0, 1, 255]);
}

#[test]
fn luma_delta() {
    // dg = 40 - 32 = 8; dr - dg = 0xa - 8 = 2; db - dg = 0x3 - 8 = -5.
    let data = file(2, 1, 3, &[0xfe, 100, 100, 100, 0b1010_1000, 0xa3]);
    let (_, v) = decode_to_vec_rgb(&data).unwrap();
    assert_eq!(v, vec![100, 100, 100, 110, 108, 103]);
    // dg = -32, dr - dg = -8, db - dg = 7, from black: wraps below zero.
    let data = file(1, 1, 3, &[0b1000_0000, 0x0f]);
    let (_, v) = decode_to_vec_rgb(&data).unwrap();
    assert_eq!(v, vec![216, 224, 231]);
}

#[test]
fn index_reads_cache_slot() {
    let slot = hash(10, 20, 30, 40);
    assert_eq!(slot, ((10 * 3 + 20 * 5 + 30 * 7 + 40 * 11) % 64) as u8);
    let data = file(3, 1, 4, &[0xff, 10, 20, 30, 40, 0xfe, 1, 2, 3, slot]);
    let (_, v) = decode_to_vec_rgba(&data).unwrap();
    assert_eq!(v, vec![10, 20, 30, 40, 1, 2, 3, 40, 10, 20, 30, 40]);
}

#[test]
fn index_of_untouched_slot_is_transparent_black() {
    let data = file(2, 1, 4, &[0xfe, 5, 5, 5, 0x01]);
    let (_, v) = decode_to_vec_rgba(&data).unwrap();
    assert_eq!(v, vec![5, 5, 5, 255, 0, 0, 0, 0]);
}

#[test]
fn hash_wraps_like_the_format() {
    assert_eq!(hash(1, 2, 3, 4), 14);
    assert_eq!(hash(255, 255, 255, 255), ((255u32 * 26) % 64) as u8);
    assert_eq!(Pix::new(0, 0, 0, 255).hash(), ((255u32 * 11) % 64) as u8);
    let p = Pix::new(1, 2, 3, 4);
    assert_eq!((p.r, p.g, p.b, p.a), (1, 2, 3, 4));
}

#[test]
fn run_of_sixty_two() {
    // One literal pixel, then a run of 62 (field 61): 63 pixels in all.
    let data = file(63, 1, 3, &[0xfe, 7, 8, 9, 0xfd]);
    let (_, v) = decode_to_vec_rgb(&data).unwrap();
    assert_eq!(v, [7, 8, 9].repeat(63));
    let data = file(64, 1, 3, &[0xfe, 7, 8, 9, 0xfd]);
    assert_eq!(decode_to_vec_rgb(&data).unwrap_err(), Error::IncompleteImage);
    // Field 60 is a run of 61.
    let data = file(62, 1, 3, &[0xfe, 7, 8, 9, 0xfc]);
    let (_, v) = decode_to_vec_rgb(&data).unwrap();
    assert_eq!(v, [7, 8, 9].repeat(62));
    let data = file(63, 1, 3, &[0xfe, 7, 8, 9, 0xfc]);
    assert_eq!(decode_to_vec_rgb(&data).unwrap_err(), Error::IncompleteImage);
}

#[test]
fn run_stops_at_last_pixel() {
    let data = file(3, 1, 4, &[0xc9]);
    let (_, v) = decode_to_vec_rgba(&data).unwrap();
    assert_eq!(v, [0, 0, 0, 255].repeat(3));
}

#[test]
fn empty_image() {
    let data = file(0, 5, 4, &[]);
    let (_, v) = decode_to_vec(&data).unwrap();
    assert!(v.is_empty());
}

#[test]
fn missing_operand_is_incomplete() {
    let data = file(1, 1, 4, &[0xff, 1, 2, 3]);
    assert_eq!(decode_to_vec_rgba(&data).unwrap_err(), Error::IncompleteImage);
    let data = file(1, 1, 4, &[0x80]);
    assert_eq!(decode_to_vec_rgba(&data).unwrap_err(), Error::IncompleteImage);
    let data = file(2, 1, 4, &[0x00]);
    assert_eq!(decode_to_vec_rgba(&data).unwrap_err(), Error::IncompleteImage);
}

#[test]
fn unaddressable_image_is_rejected() {
    let data = file(u32::MAX, u32::MAX, 4, &[]);
    assert_eq!(
        decode_to_vec(&data).unwrap_err(),
        Error::BufferTooSmall { required: usize::MAX, size: 0 }
    );
    let mut buf = vec![0u8; 8];
    assert_eq!(
        decode_to_buf_rgb(&data, &mut buf).unwrap_err(),
        Error::BufferTooSmall { required: usize::MAX, size: 8 }
    );
}

#[test]
fn stream_engine_directly() {
    let h = Header { width: 2, height: 1, channels: 4, colorspace: 0 };
    let mut buf = vec![0u8; 8];
    decode_stream::<true>(&[0xff, 1, 2, 3, 4, 0xc0], &mut buf, h.clone()).unwrap();
    assert_eq!(buf, vec![1, 2, 3, 4, 1, 2, 3, 4]);
    let mut buf = vec![0u8; 6];
    decode_stream::<false>(&[0xff, 1, 2, 3, 4, 0xc0], &mut buf, h.clone()).unwrap();
    assert_eq!(buf, vec![1, 2, 3, 1, 2, 3]);
    let mut buf = vec![0u8; 7];
    assert_eq!(
        decode_stream::<true>(&[0xc1], &mut buf, h).unwrap_err(),
        Error::BufferTooSmall { required: 8, size: 7 }
    );
}

#[test]
fn round_trip_with_reference_encoder() {
    for &channels in &[3usize, 4] {
        for &(w, hgt, seed) in &[(1u32, 1u32, 1u32), (17, 9, 2), (64, 33, 3), (5, 200, 4)] {
            let img = sample_image(w, hgt, channels, seed);
            let enc = qoi::encode_to_vec(&img, w, hgt).unwrap();
            let (h, v) = decode_to_vec(&enc).unwrap();
            assert_eq!((h.width, h.height, h.channels as usize), (w, hgt, channels));
            assert_eq!(v, img);
            let (_, reference) = qoi::decode_to_vec(&enc).unwrap();
            assert_eq!(v, reference);
        }
    }
}

#[test]
fn truncated_streams_fail_cleanly() {
    let img = sample_image(13, 11, 4, 9);
    let enc = qoi::encode_to_vec(&img, 13, 11).unwrap();
    let (_, full) = decode_to_vec_rgba(&enc).unwrap();
    for cut in 0..=enc.len() {
        match decode_to_vec_rgba(&enc[..cut]) {
            Ok((_, v)) => assert_eq!(v, full),
            Err(Error::IncompleteImage) => assert!(cut >= 14),
            Err(Error::BufferTooSmall { required, size }) => {
                assert!(cut < 14);
                assert_eq!((required, size), (14, cut));
            }
            Err(e) => panic!("unexpected {:?}", e),
        }
    }
}

#[test]
fn channel_projection_agrees() {
    let img = sample_image(19, 7, 4, 5);
    let enc = qoi::encode_to_vec(&img, 19, 7).unwrap();
    let (_, rgb) = decode_to_vec_rgb(&enc).unwrap();
    let (_, rgba) = decode_to_vec_rgba(&enc).unwrap();
    assert_eq!(rgb.len() / 3, rgba.len() / 4);
    for i in 0..rgb.len() / 3 {
        assert_eq!(rgb[3 * i..3 * i + 3], rgba[4 * i..4 * i + 3]);
        assert_eq!(rgba[4 * i + 3], img[4 * i + 3]);
    }
    let mut buf = vec![0u8; 19 * 7 * 4];
    decode_to_buf(&enc, &mut buf).unwrap();
    assert_eq!(buf, rgba);
}

#[test]
fn oversized_header_with_short_stream_is_incomplete() {
    let data = file(1_000_000, 1_000_000, 4, &[0xc0, 0xc0]);
    assert_eq!(decode_to_vec(&data).unwrap_err(), Error::IncompleteImage);
    let data = file(125, 1, 3, &[0xfd, 0xfd]);
    assert_eq!(decode_to_vec(&data).unwrap_err(), Error::IncompleteImage);
    let data = file(124, 1, 3, &[0xfd, 0xfd]);
    let (_, v) = decode_to_vec(&data).unwrap();
    assert_eq!(v, [0, 0, 0].repeat(124));
}

fn wrapping_slot(p: Pix) -> usize {
    let sum = p
        .r
        .wrapping_mul(3)
        .wrapping_add(p.g.wrapping_mul(5))
        .wrapping_add(p.b.wrapping_mul(7))
        .wrapping_add(p.a.wrapping_mul(11));
    (sum % 64) as usize
}

#[test]
fn cache_after_each_operation() {
    let first = Pix::new(10, 20, 30, 40);
    let diffed = Pix::new(11, 20, 29, 40);
    let src = vec![
        0xff, 10, 20, 30, 40, // literal with alpha
        0b0111_1001,          // dr = +1, dg = 0, db = -1
        0xc2,                 // run of 3
        wrapping_slot(first) as u8, // back to the first pixel
        0b1010_1000, 0xa3,    // luma: dg = 8, dr - dg = 2, db - dg = -5
    ];
    let mut st = DecodeState::new();
    let mut expected = [Pix::new(0, 0, 0, 0); 64];
    assert_eq!(st.cache, expected);
    assert_eq!(st.prev, Pix::new(0, 0, 0, 255));

    assert_eq!(st.next_op(&src, 100), Some((first, 1)));
    expected[wrapping_slot(first)] = first;
    assert_eq!((st.cache, st.pos), (expected, 5));

    assert_eq!(st.next_op(&src, 100), Some((diffed, 1)));
    expected[wrapping_slot(diffed)] = diffed;
    assert_eq!((st.cache, st.pos), (expected, 6));

    assert_eq!(st.next_op(&src, 2), Some((diffed, 2)));
    assert_eq!((st.cache, st.pos), (expected, 7));

    assert_eq!(st.next_op(&src, 100), Some((first, 1)));
    assert_eq!((st.cache, st.pos, st.prev), (expected, 8, first));

    let luma_from_first = Pix::new(10 + 8 + 2, 20 + 8, 30 + 8 - 5, 40);
    assert_eq!(st.next_op(&src, 100), Some((luma_from_first, 1)));
    expected[wrapping_slot(luma_from_first)] = luma_from_first;
    assert_eq!((st.cache, st.pos), (expected, 10));

    assert_eq!(st.next_op(&src, 100), None);
    assert_eq!((st.cache, st.pos, st.prev), (expected, 10, luma_from_first));
}

#[test]
fn early_errors_leave_buffer_untouched() {
    let data = file(2, 2, 4, &[0xff, 1, 2, 3, 4, 0xc2]);
    let mut buf = vec![7u8; 15];
    assert_eq!(
        decode_to_buf_rgba(&data, &mut buf).unwrap_err(),
        Error::BufferTooSmall { required: 16, size: 15 }
    );
    assert_eq!(buf, vec![7u8; 15]);
    assert_eq!(
        decode_to_buf(&data, &mut buf).unwrap_err(),
        Error::BufferTooSmall { required: 16, size: 15 }
    );
    assert_eq!(buf, vec![7u8; 15]);
    let mut bad = data.clone();
    bad[3] = b'g';
    assert_eq!(decode_to_buf_rgb(&bad, &mut buf).unwrap_err(), Error::IncorrectMagic(*b"qoig"));
    assert_eq!(buf, vec![7u8; 15]);
    assert_eq!(
        decode_to_buf_rgb(&data[..10], &mut buf).unwrap_err(),
        Error::BufferTooSmall { required: 14, size: 10 }
    );
    assert_eq!(buf, vec![7u8; 15]);
}

#[test]
fn bytes_past_the_image_are_kept() {
    let data = file(2, 2, 4, &[0xff, 1, 2, 3, 4, 0xc2]);
    let mut buf = vec![7u8; 20];
    decode_to_buf_rgba(&data, &mut buf).unwrap();
    assert_eq!(buf[..16], [1, 2, 3, 4].repeat(4)[..]);
    assert_eq!(buf[16..], [7, 7, 7, 7]);
    let mut buf = vec![7u8; 14];
    decode_to_buf_rgb(&data, &mut buf).unwrap();
    assert_eq!(buf, vec![1, 2, 3, 1, 2, 3, 1, 2, 3, 1, 2, 3, 7, 7]);
}

#[test]
fn alpha_carries_between_operations() {
    // RGBA sets alpha 9; RGB, delta, luma and run keep it; index takes the cached alpha.
    let stored = [wrapping_slot(Pix::new(1, 2, 3, 9)), wrapping_slot(Pix::new(5, 6, 7, 9))];
    let empty_slot = (0..64u8).find(|&s| !stored.contains(&(s as usize))).unwrap();
    let ops = [0xff, 1, 2, 3, 9, 0xfe, 5, 6, 7, 0x6a, 0x80 | 32, 0x88, 0xc0, empty_slot];
    let data = file(6, 1, 4, &ops);
    let (_, v) = decode_to_vec_rgba(&data).unwrap();
    let alphas: Vec<u8> = v.chunks(4).map(|p| p[3]).collect();
    assert_eq!(alphas, vec![9, 9, 9, 9, 9, 0]);
}
