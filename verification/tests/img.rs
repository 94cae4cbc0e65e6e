use herdr_clip::img::{accept_frame, decode_png, encode_rgba_png, rgba_hash, Frame, ImageError};

#[test]
fn png_roundtrip_preserves_pixels() {
    let (w, h) = (3u32, 2u32);
    let rgba: Vec<u8> = (0..(w * h * 4) as u8).collect();
    let png = encode_rgba_png(w, h, &rgba).unwrap();
    assert_eq!(&png[..8], b"\x89PNG\r\n\x1a\n");
    let (dw, dh, drgba) = decode_png(&png).unwrap();
    assert_eq!((dw, dh), (w, h));
    assert_eq!(drgba, rgba);
}

#[test]
fn mismatched_buffer_and_garbage_are_errors() {
    assert!(encode_rgba_png(2, 2, &[0u8; 3]).is_err());
    assert!(decode_png(b"not a png").is_err());
}

#[test]
fn huge_claimed_dimensions_error_without_allocating() {
    let mut bytes = Vec::new();
    {
        let enc = png::Encoder::new(&mut bytes, 100_000, 100_000);
        let _ = enc.write_header(); // header only — no pixel data needed
    }
    // The dropped writer appends an IEND; without an IDAT the decoder errors
    // before it asks for a buffer. Swap the trailing IEND chunk for a bare
    // IDAT chunk header so decoding gets that far.
    assert_eq!(&bytes[bytes.len() - 8..bytes.len() - 4], b"IEND");
    bytes.truncate(bytes.len() - 12);
    bytes.extend_from_slice(&[0, 0, 0, 0]); // IDAT data length: 0
    bytes.extend_from_slice(b"IDAT");
    assert!(matches!(decode_png(&bytes), Err(ImageError::TooLarge)));
}

#[test]
fn each_encoding_error_has_its_input() {
    assert!(matches!(encode_rgba_png(u32::MAX, u32::MAX, &[]), Err(ImageError::DimensionsOverflow)));
    assert!(matches!(encode_rgba_png(2, 2, &[0; 15]), Err(ImageError::BufferMismatch)));
    assert!(matches!(encode_rgba_png(0, 2, &[]), Err(ImageError::Encode(_))));
    assert!(matches!(encode_rgba_png(2, 0, &[]), Err(ImageError::Encode(_))));
}

#[test]
fn each_decoding_error_has_its_input() {
    assert!(matches!(decode_png(b"not a png"), Err(ImageError::Decode(_))));
    let whole = encode_rgba_png(9, 9, &[5; 324]).unwrap();
    assert!(matches!(decode_png(&whole[..whole.len() / 2]), Err(ImageError::Decode(_))));
    let mut gray = Vec::new();
    {
        let mut enc = png::Encoder::new(&mut gray, 2, 1);
        enc.set_color(png::ColorType::Grayscale);
        enc.set_depth(png::BitDepth::Eight);
        enc.write_header().unwrap().write_image_data(&[1, 2]).unwrap();
    }
    assert!(matches!(decode_png(&gray), Err(ImageError::UnsupportedFormat)));
}

#[test]
fn frames_are_cut_to_their_pixels() {
    let frame = |color, depth| Frame { w: 1, h: 1, color, depth, size: 4, data: vec![1, 2, 3, 4, 5] };
    assert_eq!(accept_frame(frame(6, 8)).unwrap(), (1, 1, vec![1, 2, 3, 4]));
    assert!(matches!(accept_frame(frame(2, 8)), Err(ImageError::UnsupportedFormat)));
    assert!(matches!(accept_frame(frame(6, 16)), Err(ImageError::UnsupportedFormat)));
}

#[test]
fn larger_images_survive_the_roundtrip() {
    let rgba: Vec<u8> = (0..64 * 33 * 4).map(|i: u32| (i * 7 + i / 256) as u8).collect();
    let png = encode_rgba_png(64, 33, &rgba).unwrap();
    assert_eq!(decode_png(&png).unwrap(), (64, 33, rgba));
}

#[test]
fn the_pixel_hash_is_fnv1a() {
    assert_eq!(rgba_hash(b""), 0xcbf29ce484222325);
    assert_eq!(rgba_hash(b"a"), 0xaf63dc4c8601ec8c);
    assert_eq!(rgba_hash(b"foobar"), 0x85944171f73967e8);
}
