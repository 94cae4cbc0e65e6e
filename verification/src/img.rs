//! Images: PNG encoding and decoding of RGBA pixels, and their hash.
use vstd::prelude::*;

verus! {

/// Hard ceiling on decoded RGBA size (64 megapixels): far above any real
/// screenshot, low enough that corrupt blobs can't force a huge allocation.
pub const MAX_DECODED_BYTES: usize = 268435456;

/// PNG's colour type for red, green, blue and alpha.
pub const RGBA: u8 = 6;

/// PNG's bit depth for one byte per sample.
pub const EIGHT_BITS: u8 = 8;

#[verifier::external_type_specification]
#[verifier::external_body]
pub struct ExEncodingError(png::EncodingError);

#[verifier::external_type_specification]
#[verifier::external_body]
pub struct ExDecodingError(png::DecodingError);

/// Why an image could not be encoded or decoded.
#[derive(Debug)]
pub enum ImageError {
    /// The dimensions ask for more bytes than there are addresses.
    DimensionsOverflow,
    /// The buffer does not hold four bytes for each pixel.
    BufferMismatch,
    /// The encoder refused the image.
    Encode(png::EncodingError),
    /// The bytes are no PNG, or a damaged one.
    Decode(png::DecodingError),
    /// The image is larger than what is decoded.
    TooLarge,
    /// The PNG holds something else than 8-bit RGBA pixels.
    UnsupportedFormat,
}

/// A decoded frame: `size` bytes of `data` are pixels.
pub struct Frame {
    pub w: u32,
    pub h: u32,
    pub color: u8,
    pub depth: u8,
    pub size: usize,
    pub data: Vec<u8>,
}

/// A decoded frame as mathematical values.
pub struct FrameView {
    pub w: u32,
    pub h: u32,
    pub color: u8,
    pub depth: u8,
    pub size: usize,
    pub data: Seq<u8>,
}

impl View for Frame {
    type V = FrameView;

    open spec fn view(&self) -> FrameView {
        FrameView {
            w: self.w,
            h: self.h,
            color: self.color,
            depth: self.depth,
            size: self.size,
            data: self.data@,
        }
    }
}

/// The PNG that the encoder writes for these pixels.
pub uninterp spec fn png_bytes(w: u32, h: u32, rgba: Seq<u8>) -> Seq<u8>;

/// The size of the buffer that a PNG asks for, as far as the decoder gets to
/// its pixels within the limit.
pub uninterp spec fn png_buffer_size(bytes: Seq<u8>, limit: usize) -> Option<usize>;

/// The first frame of a PNG, as far as the decoder gets through it.
pub uninterp spec fn png_frame(bytes: Seq<u8>, limit: usize) -> Option<FrameView>;

/// How many bytes the pixels of a `w` by `h` image take.
pub open spec fn pixel_bytes(w: u32, h: u32) -> int {
    w * h * 4
}

/// The bytes that every PNG starts with.
pub open spec fn png_signature() -> Seq<u8> {
    seq![137, 80, 78, 71, 13, 10, 26, 10]
}

/// The frame of a `w` by `h` image with these pixels.
pub open spec fn rgba_frame(w: u32, h: u32, rgba: Seq<u8>) -> FrameView {
    FrameView { w, h, color: RGBA, depth: EIGHT_BITS, size: rgba.len() as usize, data: rgba }
}

/// `png::Encoder` set to 8-bit RGBA, with the header and the pixels written to
/// a vector. It refuses an image without width or height, and no other. The
/// result starts with PNG's signature, and decoding it gives the pixels back, as
/// far as they are within the limit that is decoded.
#[verifier::external_body]
fn png_encode(w: u32, h: u32, rgba: &[u8]) -> (res: Result<Vec<u8>, png::EncodingError>)
    requires
        rgba@.len() == pixel_bytes(w, h),
    ensures
        res is Ok == (w > 0 && h > 0),
        res matches Ok(out) ==> out@ == png_bytes(w, h, rgba@),
        res matches Ok(out) ==> out@.len() > 8 && out@.take(8) == png_signature(),
        res matches Ok(out) ==> rgba@.len() <= MAX_DECODED_BYTES ==> png_buffer_size(
            out@,
            MAX_DECODED_BYTES,
        ) == Some(rgba@.len() as usize),
        res matches Ok(out) ==> rgba@.len() <= MAX_DECODED_BYTES ==> png_frame(
            out@,
            MAX_DECODED_BYTES,
        ) == Some(rgba_frame(w, h, rgba@)),
{
    let mut out = Vec::new();
    let mut encoder = png::Encoder::new(&mut out, w, h);
    encoder.set_color(png::ColorType::Rgba);
    encoder.set_depth(png::BitDepth::Eight);
    encoder.write_header()?.write_image_data(rgba)?;
    Ok(out)
}

/// `png::Decoder` with a limit, read up to the first pixels, and the buffer
/// size that `png::Reader` then asks for.
#[verifier::external_body]
fn png_size(bytes: &[u8], limit: usize) -> (res: Result<usize, png::DecodingError>)
    ensures
        match res {
            Ok(size) => png_buffer_size(bytes@, limit) == Some(size),
            Err(_) => png_buffer_size(bytes@, limit) is None,
        },
{
    let mut decoder = png::Decoder::new(bytes);
    decoder.set_limits(png::Limits { bytes: limit });
    Ok(decoder.read_info()?.output_buffer_size())
}

/// `png::Reader::next_frame` into a zeroed buffer of the size that it asks for.
#[verifier::external_body]
fn png_decode(bytes: &[u8], limit: usize, size: usize) -> (res: Result<Frame, png::DecodingError>)
    requires
        png_buffer_size(bytes@, limit) == Some(size),
        size <= MAX_DECODED_BYTES,
    ensures
        match res {
            Ok(frame) => png_frame(bytes@, limit) == Some(frame@),
            Err(_) => png_frame(bytes@, limit) is None,
        },
{
    let mut decoder = png::Decoder::new(bytes);
    decoder.set_limits(png::Limits { bytes: limit });
    let mut reader = decoder.read_info()?;
    let mut data = vec![0; size];
    let info = reader.next_frame(&mut data)?;
    Ok(Frame {
        w: info.width, h: info.height, color: info.color_type as u8, depth: info.bit_depth as u8,
        size: info.buffer_size(), data,
    })
}

/// The pixels that `bytes` decode to: dimensions and RGBA data.
pub open spec fn decoded_pixels(bytes: Seq<u8>) -> Option<(u32, u32, Seq<u8>)> {
    match (png_buffer_size(bytes, MAX_DECODED_BYTES), png_frame(bytes, MAX_DECODED_BYTES)) {
        (Some(size), Some(frame)) => if size <= MAX_DECODED_BYTES {
            frame_pixels(frame)
        } else {
            None
        },
        _ => None,
    }
}

/// The pixels of a frame, if it holds 8-bit RGBA.
pub open spec fn frame_pixels(frame: FrameView) -> Option<(u32, u32, Seq<u8>)> {
    if frame.color == RGBA && frame.depth == EIGHT_BITS {
        Some(
            (
                frame.w,
                frame.h,
                if frame.size <= frame.data.len() {
                    frame.data.take(frame.size as int)
                } else {
                    frame.data
                },
            ),
        )
    } else {
        None
    }
}

/// Encode raw RGBA8 pixels as PNG bytes.
pub fn encode_rgba_png(w: u32, h: u32, rgba: &[u8]) -> (res: Result<Vec<u8>, ImageError>)
    ensures
        pixel_bytes(w, h) > usize::MAX ==> (res matches Err(e) && e is DimensionsOverflow),
        pixel_bytes(w, h) <= usize::MAX && rgba@.len() != pixel_bytes(w, h) ==> (res matches Err(
            e,
        ) && e is BufferMismatch),
        rgba@.len() == pixel_bytes(w, h) && (w == 0 || h == 0) ==> (res matches Err(e)
            && e is Encode),
        rgba@.len() == pixel_bytes(w, h) && w > 0 && h > 0 ==> res is Ok,
        res is Ok <==> w > 0 && h > 0 && rgba@.len() == w * h * 4,
        res matches Ok(out) ==> out@ == png_bytes(w, h, rgba@) && out@.len() > 8 && out@.take(8)
            == png_signature(),
        res matches Ok(out) ==> pixel_bytes(w, h) <= MAX_DECODED_BYTES ==> decoded_pixels(out@)
            == Some((w, h, rgba@)),
{
    assert(0 <= w * h <= 0xffff_ffff * 0xffff_ffff) by (nonlinear_arith)
        requires
            0 <= w <= 0xffff_ffff,
            0 <= h <= 0xffff_ffff,
    ;
    let len: usize = rgba.len();
    let area: u64 = (w as u64) * (h as u64);
    let expected: u128 = (area as u128) * 4;
    if expected > usize::MAX as u128 {
        return Err(ImageError::DimensionsOverflow);
    }
    if len as u128 != expected {
        return Err(ImageError::BufferMismatch);
    }
    match png_encode(w, h, rgba) {
        Ok(out) => {
            assert(rgba@.take(rgba@.len() as int) =~= rgba@);
            Ok(out)
        },
        Err(e) => Err(ImageError::Encode(e)),
    }
}

/// The dimensions and pixels of `frame`, if it holds 8-bit RGBA.
pub fn accept_frame(frame: Frame) -> (res: Result<(u32, u32, Vec<u8>), ImageError>)
    ensures
        match res {
            Ok((w, h, rgba)) => frame_pixels(frame@) == Some((w, h, rgba@)),
            Err(e) => frame_pixels(frame@) is None && e is UnsupportedFormat,
        },
        res is Ok <==> frame.color == 6 && frame.depth == 8,
        res matches Ok((w, h, rgba)) ==> w == frame.w && h == frame.h && (frame.size
            <= frame.data@.len() ==> rgba@ == frame.data@.take(frame.size as int)),
{
    if frame.color != RGBA || frame.depth != EIGHT_BITS {
        return Err(ImageError::UnsupportedFormat);
    }
    let mut data = frame.data;
    if frame.size <= data.len() {
        data.truncate(frame.size);
    }
    Ok((frame.w, frame.h, data))
}

/// Decode PNG bytes to (width, height, RGBA8). Only accepts RGBA8, which is
/// all that is ever encoded; foreign PNGs are not a supported input.
pub fn decode_png(bytes: &[u8]) -> (res: Result<(u32, u32, Vec<u8>), ImageError>)
    ensures
        match res {
            Ok((w, h, rgba)) => decoded_pixels(bytes@) == Some((w, h, rgba@)),
            Err(_) => decoded_pixels(bytes@) is None,
        },
        match png_buffer_size(bytes@, MAX_DECODED_BYTES) {
            None => res matches Err(e) && e is Decode,
            Some(size) => if size > MAX_DECODED_BYTES {
                res matches Err(e) && e is TooLarge
            } else {
                match png_frame(bytes@, MAX_DECODED_BYTES) {
                    None => res matches Err(e) && e is Decode,
                    Some(frame) => res matches Err(e) ==> e is UnsupportedFormat,
                }
            },
        },
{
    let size: usize = match png_size(bytes, MAX_DECODED_BYTES) {
        Ok(size) => size,
        Err(e) => return Err(ImageError::Decode(e)),
    };
    if size > MAX_DECODED_BYTES {
        return Err(ImageError::TooLarge);
    }
    match png_decode(bytes, MAX_DECODED_BYTES, size) {
        Ok(frame) => accept_frame(frame),
        Err(e) => Err(ImageError::Decode(e)),
    }
}

/// The FNV-1a hash of `bytes`.
pub open spec fn fnv1a(bytes: Seq<u8>) -> u64
    decreases bytes.len(),
{
    if bytes.len() == 0 {
        0xcbf2_9ce4_8422_2325
    } else {
        (((fnv1a(bytes.drop_last()) ^ (bytes.last() as u64)) * 0x100_0000_01b3)
            % 0x1_0000_0000_0000_0000) as u64
    }
}

/// Hash of raw RGBA pixels, the same in every process: images are told apart
/// by it, not by their encoding.
pub fn rgba_hash(rgba: &[u8]) -> (hash: u64)
    ensures
        hash == fnv1a(rgba@),
{
    let mut hash: u64 = 0xcbf2_9ce4_8422_2325;
    let mut i: usize = 0;
    while i < rgba.len()
        invariant
            i <= rgba@.len(),
            hash == fnv1a(rgba@.take(i as int)),
        decreases rgba@.len() - i,
    {
        assert(rgba@.take(i + 1).drop_last() =~= rgba@.take(i as int));
        let mixed: u64 = hash ^ (rgba[i] as u64);
        hash = (((mixed as u128) * 0x100_0000_01b3) % 0x1_0000_0000_0000_0000) as u64;
        i += 1;
    }
    assert(rgba@.take(i as int) =~= rgba@);
    hash
}

} // verus!
