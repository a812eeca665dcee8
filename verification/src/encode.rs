//! Serializing a pixel buffer to a raster byte stream through the image
//! codec crate.
use vstd::prelude::*;
use crate::OutputFormat;
use crate::pixels::PixelBuffer;

verus! {

/// The codec could not produce a byte stream for the buffer.
#[derive(Clone, Copy, PartialEq, Eq, Structural, Debug)]
pub enum EncodeError {
    Codec,
}

/// The PNG stream the codec writes for an RGBA buffer of the given
/// dimensions: a function of the pixels alone.
pub uninterp spec fn png_stream_of(w: nat, h: nat, pixels: Seq<u8>) -> Seq<u8>;

/// The JPEG stream the codec writes for an RGBA buffer at a quality
/// setting: a function of the pixels and the quality alone.
pub uninterp spec fn jpeg_stream_of(w: nat, h: nat, pixels: Seq<u8>, quality: u8) -> Seq<u8>;

/// Relies on image's `PngEncoder::write_image` for RGBA bytes: it writes a
/// deterministic stream for given pixels, demands a byte array of exactly
/// `4 * w * h` bytes, fails exactly on a zero dimension, and cannot fail
/// while writing into memory.
#[verifier::external_body]
fn png_bytes(width: u32, height: u32, pixels: &Vec<u8>) -> (r: Result<Vec<u8>, EncodeError>)
    requires
        pixels@.len() == 4 * (width as int) * (height as int),
    ensures
        r matches Ok(b) ==> b@ == png_stream_of(width as nat, height as nat, pixels@),
        width > 0 && height > 0 ==> r is Ok,
{
    let mut out: Vec<u8> = Vec::new();
    let enc = image::codecs::png::PngEncoder::new(&mut out);
    match image::ImageEncoder::write_image(
        enc,
        pixels.as_slice(),
        width,
        height,
        image::ExtendedColorType::Rgba8,
    ) {
        Ok(()) => Ok(out),
        Err(_) => Err(EncodeError::Codec),
    }
}

/// Relies on image's `JpegEncoder::encode_image` at a chosen quality: it
/// writes a deterministic stream for given pixels and quality (the codec
/// clamps the quality to 1..=100), dropping the alpha channel, and fails
/// exactly when a dimension falls outside 1..=65535. `from_raw` only
/// accepts a byte array matching the dimensions.
#[verifier::external_body]
fn jpeg_bytes(width: u32, height: u32, pixels: &Vec<u8>, quality: u8) -> (r: Result<
    Vec<u8>,
    EncodeError,
>)
    requires
        pixels@.len() == 4 * (width as int) * (height as int),
    ensures
        r matches Ok(b) ==> b@ == jpeg_stream_of(width as nat, height as nat, pixels@, quality),
        1 <= width <= 65535 && 1 <= height <= 65535 ==> r is Ok,
{
    let img = match image::RgbaImage::from_raw(width, height, pixels.clone()) {
        Some(i) => i,
        None => {
            return Err(EncodeError::Codec);
        },
    };
    let mut out: Vec<u8> = Vec::new();
    let mut enc = image::codecs::jpeg::JpegEncoder::new_with_quality(&mut out, quality);
    match enc.encode_image(&img) {
        Ok(()) => Ok(out),
        Err(_) => Err(EncodeError::Codec),
    }
}

/// The byte stream a buffer serializes to in a format, at a quality setting
/// that only the lossy format reads.
pub open spec fn encoded_stream(b: PixelBuffer, f: OutputFormat, quality: u8) -> Seq<u8> {
    match f {
        OutputFormat::Png => png_stream_of(
            b.spec_width() as nat,
            b.spec_height() as nat,
            b.spec_pixels(),
        ),
        OutputFormat::Jpeg => jpeg_stream_of(
            b.spec_width() as nat,
            b.spec_height() as nat,
            b.spec_pixels(),
            quality,
        ),
    }
}

/// Serialize a pixel buffer in the chosen format. The quality is handed to
/// the lossy codec unmodified. Success is owed wherever the codec gives it:
/// for the lossless format any buffer with positive dimensions, for the
/// lossy format dimensions within its 16-bit limit.
pub fn encode_pixels(buf: &PixelBuffer, f: OutputFormat, quality: u8) -> (r: Result<
    Vec<u8>,
    EncodeError,
>)
    requires
        buf.wf(),
    ensures
        r matches Ok(b) ==> b@ == encoded_stream(*buf, f, quality),
        f is Png && buf.spec_width() > 0 && buf.spec_height() > 0 ==> r is Ok,
        f is Jpeg && 1 <= buf.spec_width() <= 65535 && 1 <= buf.spec_height() <= 65535 ==> r
            is Ok,
{
    let w = buf.width();
    let h = buf.height();
    match f {
        OutputFormat::Png => png_bytes(w, h, buf.pixel_data()),
        OutputFormat::Jpeg => jpeg_bytes(w, h, buf.pixel_data(), quality),
    }
}

} // verus!
