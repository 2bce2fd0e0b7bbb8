//! Encoder boundary: serializing a conditioned image for the engine.
//!
//! The recognition engine accepts a byte stream in a lossless raster format;
//! PNG keeps the binarized edges free of compression artifacts. The encoder
//! itself is the image library's; here its output is named and the failure
//! is folded into the library's own error.

use vstd::prelude::*;
use crate::bitmap::GrayBitmap;

verus! {

/// The image library's error type, opaque to this crate: carried out of the
/// encoder and mapped to `EncodeError` at once.
#[verifier::external_type_specification]
#[verifier::external_body]
pub struct ExImageError(image::ImageError);

/// The conditioned image could not be serialized: fatal to the job, never
/// retried.
#[derive(PartialEq, Eq, Structural, Clone, Copy, Debug)]
pub enum EncodeError {
    EncodingFailed,
}

/// What the PNG encoder emits for a single-channel image of the given
/// dimensions: a pure function of the pixels and the dimensions, named but
/// not spelled out, since only the encoder itself defines the byte stream.
pub uninterp spec fn png_encoding(pixels: Seq<u8>, w: int, h: int) -> Seq<u8>;

/// Relies on ImageBuffer::write_to with ImageFormat::Png: the encoder
/// serializes exactly the given single-channel image, deterministically in
/// the image and its dimensions. The buffer is handed over through
/// ImageBuffer::from_raw, which accepts a buffer of exactly width * height
/// bytes. Under these preconditions the call succeeds: the PNG encoder
/// rejects only zero dimensions, its buffer-length check is met exactly,
/// eight-bit grayscale is a supported color combination, and writing to an
/// in-memory cursor over a Vec raises no I/O error.
#[verifier::external_body]
fn write_png(img: &GrayBitmap) -> (r: Result<Vec<u8>, image::ImageError>)
    requires
        img.wf(),
        1 <= img.width <= u32::MAX,
        1 <= img.height <= u32::MAX,
    ensures
        r is Ok,
        r matches Ok(b) ==> b@ == png_encoding(img.pixels@, img.width as int, img.height as int),
{
    let buf = image::GrayImage::from_raw(img.width as u32, img.height as u32, img.pixels.clone())
        .unwrap();
    let mut bytes: Vec<u8> = Vec::new();
    match buf.write_to(&mut std::io::Cursor::new(&mut bytes), image::ImageFormat::Png) {
        Ok(()) => Ok(bytes),
        Err(e) => Err(e),
    }
}

/// Serializes a conditioned image as PNG bytes for the engine. For every
/// well-formed image of nonzero dimensions the encoding succeeds and the
/// bytes are exactly the encoder's output for this image; the error arm
/// exists for the boundary's shape — a failure would be fatal to the job,
/// never retried — but no admitted input reaches it.
pub fn encode_png(img: &GrayBitmap) -> (r: Result<Vec<u8>, EncodeError>)
    requires
        img.wf(),
        1 <= img.width <= u32::MAX,
        1 <= img.height <= u32::MAX,
    ensures
        r is Ok,
        r matches Ok(b) ==> b@ == png_encoding(img.pixels@, img.width as int, img.height as int),
        r matches Err(e) ==> e == EncodeError::EncodingFailed,
{
    match write_png(img) {
        Ok(bytes) => Ok(bytes),
        Err(_) => Err(EncodeError::EncodingFailed),
    }
}

} // verus!
