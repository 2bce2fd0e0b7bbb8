//! Bitmap value types for the pipeline.
//!
//! A bitmap is immutable once constructed: every pipeline step produces a
//! fresh bitmap. `RgbaBitmap` is the four-channel layout that clipboard
//! captures arrive in; `GrayBitmap` is the single-channel layout that the
//! binarizer and the recognition engine work on.

use vstd::prelude::*;

verus! {

/// A single-channel (grayscale) bitmap: one byte per pixel, rows first.
pub struct GrayBitmap {
    pub width: usize,
    pub height: usize,
    pub pixels: Vec<u8>,
}

impl GrayBitmap {
    /// The pixel buffer holds exactly one byte per pixel.
    pub open spec fn wf(&self) -> bool {
        self.pixels.len() == self.width * self.height
    }
}

/// A four-channel bitmap: red, green, blue, alpha, one byte each per pixel.
pub struct RgbaBitmap {
    pub width: usize,
    pub height: usize,
    pub pixels: Vec<u8>,
}

impl RgbaBitmap {
    /// The pixel buffer holds exactly four bytes per pixel.
    pub open spec fn wf(&self) -> bool {
        self.pixels.len() == 4 * (self.width * self.height)
    }
}

/// Luminance of one color pixel under the standard sRGB weighting
/// (2126 red + 7152 green + 722 blue, out of 10000).
pub open spec fn luma_of(r: u8, g: u8, b: u8) -> u8 {
    ((2126 * (r as int) + 7152 * (g as int) + 722 * (b as int)) / 10000) as u8
}

/// The grayscale collapse of a four-channel pixel buffer: one luminance
/// byte per group of four source bytes.
pub open spec fn gray_of(pixels: Seq<u8>) -> Seq<u8> {
    Seq::new((pixels.len() / 4) as nat, |j: int| luma_of(pixels[4 * j], pixels[4 * j + 1], pixels[4 * j + 2]))
}

/// Executable luminance of one color pixel; alpha is ignored.
pub fn luma(r: u8, g: u8, b: u8) -> (l: u8)
    ensures
        l == luma_of(r, g, b),
{
    let weighted: u32 = 2126 * (r as u32) + 7152 * (g as u32) + 722 * (b as u32);
    (weighted / 10000) as u8
}

/// Collapses a four-channel bitmap to grayscale with the standard luminance
/// weighting; the alpha channel plays no part.
pub fn to_grayscale(img: &RgbaBitmap) -> (out: GrayBitmap)
    requires
        img.wf(),
    ensures
        out.wf(),
        out.width == img.width,
        out.height == img.height,
        out.pixels.len() == img.width * img.height,
        out.pixels@ == gray_of(img.pixels@),
{
    let n: usize = img.width * img.height;
    let mut pixels: Vec<u8> = Vec::new();
    let mut j: usize = 0;
    while j < n
        invariant
            img.wf(),
            n == img.width * img.height,
            0 <= j <= n,
            pixels.len() == j,
            forall|k: int|
                0 <= k < j ==> pixels[k] == luma_of(
                    img.pixels[4 * k],
                    img.pixels[4 * k + 1],
                    img.pixels[4 * k + 2],
                ),
        decreases n - j,
    {
        let r = img.pixels[4 * j];
        let g = img.pixels[4 * j + 1];
        let b = img.pixels[4 * j + 2];
        pixels.push(luma(r, g, b));
        j = j + 1;
    }
    proof {
        assert(pixels@ =~= gray_of(img.pixels@));
    }
    GrayBitmap { width: img.width, height: img.height, pixels }
}

} // verus!
