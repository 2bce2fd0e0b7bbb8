//! Conditioning a raw capture for the recognition engine.
//!
//! `condition` collapses the capture to grayscale, binarizes it at the
//! global optimal threshold, and applies the adaptive upscale policy: an
//! image under 1500 pixels in either dimension is resized by the exact
//! rational scale `max(1500 / min(width, height), 2)`, so the result is at
//! least 1500 pixels in both dimensions and at least doubled; an image
//! already at 1500 in both dimensions is returned unchanged.

use vstd::prelude::*;
use vstd::arithmetic::div_mod::{lemma_div_is_ordered, lemma_div_multiples_vanish};
use vstd::arithmetic::mul::lemma_mul_is_commutative;
use crate::bitmap::{GrayBitmap, RgbaBitmap, gray_of, to_grayscale};
use crate::binarize::{binarized, apply_threshold};
use crate::otsu::{compute_threshold, otsu_threshold_of, lemma_otsu_threshold_unique};

verus! {

/// The upscale policy applies when either dimension falls short of 1500.
pub open spec fn needs_upscale(w: int, h: int) -> bool {
    w < 1500 || h < 1500
}

/// The smaller of the two dimensions: the one that dictates the scale.
pub open spec fn small_dim(w: int, h: int) -> int {
    if w <= h {
        w
    } else {
        h
    }
}

/// Width after upscaling by the exact rational scale
/// `max(1500 / min(w, h), 2)`, rounded down.
pub open spec fn scaled_width(w: int, h: int) -> int {
    let m = small_dim(w, h);
    if 2 * m >= 1500 {
        2 * w
    } else {
        (1500 * w) / m
    }
}

/// Height after upscaling, under the same scale as the width.
pub open spec fn scaled_height(w: int, h: int) -> int {
    let m = small_dim(w, h);
    if 2 * m >= 1500 {
        2 * h
    } else {
        (1500 * h) / m
    }
}

/// Width of the conditioned image: scaled when the policy applies,
/// otherwise unchanged.
pub open spec fn conditioned_width(w: int, h: int) -> int {
    if needs_upscale(w, h) {
        scaled_width(w, h)
    } else {
        w
    }
}

/// Height of the conditioned image.
pub open spec fn conditioned_height(w: int, h: int) -> int {
    if needs_upscale(w, h) {
        scaled_height(w, h)
    } else {
        h
    }
}

/// What resampling by the image library's Lanczos filter yields: a pure
/// function of the source pixels and the two sizes, named but not spelled
/// out, since only the resampler itself defines the pixel values.
pub uninterp spec fn lanczos_resized(src: Seq<u8>, w: int, h: int, nw: int, nh: int) -> Seq<u8>;

/// Relies on image::imageops::resize with the Lanczos3 filter: the result
/// has exactly the requested dimensions, one byte per pixel, and its content
/// is a function of the source image and the requested sizes alone. The
/// buffer is handed over through ImageBuffer::from_raw, which accepts a
/// buffer of exactly width * height bytes, and taken back with into_raw.
#[verifier::external_body]
fn resize_lanczos(img: &GrayBitmap, nw: usize, nh: usize) -> (out: GrayBitmap)
    requires
        img.wf(),
        1 <= img.width <= u32::MAX,
        1 <= img.height <= u32::MAX,
        img.width * img.height <= 0x8000_0000,
        1 <= nw <= u32::MAX,
        1 <= nh <= u32::MAX,
        nw * nh <= 0x8000_0000,
    ensures
        out.width == nw,
        out.height == nh,
        out.pixels.len() == nw * nh,
        out.pixels@ == lanczos_resized(
            img.pixels@,
            img.width as int,
            img.height as int,
            nw as int,
            nh as int,
        ),
{
    let buf = image::GrayImage::from_raw(img.width as u32, img.height as u32, img.pixels.clone())
        .unwrap();
    let resized = image::imageops::resize(
        &buf,
        nw as u32,
        nh as u32,
        image::imageops::FilterType::Lanczos3,
    );
    GrayBitmap { width: nw, height: nh, pixels: resized.into_raw() }
}

/// When the policy applies, the scaled dimensions reach the 1500 floor and
/// at least double the originals.
pub proof fn lemma_scaled_dims(w: int, h: int)
    requires
        1 <= w,
        1 <= h,
        needs_upscale(w, h),
    ensures
        scaled_width(w, h) >= 1500,
        scaled_height(w, h) >= 1500,
        scaled_width(w, h) >= 2 * w,
        scaled_height(w, h) >= 2 * h,
{
    let m = small_dim(w, h);
    if 2 * m >= 1500 {
        assert(scaled_width(w, h) == 2 * w >= 2 * m >= 1500);
        assert(scaled_height(w, h) == 2 * h >= 2 * m >= 1500);
    } else {
        lemma_scaled_dim_one(w, m);
        lemma_scaled_dim_one(h, m);
    }
}

/// One dimension under the rational scale `1500 / m` with `2 * m < 1500`:
/// the result reaches 1500 and at least doubles the dimension.
proof fn lemma_scaled_dim_one(x: int, m: int)
    requires
        1 <= m <= x,
        2 * m < 1500,
    ensures
        (1500 * x) / m >= 1500,
        (1500 * x) / m >= 2 * x,
{
    lemma_mul_is_commutative(1500, m);
    lemma_mul_is_commutative(1500, x);
    lemma_div_multiples_vanish(1500, m);
    assert(1500 * m <= 1500 * x) by (nonlinear_arith)
        requires
            m <= x,
    ;
    lemma_div_is_ordered(1500 * m, 1500 * x, m);
    assert((1500 * m) / m == 1500);
    lemma_mul_is_commutative(2 * x, m);
    lemma_div_multiples_vanish(2 * x, m);
    assert((2 * x) * m <= 1500 * x) by (nonlinear_arith)
        requires
            2 * m <= 1500,
            x >= 0,
    ;
    lemma_div_is_ordered((2 * x) * m, 1500 * x, m);
    assert(((2 * x) * m) / m == 2 * x);
}

/// The conditioned form of a four-channel pixel buffer: grayscale collapse,
/// binarization at the global optimal threshold, then the upscale policy.
pub open spec fn conditioned_of(pixels: Seq<u8>, w: int, h: int) -> Seq<u8> {
    let b = binarized(gray_of(pixels), otsu_threshold_of(gray_of(pixels)) as u8);
    if needs_upscale(w, h) {
        lanczos_resized(b, w, h, scaled_width(w, h), scaled_height(w, h))
    } else {
        b
    }
}

/// Conditions a raw capture for recognition: grayscale, binarize at the
/// optimal threshold, and upscale when under the resolution floor. An image
/// already at 1500 pixels in both dimensions keeps its dimensions and is
/// never resampled.
pub fn condition(img: &RgbaBitmap) -> (out: GrayBitmap)
    requires
        img.wf(),
        1 <= img.width,
        1 <= img.height,
        img.width * img.height <= 0x8000_0000,
        needs_upscale(img.width as int, img.height as int) ==> scaled_width(
            img.width as int,
            img.height as int,
        ) * scaled_height(img.width as int, img.height as int) <= 0x8000_0000,
    ensures
        out.wf(),
        out.width == conditioned_width(img.width as int, img.height as int),
        out.height == conditioned_height(img.width as int, img.height as int),
        out.pixels@ == conditioned_of(img.pixels@, img.width as int, img.height as int),
        needs_upscale(img.width as int, img.height as int) ==> out.width >= 1500 && out.height
            >= 1500 && out.width >= 2 * img.width && out.height >= 2 * img.height,
{
    let wi = img.width;
    let hi = img.height;
    proof {
        assert((wi as int) <= (wi as int) * (hi as int) && (hi as int) <= (wi as int) * (
        hi as int)) by (nonlinear_arith)
            requires
                1 <= (wi as int),
                1 <= (hi as int),
        ;
    }
    let g = to_grayscale(img);
    let t = compute_threshold(&g);
    proof {
        lemma_otsu_threshold_unique(g.pixels@, t as int);
    }
    let b = apply_threshold(&g, t);
    if wi >= 1500 && hi >= 1500 {
        b
    } else {
        proof {
            lemma_scaled_dims(wi as int, hi as int);
        }
        let w64: u64 = wi as u64;
        let h64: u64 = hi as u64;
        let m: u64 = if w64 <= h64 {
            w64
        } else {
            h64
        };
        let (sw64, sh64): (u64, u64) = if 2 * m >= 1500 {
            (2 * w64, 2 * h64)
        } else {
            ((1500 * w64) / m, (1500 * h64) / m)
        };
        proof {
            assert(sw64 == scaled_width(wi as int, hi as int));
            assert(sh64 == scaled_height(wi as int, hi as int));
            assert((sw64 as int) <= (sw64 as int) * (sh64 as int) && (sh64 as int) <= (sw64 as int)
                * (sh64 as int)) by (nonlinear_arith)
                requires
                    1 <= (sw64 as int),
                    1 <= (sh64 as int),
            ;
        }
        resize_lanczos(&b, sw64 as usize, sh64 as usize)
    }
}

} // verus!
