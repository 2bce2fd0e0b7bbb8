//! Binary thresholding of a grayscale bitmap.
//!
//! A threshold splits the intensity range in two: pixels at most the
//! threshold map to the low level 0, pixels above it to the high level 255.

use vstd::prelude::*;
use crate::bitmap::GrayBitmap;
use crate::histogram::count_eq;

verus! {

/// One pixel after thresholding: low for intensity at most `t`, else high.
pub open spec fn bin_px(p: u8, t: u8) -> u8 {
    if p <= t {
        0
    } else {
        255
    }
}

/// A whole pixel buffer after thresholding.
pub open spec fn binarized(s: Seq<u8>, t: u8) -> Seq<u8> {
    s.map_values(|p: u8| bin_px(p, t))
}

/// Produces the two-level image of `img` under threshold `t`: dimensions are
/// kept, and every pixel becomes 0 (at most `t`) or 255 (above `t`).
pub fn apply_threshold(img: &GrayBitmap, t: u8) -> (out: GrayBitmap)
    requires
        img.wf(),
    ensures
        out.wf(),
        out.width == img.width,
        out.height == img.height,
        out.pixels@ == binarized(img.pixels@, t),
{
    let n: usize = img.pixels.len();
    let mut pixels: Vec<u8> = Vec::new();
    let mut j: usize = 0;
    while j < n
        invariant
            n == img.pixels.len(),
            0 <= j <= n,
            pixels.len() == j,
            forall|k: int| 0 <= k < j ==> pixels[k] == bin_px(img.pixels[k], t),
        decreases n - j,
    {
        let p = img.pixels[j];
        if p <= t {
            pixels.push(0);
        } else {
            pixels.push(255);
        }
        j = j + 1;
    }
    proof {
        assert(pixels@ =~= binarized(img.pixels@, t));
    }
    GrayBitmap { width: img.width, height: img.height, pixels }
}

/// Every pixel of one intensity lands in the same binary class: the class
/// of the binarized image at that intensity's level holds at least as many
/// pixels as the intensity held.
pub proof fn lemma_intensity_class_count(s: Seq<u8>, t: u8, v: u8)
    ensures
        count_eq(binarized(s, t), bin_px(v, t) as int) >= count_eq(s, v as int),
    decreases s.len(),
{
    if s.len() == 0 {
    } else {
        let s0 = s.drop_last();
        lemma_intensity_class_count(s0, t, v);
        let b = binarized(s, t);
        assert(b.drop_last() =~= binarized(s0, t));
        assert(b.last() == bin_px(s.last(), t));
    }
}

/// The degenerate-image contract: in an image dominated by one intensity —
/// a single population mode holding at least 95 of every 100 pixels — the
/// binarized image, under any threshold and so in particular the computed
/// one, holds at least that share in one binary class.
pub proof fn lemma_dominant_mode_dominant_class(s: Seq<u8>, t: u8, v: u8)
    requires
        20 * count_eq(s, v as int) >= 19 * s.len(),
    ensures
        20 * count_eq(binarized(s, t), bin_px(v, t) as int) >= 19 * binarized(s, t).len(),
{
    lemma_intensity_class_count(s, t, v);
}

/// Thresholding is idempotent: a two-level image thresholded again with the
/// same threshold is unchanged, whatever the threshold. A low pixel (0) can
/// never exceed the threshold, and a high pixel (255) only exists when the
/// threshold lies below 255.
pub proof fn lemma_binarize_idempotent(s: Seq<u8>, t: u8)
    ensures
        binarized(binarized(s, t), t) == binarized(s, t),
{
    let b = binarized(s, t);
    assert forall|j: int| 0 <= j < b.len() implies bin_px(b[j], t) == b[j] by {
        assert(b[j] == bin_px(s[j], t));
    }
    assert(binarized(b, t) =~= b);
}

} // verus!
