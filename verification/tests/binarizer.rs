use ocr_pipeline::bitmap::GrayBitmap;
use ocr_pipeline::binarize::apply_threshold;
use ocr_pipeline::histogram::histogram;
use ocr_pipeline::otsu::compute_threshold;

fn gray(width: usize, height: usize, pixels: Vec<u8>) -> GrayBitmap {
    assert_eq!(pixels.len(), width * height);
    GrayBitmap { width, height, pixels }
}

#[test]
fn histogram_counts_intensities() {
    let h = histogram(&vec![0, 0, 5, 255, 5, 5]);
    assert_eq!(h.len(), 256);
    assert_eq!(h[0], 2);
    assert_eq!(h[5], 3);
    assert_eq!(h[255], 1);
    assert_eq!(h[1], 0);
}

#[test]
fn threshold_all_zero_image_is_zero() {
    let img = gray(10, 10, vec![0; 100]);
    assert_eq!(compute_threshold(&img), 0);
}

#[test]
fn threshold_uniform_image_is_zero() {
    let img = gray(10, 10, vec![77; 100]);
    assert_eq!(compute_threshold(&img), 0);
}

#[test]
fn threshold_two_spikes_ties_keep_first() {
    let mut pixels = vec![0u8; 50];
    pixels.extend(vec![255u8; 50]);
    let img = gray(10, 10, pixels);
    // every cut from 0 through 254 separates the two spikes equally well;
    // the sweep keeps the first
    assert_eq!(compute_threshold(&img), 0);
}

#[test]
fn threshold_two_valued_separates_populations() {
    let mut pixels = vec![50u8; 30];
    pixels.extend(vec![200u8; 70]);
    let img = gray(10, 10, pixels);
    let t = compute_threshold(&img);
    // the threshold parts the populations: 50s low, 200s high
    assert!(50 <= t && t < 200);
    // the lowest separating cut already maximizes the variance
    assert_eq!(t, 50);
}

#[test]
fn threshold_bimodal_lies_between_population_means() {
    let mut pixels = Vec::new();
    pixels.extend(vec![40u8; 10]);
    pixels.extend(vec![60u8; 10]);
    pixels.extend(vec![190u8; 10]);
    pixels.extend(vec![210u8; 10]);
    let img = gray(8, 5, pixels);
    let t = compute_threshold(&img);
    assert_eq!(t, 60);
    // strictly between the population means 50 and 200
    assert!(50 < t && t < 200);
}

#[test]
fn threshold_low_variance_lands_most_pixels_in_one_class() {
    let mut pixels = vec![100u8; 100];
    pixels.extend(vec![102u8; 5]);
    let img = gray(105, 1, pixels);
    let t = compute_threshold(&img);
    assert_eq!(t, 100);
    let binary = apply_threshold(&img, t);
    let low = binary.pixels.iter().filter(|&&p| p == 0).count();
    let high = binary.pixels.len() - low;
    let biggest = low.max(high);
    // at least 95% of the pixels land in one binary class
    assert!(biggest * 100 >= 95 * binary.pixels.len());
}

#[test]
fn apply_threshold_maps_exactly_at_cut() {
    let img = gray(4, 1, vec![0, 100, 101, 255]);
    let binary = apply_threshold(&img, 100);
    assert_eq!(binary.pixels, vec![0, 0, 255, 255]);
    assert_eq!(binary.width, 4);
    assert_eq!(binary.height, 1);
}

#[test]
fn apply_threshold_idempotent_on_own_output() {
    let img = gray(3, 2, vec![13, 200, 99, 100, 101, 0]);
    for t in [0u8, 99, 100, 255] {
        let once = apply_threshold(&img, t);
        let twice = apply_threshold(&once, t);
        assert_eq!(once.pixels, twice.pixels);
    }
}
