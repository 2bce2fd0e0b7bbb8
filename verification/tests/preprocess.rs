use ocr_pipeline::bitmap::{luma, to_grayscale, GrayBitmap, RgbaBitmap};
use ocr_pipeline::binarize::apply_threshold;
use ocr_pipeline::encode::encode_png;
use ocr_pipeline::otsu::compute_threshold;
use ocr_pipeline::preprocess::condition;

fn rgba_uniformish(width: usize, height: usize) -> RgbaBitmap {
    // two intensity populations laid out row by row
    let mut pixels = Vec::with_capacity(4 * width * height);
    for j in 0..width * height {
        let v: u8 = if j % 3 == 0 { 30 } else { 220 };
        pixels.extend([v, v, v, 255]);
    }
    RgbaBitmap { width, height, pixels }
}

#[test]
fn luma_uses_srgb_weights() {
    assert_eq!(luma(255, 255, 255), 255);
    assert_eq!(luma(0, 0, 0), 0);
    // (2126 * 100 + 7152 * 150 + 722 * 200) / 10000 == 142
    assert_eq!(luma(100, 150, 200), 142);
}

#[test]
fn grayscale_collapses_channels_ignores_alpha() {
    let img = RgbaBitmap {
        width: 2,
        height: 1,
        pixels: vec![100, 150, 200, 0, 255, 255, 255, 7],
    };
    let g = to_grayscale(&img);
    assert_eq!(g.pixels, vec![142, 255]);
    assert_eq!((g.width, g.height), (2, 1));
}

#[test]
fn condition_large_image_is_never_upscaled() {
    let img = rgba_uniformish(1500, 1500);
    let out = condition(&img);
    assert_eq!((out.width, out.height), (1500, 1500));
    // the result is exactly the binarized grayscale, untouched by resampling
    let gray = to_grayscale(&img);
    let expected = apply_threshold(&gray, compute_threshold(&gray));
    assert_eq!(out.pixels, expected.pixels);
}

#[test]
fn condition_small_image_reaches_resolution_floor() {
    let img = rgba_uniformish(100, 100);
    let out = condition(&img);
    // scale = max(1500 / 100, 2) = 15, exactly the floor in both dimensions
    assert_eq!((out.width, out.height), (1500, 1500));
    // single channel: one byte per pixel
    assert_eq!(out.pixels.len(), 1500 * 1500);
}

#[test]
fn condition_near_floor_image_at_least_doubles() {
    let img = rgba_uniformish(1400, 1600);
    let out = condition(&img);
    // min dimension 1400 is beyond 750, so the scale floor of 2 wins
    assert_eq!((out.width, out.height), (2800, 3200));
}

#[test]
fn encode_png_emits_png_stream() {
    let img = GrayBitmap { width: 2, height: 2, pixels: vec![0, 255, 255, 0] };
    let bytes = encode_png(&img).expect("encoding a well-formed image succeeds");
    // PNG signature: the encoder really ran
    assert_eq!(&bytes[0..4], &[137, 80, 78, 71]);
    assert_ne!(bytes, img.pixels);
}
