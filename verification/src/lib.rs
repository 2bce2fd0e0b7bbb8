//! Verified core of a clipboard-to-text recognition pipeline.
//!
//! The library conditions a raw bitmap for a text-recognition engine
//! (grayscale conversion, histogram-based binarization, adaptive upscaling),
//! frames the conditioned image as encoded bytes for the engine, applies the
//! fixed post-processing substitution to recognized text, and drives the
//! job state machine that keeps a single-threaded presentation loop
//! responsive while one recognition job at a time runs on a worker.

pub mod bitmap;
pub mod histogram;
pub mod otsu;
pub mod binarize;
pub mod preprocess;
pub mod encode;
pub mod textproc;
pub mod controller;
