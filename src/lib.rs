//! Adaptive quality-of-service control for a screen-streaming video pipeline.
//!
//! Ratios are fixed-point values in thousandths (a ratio of `1.0` is `1000`).

pub mod quality;
pub mod engine;
pub mod qos;
pub mod laws;
