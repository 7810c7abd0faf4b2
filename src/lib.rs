//! Linear convolution of two finite sequences of integer samples.
//!
//! Samples are fixed-point integers, so every strategy computes the exact
//! convolution `y[n] = sum_k h[k] * x[n - k]`, and the strategies agree exactly.
//! Inputs whose sums of products could leave the range of an `i64` are refused.

pub mod model;
pub mod algebra;
pub mod direct;
pub mod engine;
pub mod fast;
pub mod framed;
pub mod laws;
pub mod padding;
