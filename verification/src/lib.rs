//! A small matrix-multiplication engine built around message-passing
//! parallelism: a matrix multiply is split into one independent dot-product
//! job per output cell, jobs are assigned round-robin by destination index,
//! and replies are written back by index so the result is deterministic
//! whatever order they arrive in.
//!
//! Elements are `i64` with wrapping add and multiply as the explicit
//! overflow policy, so every operation is total.

pub mod error;
pub mod jobs;
pub mod matrix;
pub mod metrics;
pub mod render;
pub mod vector;

pub use error::MatrixError;
pub use error::MetricsError;
pub use matrix::multiply_matrix;
pub use matrix::Matrix;
pub use metrics::AmapMetrics;
pub use vector::dot_product;
pub use vector::Vector;
