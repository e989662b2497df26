//! A small feed-forward neural-network engine.
//!
//! The crate provides bias-aware signal buffers, weight and delta
//! matrices, layers that propagate signals forward and error terms
//! backward, validated topologies, and a training loop (the mentor) that
//! fits a layered network to labeled samples by gradient descent.
//!
//! Every single-precision value is carried as its raw IEEE-754 binary32
//! bit pattern (`u32`); the rounding arithmetic of the format is performed
//! by a software implementation behind the wrappers of [`arith`], the
//! format's comparisons are implemented directly on the patterns in
//! [`fbits`], and every contract states results exactly in terms of those
//! operations.

pub mod fbits;
pub mod arith;
pub mod errors;
pub mod buffer;
pub mod activation;
pub mod topology;
pub mod table;
pub mod matrix;
pub mod layer;
pub mod rng;
pub mod mentor;
