//! A verified batch pipeline that turns a directory of images into
//! fixed-length embedding vectors and ledgers their upload to a vector
//! store.
//!
//! The pipeline's stages are: discovery of image paths, batching,
//! decode and preprocessing into fixed-shape tensors of 32-bit float
//! bit patterns, pooling and normalization of raw model output, and
//! record construction with contiguous identifier assignment.  The
//! model call, the store's network round trips and the file reads are
//! the caller's work; every decision and every transformation between
//! them is verified here.

pub mod batching;
pub mod config;
pub mod discovery;
pub mod errors;
pub mod fbits;
pub mod imaging;
pub mod models;
pub mod pipeline;
pub mod pooling;
pub mod preprocess;
pub mod records;
pub mod schedule;
pub mod tensor;

use vstd::prelude::*;

verus! {

/// Number of color channels every decoded image and tensor row carries.
pub const CHANNELS: usize = 3;

} // verus!
