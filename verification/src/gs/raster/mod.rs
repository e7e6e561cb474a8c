//! Pixel pipeline: the drawing environment, texels, blending and the
//! frame-buffer write path, and the bookkeeping of the primitives that are
//! queued for one parallel pass.

pub mod batch;
pub mod laws;
pub mod mirror;
pub mod pipe;
pub mod pixel;
pub mod span;
pub mod texture;
pub mod texture_laws;
