//! EE dynamic recompiler (x86-64).
//!
//! Straight-line runs of instructions ("blocks") are translated once and
//! cached by virtual PC. The interpreter stays the reference: instructions
//! the translator does not handle natively are executed by calling back into
//! it, and anything that diverts control ends the block.
//!
//! What a block consists of, where it stands in the arena and how blocks are
//! linked is decided here; turning host operations into bytes and running
//! them is left to the host.

pub mod alu_laws;
pub mod arena;
pub mod block;
pub mod block_laws;
pub mod cache;
pub mod cpu_laws;
pub mod dispatch;
pub mod emit;
pub mod fast;
pub mod fetch;
pub mod laws;
pub mod marks;
pub mod native;
pub mod model;
pub mod place;
