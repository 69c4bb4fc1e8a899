//! Incremental raster-to-vector conversion: transparency keying, the staged
//! converters for single-colour and multi-colour images, and the output
//! document they build.

pub mod binary;
pub mod color;
pub mod document;
pub mod engine;
pub mod keying;
