//! Helpers around the library: image format detection and encoding.

pub mod image;
