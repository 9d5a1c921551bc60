//! A library for handling YUV video frames and planes.
//!
//! The library provides data structures for working with YUV video data:
//! planes of 8-bit or high bit-depth pixels with SIMD-aligned storage and
//! border padding, frames that group a luma plane with optional chroma
//! planes, and a builder that validates the geometry of a whole frame
//! before any plane is allocated.

pub mod buf;
pub mod chroma;
pub mod error;
pub mod frame;
pub mod pixel;
pub mod plane;
