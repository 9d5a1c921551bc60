//! Error types for frame and plane operations.

use vstd::prelude::*;

verus! {

/// The error type for frame and plane operations.
///
/// This enum represents all error conditions that can occur while
/// constructing a frame or copying data into a plane.
#[derive(Debug, Clone, Copy, PartialEq, Eq, Structural)]
pub enum Error {
    /// The provided data buffer size does not match the expected size.
    DataLength {
        /// The expected data length based on the plane's dimensions.
        expected: usize,
        /// The actual length of the provided data.
        found: usize,
    },
    /// A frame was requested with a bit depth outside the supported
    /// range of 8 to 16 bits.
    UnsupportedBitDepth {
        /// The requested bit depth which triggered the error.
        found: u8,
    },
    /// The pixel data type does not match the specified bit depth:
    /// 8-bit frames must use a one-byte pixel kind, while 9-16 bit
    /// frames must use a two-byte pixel kind.
    DataTypeMismatch,
    /// The frame dimensions or padding are incompatible with the chroma
    /// subsampling format (the division by the subsample ratio would
    /// leave a remainder).
    UnsupportedResolution,
    /// A caller-supplied row stride is smaller than the visible width.
    InvalidStride {
        /// The stride which triggered the error.
        stride: usize,
        /// The visible width of the plane.
        width: usize,
    },
}

} // verus!
