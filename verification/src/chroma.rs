//! Chroma subsampling formats for YUV video frames.
//!
//! The [`ChromaSubsampling`] enum specifies how chroma (color) information
//! is sampled relative to luma (brightness) information. Each format
//! imposes a divisibility constraint on valid frame dimensions so that
//! the chroma dimensions are exact integer quotients:
//!
//! - YUV420: chroma at half width and half height (even width and height)
//! - YUV422: chroma at half width, full height (even width)
//! - YUV444: full resolution chroma (no constraint)
//! - Monochrome: no chroma planes at all

use vstd::prelude::*;

verus! {

/// Specifies the chroma subsampling for a YUV frame.
#[derive(Debug, Clone, Copy, PartialEq, Eq, Structural)]
pub enum ChromaSubsampling {
    /// Chroma at half width, half height
    Yuv420,
    /// Chroma at half width, full height
    Yuv422,
    /// Chroma at full resolution
    Yuv444,
    /// No chroma planes
    Monochrome,
}

impl ChromaSubsampling {
    /// The divisor applied to each luma axis to obtain the chroma
    /// dimensions, or `None` for a format without chroma planes.
    pub open spec fn spec_subsample_ratio(self) -> Option<(u8, u8)> {
        match self {
            ChromaSubsampling::Yuv420 => Some((2u8, 2u8)),
            ChromaSubsampling::Yuv422 => Some((2u8, 1u8)),
            ChromaSubsampling::Yuv444 => Some((1u8, 1u8)),
            ChromaSubsampling::Monochrome => None,
        }
    }

    /// Whether the format stores chroma planes at all.
    pub open spec fn spec_has_chroma(self) -> bool {
        self != ChromaSubsampling::Monochrome
    }

    /// The chroma plane dimensions for the given luma dimensions:
    /// the exact integer quotients by the subsample ratio, or `None`
    /// if the format has no chroma planes or either luma dimension is
    /// not exactly divisible by its ratio component.
    pub open spec fn spec_chroma_dimensions(
        self,
        luma_width: usize,
        luma_height: usize,
    ) -> Option<(usize, usize)> {
        match self.spec_subsample_ratio() {
            None => None,
            Some((ss_x, ss_y)) => {
                if luma_width % (ss_x as usize) == 0 && luma_height % (ss_y as usize) == 0 {
                    Some((
                        (luma_width / (ss_x as usize)) as usize,
                        (luma_height / (ss_y as usize)) as usize,
                    ))
                } else {
                    None
                }
            },
        }
    }

    /// Whether the specified chroma subsampling has chroma planes.
    pub fn has_chroma(&self) -> (r: bool)
        ensures
            r == self.spec_has_chroma(),
    {
        *self != Self::Monochrome
    }

    /// Returns the divisor for the chroma dimensions for the given
    /// subsampling, or `None` for monochrome.
    pub fn subsample_ratio(&self) -> (r: Option<(u8, u8)>)
        ensures
            r == self.spec_subsample_ratio(),
    {
        match self {
            ChromaSubsampling::Yuv420 => Some((2, 2)),
            ChromaSubsampling::Yuv422 => Some((2, 1)),
            ChromaSubsampling::Yuv444 => Some((1, 1)),
            ChromaSubsampling::Monochrome => None,
        }
    }

    /// Computes the dimensions for a chroma plane with the current
    /// subsampling for the given luma dimensions.
    ///
    /// Returns `None` if the subsampling has no chroma planes, or if the
    /// subsampling is invalid for the luma dimensions (e.g. odd
    /// resolution for YUV420).
    pub fn chroma_dimensions(&self, luma_width: usize, luma_height: usize) -> (r: Option<
        (usize, usize),
    >)
        ensures
            r == self.spec_chroma_dimensions(luma_width, luma_height),
    {
        match self.subsample_ratio() {
            None => None,
            Some((ss_x, ss_y)) => {
                let ss_x: usize = ss_x as usize;
                let ss_y: usize = ss_y as usize;
                if luma_width % ss_x == 0 && luma_height % ss_y == 0 {
                    Some((luma_width / ss_x, luma_height / ss_y))
                } else {
                    None
                }
            },
        }
    }
}

/// For even luma dimensions, 4:2:0 chroma planes are exactly half the
/// luma size in both axes; if either dimension is odd, no chroma
/// dimensions exist.
pub proof fn lemma_yuv420_chroma_dimensions(luma_width: usize, luma_height: usize)
    ensures
        luma_width % 2 == 0 && luma_height % 2 == 0
            ==> ChromaSubsampling::Yuv420.spec_chroma_dimensions(luma_width, luma_height)
            == Some(((luma_width / 2) as usize, (luma_height / 2) as usize)),
        luma_width % 2 != 0 || luma_height % 2 != 0
            ==> ChromaSubsampling::Yuv420.spec_chroma_dimensions(luma_width, luma_height) is None,
{
}

/// 4:4:4 chroma planes always exist at the full luma size, and a
/// monochrome frame never has chroma dimensions.
pub proof fn lemma_full_and_absent_chroma_dimensions(luma_width: usize, luma_height: usize)
    requires
        luma_width > 0,
        luma_height > 0,
    ensures
        ChromaSubsampling::Yuv444.spec_chroma_dimensions(luma_width, luma_height) == Some(
            (luma_width, luma_height),
        ),
        ChromaSubsampling::Monochrome.spec_chroma_dimensions(luma_width, luma_height) is None,
{
    assert(luma_width as int % 1 == 0 && luma_width as int / 1 == luma_width as int)
        by (nonlinear_arith);
    assert(luma_height as int % 1 == 0 && luma_height as int / 1 == luma_height as int)
        by (nonlinear_arith);
}

} // verus!
