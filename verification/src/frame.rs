//! YUV video frame structures and builders.
//!
//! A [`Frame`] owns one luma (Y) plane and, unless the frame is
//! monochrome, two chroma (U and V) planes sharing one
//! [`ChromaSubsampling`] tag. Frames are constructed only through
//! [`FrameBuilder`], which validates the whole layout — bit depth
//! against pixel kind, dimensions and padding against the subsampling
//! ratio — before any plane is allocated, and derives the chroma
//! geometry from the luma geometry so the planes' border regions stay
//! in registration.

use crate::chroma::ChromaSubsampling;
use crate::error::Error;
use crate::pixel::Pixel;
use crate::plane::{Plane, PlaneGeometry};
use vstd::arithmetic::div_mod::{lemma_div_non_zero, lemma_small_mod};
use vstd::prelude::*;

verus! {

/// Contains the data representing one YUV video frame.
#[derive(Clone)]
pub struct Frame<T: Pixel, const BIT_DEPTH: u8> {
    /// The luma plane for this frame
    pub y_plane: Plane<T, BIT_DEPTH>,
    /// The first chroma plane for this frame, or `None` if this is a
    /// grayscale frame
    pub u_plane: Option<Plane<T, BIT_DEPTH>>,
    /// The second chroma plane for this frame, or `None` if this is a
    /// grayscale frame
    pub v_plane: Option<Plane<T, BIT_DEPTH>>,
    /// The chroma subsampling for this frame
    pub subsampling: ChromaSubsampling,
}

/// A builder for constructing [`Frame`] instances with validation.
///
/// Width, height and subsampling are fixed at creation; the four luma
/// padding values default to zero and can be set afterwards. The
/// terminal [`build`](FrameBuilder::build) call validates the whole
/// configuration and either produces a frame or reports the first
/// failing check.
pub struct FrameBuilder {
    /// Visible width in pixels.
    width: usize,
    /// Visible height in pixels.
    height: usize,
    /// Chroma subsampling format.
    subsampling: ChromaSubsampling,
    /// Number of padding pixels on the left of the luma plane.
    luma_padding_left: usize,
    /// Number of padding pixels on the right of the luma plane.
    luma_padding_right: usize,
    /// Number of padding pixels on the top of the luma plane.
    luma_padding_top: usize,
    /// Number of padding pixels on the bottom of the luma plane.
    luma_padding_bottom: usize,
}

impl FrameBuilder {
    /// The configured visible width.
    pub closed spec fn spec_width(self) -> usize {
        self.width
    }

    /// The configured visible height.
    pub closed spec fn spec_height(self) -> usize {
        self.height
    }

    /// The configured chroma subsampling.
    pub closed spec fn spec_subsampling(self) -> ChromaSubsampling {
        self.subsampling
    }

    /// The configured left luma padding.
    pub closed spec fn spec_luma_padding_left(self) -> usize {
        self.luma_padding_left
    }

    /// The configured right luma padding.
    pub closed spec fn spec_luma_padding_right(self) -> usize {
        self.luma_padding_right
    }

    /// The configured top luma padding.
    pub closed spec fn spec_luma_padding_top(self) -> usize {
        self.luma_padding_top
    }

    /// The configured bottom luma padding.
    pub closed spec fn spec_luma_padding_bottom(self) -> usize {
        self.luma_padding_bottom
    }

    /// The luma plane geometry this configuration describes: the
    /// visible size with the four padding values, and a stride of the
    /// width plus the horizontal padding.
    pub open spec fn spec_luma_geometry(self) -> PlaneGeometry {
        PlaneGeometry {
            width: self.spec_width(),
            height: self.spec_height(),
            stride: (self.spec_width() + self.spec_luma_padding_left()
                + self.spec_luma_padding_right()) as usize,
            pad_left: self.spec_luma_padding_left(),
            pad_right: self.spec_luma_padding_right(),
            pad_top: self.spec_luma_padding_top(),
            pad_bottom: self.spec_luma_padding_bottom(),
        }
    }

    /// Whether every luma padding value is evenly divisible by its
    /// axis's subsample ratio component.
    pub open spec fn spec_padding_aligned(self) -> bool {
        match self.spec_subsampling().spec_subsample_ratio() {
            None => true,
            Some((ss_x, ss_y)) => {
                &&& self.spec_luma_padding_left() as int % (ss_x as int) == 0
                &&& self.spec_luma_padding_right() as int % (ss_x as int) == 0
                &&& self.spec_luma_padding_top() as int % (ss_y as int) == 0
                &&& self.spec_luma_padding_bottom() as int % (ss_y as int) == 0
            },
        }
    }

    /// The chroma plane geometry this configuration describes: the
    /// chroma dimensions, with each luma padding divided by its ratio
    /// component. Meaningful only for a format with chroma planes whose
    /// dimensions divide evenly.
    pub open spec fn spec_chroma_geometry(self) -> PlaneGeometry {
        let (ss_x, ss_y) = self.spec_subsampling().spec_subsample_ratio().unwrap();
        let (cw, ch) = self.spec_subsampling().spec_chroma_dimensions(
            self.spec_width(),
            self.spec_height(),
        ).unwrap();
        let cpl = (self.spec_luma_padding_left() as int / (ss_x as int)) as usize;
        let cpr = (self.spec_luma_padding_right() as int / (ss_x as int)) as usize;
        let cpt = (self.spec_luma_padding_top() as int / (ss_y as int)) as usize;
        let cpb = (self.spec_luma_padding_bottom() as int / (ss_y as int)) as usize;
        PlaneGeometry {
            width: cw,
            height: ch,
            stride: (cw + cpl + cpr) as usize,
            pad_left: cpl,
            pad_right: cpr,
            pad_top: cpt,
            pad_bottom: cpb,
        }
    }

    /// Creates a new frame builder, taking the parameters that are
    /// required for all frames. The builder then allows for setting
    /// additional, optional parameters.
    pub fn new(width: usize, height: usize, subsampling: ChromaSubsampling) -> (r: Self)
        requires
            width > 0,
            height > 0,
        ensures
            r.spec_width() == width,
            r.spec_height() == height,
            r.spec_subsampling() == subsampling,
            r.spec_luma_padding_left() == 0,
            r.spec_luma_padding_right() == 0,
            r.spec_luma_padding_top() == 0,
            r.spec_luma_padding_bottom() == 0,
    {
        Self {
            width,
            height,
            subsampling,
            luma_padding_left: 0,
            luma_padding_right: 0,
            luma_padding_top: 0,
            luma_padding_bottom: 0,
        }
    }

    /// Set the `luma_padding_left` for the frame builder.
    pub fn luma_padding_left(self, luma_padding_left: usize) -> (r: Self)
        ensures
            r.spec_luma_padding_left() == luma_padding_left,
            r.spec_width() == self.spec_width(),
            r.spec_height() == self.spec_height(),
            r.spec_subsampling() == self.spec_subsampling(),
            r.spec_luma_padding_right() == self.spec_luma_padding_right(),
            r.spec_luma_padding_top() == self.spec_luma_padding_top(),
            r.spec_luma_padding_bottom() == self.spec_luma_padding_bottom(),
    {
        Self { luma_padding_left, ..self }
    }

    /// Set the `luma_padding_right` for the frame builder.
    pub fn luma_padding_right(self, luma_padding_right: usize) -> (r: Self)
        ensures
            r.spec_luma_padding_right() == luma_padding_right,
            r.spec_width() == self.spec_width(),
            r.spec_height() == self.spec_height(),
            r.spec_subsampling() == self.spec_subsampling(),
            r.spec_luma_padding_left() == self.spec_luma_padding_left(),
            r.spec_luma_padding_top() == self.spec_luma_padding_top(),
            r.spec_luma_padding_bottom() == self.spec_luma_padding_bottom(),
    {
        Self { luma_padding_right, ..self }
    }

    /// Set the `luma_padding_top` for the frame builder.
    pub fn luma_padding_top(self, luma_padding_top: usize) -> (r: Self)
        ensures
            r.spec_luma_padding_top() == luma_padding_top,
            r.spec_width() == self.spec_width(),
            r.spec_height() == self.spec_height(),
            r.spec_subsampling() == self.spec_subsampling(),
            r.spec_luma_padding_left() == self.spec_luma_padding_left(),
            r.spec_luma_padding_right() == self.spec_luma_padding_right(),
            r.spec_luma_padding_bottom() == self.spec_luma_padding_bottom(),
    {
        Self { luma_padding_top, ..self }
    }

    /// Set the `luma_padding_bottom` for the frame builder.
    pub fn luma_padding_bottom(self, luma_padding_bottom: usize) -> (r: Self)
        ensures
            r.spec_luma_padding_bottom() == luma_padding_bottom,
            r.spec_width() == self.spec_width(),
            r.spec_height() == self.spec_height(),
            r.spec_subsampling() == self.spec_subsampling(),
            r.spec_luma_padding_left() == self.spec_luma_padding_left(),
            r.spec_luma_padding_right() == self.spec_luma_padding_right(),
            r.spec_luma_padding_top() == self.spec_luma_padding_top(),
    {
        Self { luma_padding_bottom, ..self }
    }

    /// Constructs a `Frame` from the current builder.
    ///
    /// # Errors
    /// - Returns `Error::UnsupportedBitDepth` if the bit depth is
    ///   outside the supported range of 8 to 16 bits
    /// - Returns `Error::DataTypeMismatch` if the byte width of `T`
    ///   does not match the bit depth category
    /// - Returns `Error::UnsupportedResolution` if the resolution or
    ///   padding dimensions do not support the requested subsampling
    pub fn build<T: Pixel, const BIT_DEPTH: u8>(self) -> (r: Result<Frame<T, BIT_DEPTH>, Error>)
        requires
            self.spec_width() > 0,
            self.spec_height() > 0,
            (self.spec_width() + self.spec_luma_padding_left() + self.spec_luma_padding_right()) * (
            self.spec_height() + self.spec_luma_padding_top() + self.spec_luma_padding_bottom())
                * T::spec_byte_width() <= usize::MAX,
        ensures
            spec_build_result::<T, BIT_DEPTH>(self, r),
    {
        proof {
            T::pixel_model();
        }
        if BIT_DEPTH < 8 || BIT_DEPTH > 16 {
            return Err(Error::UnsupportedBitDepth { found: BIT_DEPTH });
        }
        let bw = T::byte_width();
        if (bw == 1 && BIT_DEPTH != 8) || (bw == 2 && BIT_DEPTH <= 8) {
            return Err(Error::DataTypeMismatch);
        }
        let ghost lsum = self.spec_width() + self.spec_luma_padding_left()
            + self.spec_luma_padding_right();
        let ghost rsum = self.spec_height() + self.spec_luma_padding_top()
            + self.spec_luma_padding_bottom();
        proof {
            assert(lsum <= lsum * rsum && lsum * rsum <= lsum * rsum * T::spec_byte_width())
                by (nonlinear_arith)
                requires
                    lsum >= 1,
                    rsum >= 1,
                    T::spec_byte_width() >= 1,
            ;
        }
        let luma_stride = self.width + self.luma_padding_left + self.luma_padding_right;
        let luma_geometry = PlaneGeometry {
            width: self.width,
            height: self.height,
            stride: luma_stride,
            pad_left: self.luma_padding_left,
            pad_right: self.luma_padding_right,
            pad_top: self.luma_padding_top,
            pad_bottom: self.luma_padding_bottom,
        };
        proof {
            assert(luma_geometry.spec_total_len() == lsum * rsum);
            assert(luma_geometry.spec_valid());
            assert(luma_geometry == self.spec_luma_geometry());
        }
        if !self.subsampling.has_chroma() {
            return Ok(
                Frame {
                    y_plane: Plane::new(luma_geometry),
                    u_plane: None,
                    v_plane: None,
                    subsampling: self.subsampling,
                },
            );
        }
        let dims = self.subsampling.chroma_dimensions(self.width, self.height);
        let (chroma_width, chroma_height) = match dims {
            None => {
                return Err(Error::UnsupportedResolution);
            },
            Some(d) => d,
        };
        let ratio = self.subsampling.subsample_ratio().unwrap();
        let ss_x = ratio.0 as usize;
        let ss_y = ratio.1 as usize;
        if self.luma_padding_left % ss_x > 0 || self.luma_padding_right % ss_x > 0
            || self.luma_padding_top % ss_y > 0 || self.luma_padding_bottom % ss_y > 0 {
            return Err(Error::UnsupportedResolution);
        }
        let chroma_padding_left = self.luma_padding_left / ss_x;
        let chroma_padding_right = self.luma_padding_right / ss_x;
        let chroma_padding_top = self.luma_padding_top / ss_y;
        let chroma_padding_bottom = self.luma_padding_bottom / ss_y;
        proof {
            lemma_chroma_parts_bounded(self.width as int, ss_x as int, chroma_width as int);
            lemma_chroma_parts_bounded(self.height as int, ss_y as int, chroma_height as int);
            lemma_div_le_self(self.luma_padding_left as int, ss_x as int);
            lemma_div_le_self(self.luma_padding_right as int, ss_x as int);
            lemma_div_le_self(self.luma_padding_top as int, ss_y as int);
            lemma_div_le_self(self.luma_padding_bottom as int, ss_y as int);
        }
        let chroma_stride = chroma_width + chroma_padding_left + chroma_padding_right;
        let chroma_geometry = PlaneGeometry {
            width: chroma_width,
            height: chroma_height,
            stride: chroma_stride,
            pad_left: chroma_padding_left,
            pad_right: chroma_padding_right,
            pad_top: chroma_padding_top,
            pad_bottom: chroma_padding_bottom,
        };
        proof {
            assert(chroma_geometry == self.spec_chroma_geometry());
            assert(chroma_geometry.spec_total_len() * T::spec_byte_width()
                <= luma_geometry.spec_total_len() * T::spec_byte_width()) by (nonlinear_arith)
                requires
                    0 <= chroma_geometry.stride <= luma_geometry.stride,
                    0 <= chroma_geometry.spec_total_rows() <= luma_geometry.spec_total_rows(),
                    chroma_geometry.spec_total_len() == chroma_geometry.stride
                        * chroma_geometry.spec_total_rows(),
                    luma_geometry.spec_total_len() == luma_geometry.stride
                        * luma_geometry.spec_total_rows(),
                    T::spec_byte_width() >= 1,
            ;
            assert(chroma_geometry.spec_total_len() <= chroma_geometry.spec_total_len()
                * T::spec_byte_width()) by (nonlinear_arith)
                requires
                    chroma_geometry.spec_total_len() >= 0,
                    T::spec_byte_width() >= 1,
            ;
            assert(chroma_geometry.spec_valid());
        }
        Ok(
            Frame {
                y_plane: Plane::new(luma_geometry),
                u_plane: Some(Plane::new(chroma_geometry)),
                v_plane: Some(Plane::new(chroma_geometry)),
                subsampling: self.subsampling,
            },
        )
    }
}

/// The quotient of a positive, evenly-divisible dividend is positive
/// and no larger than the dividend.
proof fn lemma_chroma_parts_bounded(n: int, d: int, q: int)
    requires
        n > 0,
        d >= 1,
        n % d == 0,
        q == n / d,
    ensures
        1 <= q <= n,
{
    if n < d {
        lemma_small_mod(n as nat, d as nat);
    }
    lemma_div_non_zero(n, d);
    lemma_div_le_self(n, d);
}

/// Integer division by a positive divisor never increases a
/// non-negative dividend.
proof fn lemma_div_le_self(n: int, d: int)
    requires
        n >= 0,
        d >= 1,
    ensures
        0 <= n / d <= n,
{
    assert(0 <= n / d <= n) by (nonlinear_arith)
        requires
            n >= 0,
            d >= 1,
    ;
}

/// Everything [`FrameBuilder::build`] promises, as one relation between
/// the builder's configuration and the outcome. The checks apply in
/// order, the first failing one naming the error: the bit depth must
/// lie in 8 to 16; the pixel kind's byte width must match the bit depth
/// category; a monochrome frame then builds a zero-filled luma plane
/// only; otherwise the luma dimensions must divide evenly by the
/// subsample ratio, and so must every luma padding value; the frame
/// then holds a zero-filled luma plane and two zero-filled chroma
/// planes of the derived chroma geometry.
pub open spec fn spec_build_result<T: Pixel, const BIT_DEPTH: u8>(
    b: FrameBuilder,
    r: Result<Frame<T, BIT_DEPTH>, Error>,
) -> bool {
    if !(8 <= BIT_DEPTH <= 16) {
        r == Err::<Frame<T, BIT_DEPTH>, Error>(Error::UnsupportedBitDepth { found: BIT_DEPTH })
    } else if !(T::spec_byte_width() == 1 <==> BIT_DEPTH == 8) {
        r == Err::<Frame<T, BIT_DEPTH>, Error>(Error::DataTypeMismatch)
    } else if !b.spec_subsampling().spec_has_chroma() {
        &&& r is Ok
        &&& r.unwrap().subsampling == b.spec_subsampling()
        &&& r.unwrap().y_plane.spec_fresh(b.spec_luma_geometry())
        &&& r.unwrap().u_plane is None
        &&& r.unwrap().v_plane is None
    } else if b.spec_subsampling().spec_chroma_dimensions(b.spec_width(), b.spec_height())
        is None {
        r == Err::<Frame<T, BIT_DEPTH>, Error>(Error::UnsupportedResolution)
    } else if !b.spec_padding_aligned() {
        r == Err::<Frame<T, BIT_DEPTH>, Error>(Error::UnsupportedResolution)
    } else {
        &&& r is Ok
        &&& r.unwrap().subsampling == b.spec_subsampling()
        &&& r.unwrap().y_plane.spec_fresh(b.spec_luma_geometry())
        &&& r.unwrap().u_plane is Some
        &&& r.unwrap().u_plane.unwrap().spec_fresh(b.spec_chroma_geometry())
        &&& r.unwrap().v_plane is Some
        &&& r.unwrap().v_plane.unwrap().spec_fresh(b.spec_chroma_geometry())
    }
}

/// Building a frame with zero padding on every side never errors, for
/// any subsampling, whenever the bit depth lies in 8 to 16 and matches
/// the pixel kind and the dimensions satisfy the subsampling's
/// divisibility.
pub proof fn lemma_zero_padding_builds<T: Pixel, const BIT_DEPTH: u8>(
    b: FrameBuilder,
    r: Result<Frame<T, BIT_DEPTH>, Error>,
)
    requires
        8 <= BIT_DEPTH <= 16,
        (T::spec_byte_width() == 1 <==> BIT_DEPTH == 8),
        b.spec_luma_padding_left() == 0,
        b.spec_luma_padding_right() == 0,
        b.spec_luma_padding_top() == 0,
        b.spec_luma_padding_bottom() == 0,
        b.spec_subsampling().spec_has_chroma() ==> b.spec_subsampling().spec_chroma_dimensions(
            b.spec_width(),
            b.spec_height(),
        ) is Some,
        spec_build_result::<T, BIT_DEPTH>(b, r),
    ensures
        r is Ok,
{
    if let Some((ss_x, ss_y)) = b.spec_subsampling().spec_subsample_ratio() {
        lemma_small_mod(0, ss_x as nat);
        lemma_small_mod(0, ss_y as nat);
        assert(b.spec_padding_aligned());
    }
}

} // verus!
