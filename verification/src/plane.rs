//! Plane data structure for storing two-dimensional pixel data.
//!
//! A [`Plane`] owns one contiguous, aligned buffer of pixels together
//! with a [`PlaneGeometry`] describing its layout: a visible rectangle
//! surrounded by optional padding on all four sides. The public API
//! exposes only the visible pixels by default; the raw buffer, padding
//! included, is reachable through the low-level accessors.
//!
//! To keep the layout invariants in one place, planes are created only by
//! building a [`Frame`](crate::frame::Frame) through the
//! [`FrameBuilder`](crate::frame::FrameBuilder) interface.

use crate::error::Error;
use crate::pixel::Pixel;
use vstd::arithmetic::div_mod::{
    lemma_fundamental_div_mod, lemma_fundamental_div_mod_converse, lemma_mod_bound,
};
use vstd::prelude::*;
use vstd::slice::slice_index_get;

verus! {

/// Describes the geometry of a plane, including dimensions and padding.
///
/// The `stride` is the number of stored pixels per row in the data
/// buffer, which is equal to `width + pad_left + pad_right`.
#[derive(Debug, Clone, Copy, PartialEq, Eq, Structural)]
pub struct PlaneGeometry {
    /// Width of the visible area in pixels.
    pub width: usize,
    /// Height of the visible area in pixels.
    pub height: usize,
    /// Data stride (pixels per row in the buffer, including padding).
    pub stride: usize,
    /// Number of padding pixels on the left side.
    pub pad_left: usize,
    /// Number of padding pixels on the right side.
    pub pad_right: usize,
    /// Number of padding pixels on the top.
    pub pad_top: usize,
    /// Number of padding pixels on the bottom.
    pub pad_bottom: usize,
}

impl PlaneGeometry {
    /// Stored rows: the visible height plus the vertical padding.
    pub open spec fn spec_total_rows(self) -> int {
        self.height + self.pad_top + self.pad_bottom
    }

    /// Stored pixels in the whole buffer, padding included.
    pub open spec fn spec_total_len(self) -> int {
        self.stride * self.spec_total_rows()
    }

    /// Linear index of the first visible pixel in the buffer.
    pub open spec fn spec_origin(self) -> int {
        self.stride * self.pad_top + self.pad_left
    }

    /// Linear index of the visible coordinate `(x, y)` in the buffer.
    pub open spec fn spec_index(self, x: int, y: int) -> int {
        self.spec_origin() + y * self.stride + x
    }

    /// Whether linear index `i` falls inside the visible rectangle.
    pub open spec fn spec_is_visible_index(self, i: int) -> bool {
        &&& self.pad_top <= i / (self.stride as int) < self.pad_top + self.height
        &&& self.pad_left <= i % (self.stride as int) < self.pad_left + self.width
    }

    /// A geometry the builder can produce: positive visible dimensions,
    /// a stride of exactly the visible width plus the horizontal
    /// padding, and a total allocation that fits in a machine word.
    pub open spec fn spec_valid(self) -> bool {
        &&& self.width > 0
        &&& self.height > 0
        &&& self.stride == self.width + self.pad_left + self.pad_right
        &&& self.spec_total_len() <= usize::MAX
    }

    /// Stored rows, computed without overflow.
    pub(crate) fn total_rows_exec(&self) -> (r: usize)
        requires
            self.spec_valid(),
        ensures
            r == self.spec_total_rows(),
    {
        proof {
            assert(self.spec_total_rows() <= self.spec_total_len()) by (nonlinear_arith)
                requires
                    self.stride >= 1,
                    self.spec_total_rows() >= 0,
                    self.spec_total_len() == self.stride * self.spec_total_rows(),
            ;
        }
        self.height + self.pad_top + self.pad_bottom
    }

    /// Stored pixels in the whole buffer, computed without overflow.
    pub(crate) fn total_len_exec(&self) -> (r: usize)
        requires
            self.spec_valid(),
        ensures
            r == self.spec_total_len(),
    {
        let rows = self.total_rows_exec();
        self.stride * rows
    }

    /// Linear index of the first visible pixel, computed without
    /// overflow.
    pub(crate) fn origin_exec(&self) -> (r: usize)
        requires
            self.spec_valid(),
        ensures
            r == self.spec_origin(),
    {
        proof {
            assert(self.spec_origin() <= self.spec_total_len()) by (nonlinear_arith)
                requires
                    self.stride == self.width + self.pad_left + self.pad_right,
                    self.width >= 1,
                    self.height >= 1,
                    self.pad_left >= 0,
                    self.pad_top >= 0,
                    self.pad_bottom >= 0,
                    self.spec_total_len() == self.stride * (self.height + self.pad_top
                        + self.pad_bottom),
                    self.spec_origin() == self.stride * self.pad_top + self.pad_left,
            ;
        }
        self.stride * self.pad_top + self.pad_left
    }
}

/// Every visible coordinate of a valid geometry maps to an in-bounds
/// linear index, whose row and column can be recovered by division by
/// the stride; in particular distinct visible coordinates map to
/// distinct indices, and every such index counts as visible.
pub proof fn lemma_visible_index(g: PlaneGeometry, x: int, y: int)
    requires
        g.spec_valid(),
        0 <= x < g.width,
        0 <= y < g.height,
    ensures
        0 <= g.spec_index(x, y),
        g.spec_index(x, y) < g.spec_total_len(),
        g.spec_index(x, y) / (g.stride as int) == g.pad_top + y,
        g.spec_index(x, y) % (g.stride as int) == g.pad_left + x,
        g.spec_is_visible_index(g.spec_index(x, y)),
{
    let s = g.stride as int;
    let i = g.spec_index(x, y);
    assert(i == s * (g.pad_top + y) + (g.pad_left + x)) by (nonlinear_arith)
        requires
            i == s * g.pad_top + g.pad_left + y * s + x,
    ;
    assert(i < g.spec_total_len()) by (nonlinear_arith)
        requires
            i == s * (g.pad_top + y) + (g.pad_left + x),
            0 <= g.pad_left + x < s,
            0 <= g.pad_top + y,
            g.pad_top + y + 1 <= g.pad_top + g.height + g.pad_bottom,
            g.spec_total_len() == s * (g.height + g.pad_top + g.pad_bottom),
            s >= 1,
    ;
    lemma_fundamental_div_mod_converse(i, s, g.pad_top + y, g.pad_left + x);
}

/// The visible rectangle of a valid geometry never holds more pixels
/// than the whole buffer.
pub proof fn lemma_visible_count(g: PlaneGeometry)
    requires
        g.spec_valid(),
    ensures
        g.width * g.height <= g.spec_total_len(),
{
    assert(g.width * g.height <= g.spec_total_len()) by (nonlinear_arith)
        requires
            0 <= g.width <= g.stride,
            0 <= g.height <= g.height + g.pad_top + g.pad_bottom,
            g.spec_total_len() == g.stride * (g.height + g.pad_top + g.pad_bottom),
    ;
}

/// The canonical little-endian byte run for a sequence of pixel values
/// stored `w` bytes each: one byte per value for `w == 1`, and the low
/// byte followed by the high byte for `w == 2`, tightly packed.
pub open spec fn spec_le_bytes(vals: Seq<u16>, w: int) -> Seq<u8> {
    Seq::new(
        (vals.len() * w) as nat,
        |i: int|
            if w == 1 {
                (vals[i] % 256) as u8
            } else if i % 2 == 0 {
                (vals[i / 2] % 256) as u8
            } else {
                (vals[i / 2] / 256) as u8
            },
    )
}

/// The value of element `j` of a little-endian byte run whose elements
/// are stored `w` bytes each.
pub open spec fn spec_le_decode(src: Seq<u8>, w: int, j: int) -> u16 {
    if w == 1 {
        src[j] as u16
    } else {
        (src[2 * j] as u16 + 256 * (src[2 * j + 1] as u16)) as u16
    }
}

/// Copying a full-size slice into a plane and then reading the visible
/// pixels back yields exactly that slice.
pub proof fn lemma_copy_from_slice_roundtrip<T: Pixel, const BIT_DEPTH: u8>(
    pre: Plane<T, BIT_DEPTH>,
    post: Plane<T, BIT_DEPTH>,
    src: Seq<T>,
)
    requires
        Plane::spec_copy_result(pre, post, src),
    ensures
        post.spec_visible() == src,
{
}

/// Reading a plane's visible bytes and feeding them to a byte copy
/// into a plane of the same visible shape reproduces the original
/// pixel values, for both pixel kinds.
pub proof fn lemma_byte_data_roundtrip<T: Pixel, const BIT_DEPTH: u8>(
    orig: Plane<T, BIT_DEPTH>,
    pre: Plane<T, BIT_DEPTH>,
    post: Plane<T, BIT_DEPTH>,
    bytes: Seq<u8>,
)
    requires
        orig.spec_wf(),
        pre.spec_wf(),
        pre.spec_geometry().width == orig.spec_geometry().width,
        pre.spec_geometry().height == orig.spec_geometry().height,
        bytes == spec_le_bytes(
            orig.spec_visible().map_values(|p: T| p.spec_val()),
            T::spec_byte_width() as int,
        ),
        Plane::spec_copy_bytes_result(pre, post, bytes, pre.spec_geometry().width as int),
    ensures
        post.spec_visible() == orig.spec_visible(),
{
    T::pixel_model();
    let w = orig.spec_geometry().width as int;
    let h = orig.spec_geometry().height as int;
    let bw = T::spec_byte_width() as int;
    let vals = orig.spec_visible().map_values(|p: T| p.spec_val());
    assert(orig.spec_visible().len() == w * h);
    assert forall|j: int| 0 <= j < vals.len() implies spec_le_decode(bytes, bw, j) == vals[j] by {
        if bw == 2 {
            lemma_fundamental_div_mod(vals[j] as int, 256);
        }
    }
    assert forall|k: int| 0 <= k < post.spec_visible().len() implies post.spec_visible()[k]
        == orig.spec_visible()[k] by {
        let x = k % w;
        let y = k / w;
        lemma_fundamental_div_mod(k, w);
        lemma_mod_bound(k, w);
        assert(y < h) by (nonlinear_arith)
            requires
                k < w * h,
                w >= 1,
                k == w * y + x,
                0 <= x < w,
        ;
        assert(y * w + x == k) by (nonlinear_arith)
            requires
                k == w * y + x,
        ;
        lemma_visible_index(pre.spec_geometry(), x, y);
        lemma_visible_index(post.spec_geometry(), x, y);
        assert(post.spec_raw()[pre.spec_geometry().spec_index(x, y)] == T::spec_of_val(
            spec_le_decode(bytes, bw, y * w + x),
        ));
        assert(spec_le_decode(bytes, bw, k) == vals[k]);
        assert(T::spec_of_val(vals[k]) == orig.spec_visible()[k]);
    }
    assert(post.spec_visible() =~= orig.spec_visible());
}

/// A two-dimensional plane of pixel data with optional padding.
///
/// `Plane<T, BIT_DEPTH>` represents a rectangular array of pixels of
/// type `T`, surrounded by optional padding on all four sides, stored in
/// one aligned buffer. The visible rectangle is reached through
/// [`row`](Plane::row), [`pixel`](Plane::pixel) and the copy operations;
/// [`data`](Plane::data) and [`pixel`](Plane::pixel) are the low-level
/// tier that can also see the padding.
pub struct Plane<T: Pixel, const BIT_DEPTH: u8> {
    /// The underlying pixel buffer, including padding.
    data: T::Buf,
    /// Geometry information describing dimensions and padding.
    geometry: PlaneGeometry,
}

impl<T: Pixel, const BIT_DEPTH: u8> Plane<T, BIT_DEPTH> {
    /// The geometry of the plane.
    pub closed spec fn spec_geometry(self) -> PlaneGeometry {
        self.geometry
    }

    /// All stored pixels, padding included, in buffer order.
    pub closed spec fn spec_raw(self) -> Seq<T> {
        T::buf_view(self.data)
    }

    /// Well-formedness: the geometry is one the builder can produce, the
    /// buffer holds exactly as many pixels as the geometry asks for and
    /// they fit in a machine word of bytes, and the pixel kind's byte
    /// width matches the bit depth category.
    pub open spec fn spec_wf(self) -> bool {
        &&& self.spec_geometry().spec_valid()
        &&& self.spec_raw().len() == self.spec_geometry().spec_total_len()
        &&& self.spec_geometry().spec_total_len() * T::spec_byte_width() <= usize::MAX
        &&& (T::spec_byte_width() == 1 <==> BIT_DEPTH == 8)
        &&& 8 <= BIT_DEPTH <= 16
    }

    /// The visible pixel at `(x, y)`.
    pub open spec fn spec_at(self, x: int, y: int) -> T {
        self.spec_raw()[self.spec_geometry().spec_index(x, y)]
    }

    /// The visible pixels in row-major order.
    pub open spec fn spec_visible(self) -> Seq<T> {
        Seq::new(
            (self.spec_geometry().width * self.spec_geometry().height) as nat,
            |i: int|
                self.spec_at(
                    i % (self.spec_geometry().width as int),
                    i / (self.spec_geometry().width as int),
                ),
        )
    }

    /// The visible pixels of row `y` in left-to-right order.
    pub open spec fn spec_row(self, y: int) -> Seq<T> {
        self.spec_raw().subrange(
            self.spec_geometry().spec_index(0, y),
            self.spec_geometry().spec_index(0, y) + self.spec_geometry().width,
        )
    }

    /// Whether `other` holds the same pixels as `self` at every stored
    /// position outside the visible rectangle.
    pub open spec fn spec_same_padding(self, other: Self) -> bool {
        forall|i: int|
            0 <= i < self.spec_raw().len() && !(#[trigger] self.spec_geometry(
            ).spec_is_visible_index(i)) ==> other.spec_raw()[i] == self.spec_raw()[i]
    }

    /// Whether every stored pixel, padding included, has value zero.
    pub open spec fn spec_all_zero(self) -> bool {
        forall|i: int| 0 <= i < self.spec_raw().len() ==> #[trigger] self.spec_raw()[i].spec_val() == 0
    }

    /// What a freshly-allocated plane looks like: well-formed, laid out
    /// by `geometry`, and zero-filled.
    pub open spec fn spec_fresh(self, geometry: PlaneGeometry) -> bool {
        &&& self.spec_wf()
        &&& self.spec_geometry() == geometry
        &&& self.spec_all_zero()
    }

    /// What a successful full-size copy guarantees: the geometry is
    /// untouched, the visible rectangle holds exactly `src`, and every
    /// stored pixel outside it keeps its value.
    pub open spec fn spec_copy_result(pre: Self, post: Self, src: Seq<T>) -> bool {
        &&& post.spec_geometry() == pre.spec_geometry()
        &&& post.spec_wf()
        &&& post.spec_visible() == src
        &&& pre.spec_same_padding(post)
    }

    /// What a successful strided byte copy guarantees: the geometry is
    /// untouched, each visible pixel holds the value decoded
    /// little-endian from its row-strided position in `src`, and every
    /// stored pixel outside the visible rectangle keeps its value.
    pub open spec fn spec_copy_bytes_result(
        pre: Self,
        post: Self,
        src: Seq<u8>,
        input_stride: int,
    ) -> bool {
        &&& post.spec_geometry() == pre.spec_geometry()
        &&& post.spec_wf()
        &&& pre.spec_same_padding(post)
        &&& forall|x: int, y: int|
            0 <= x < pre.spec_geometry().width && 0 <= y < pre.spec_geometry().height
                ==> post.spec_raw()[#[trigger] pre.spec_geometry().spec_index(x, y)]
                == T::spec_of_val(
                spec_le_decode(src, T::spec_byte_width() as int, y * input_stride + x),
            )
    }

    /// Creates a new plane with the given geometry, initialized with
    /// zero-valued pixels.
    pub(crate) fn new(geometry: PlaneGeometry) -> (r: Self)
        requires
            geometry.spec_valid(),
            geometry.spec_total_len() * T::spec_byte_width() <= usize::MAX,
            (T::spec_byte_width() == 1 <==> BIT_DEPTH == 8),
            8 <= BIT_DEPTH <= 16,
        ensures
            r.spec_fresh(geometry),
    {
        let len = geometry.total_len_exec();
        Plane { data: T::buf_new_zeroed(len), geometry }
    }

    /// Returns the visible width of the plane in pixels.
    pub fn width(&self) -> (r: usize)
        ensures
            r == self.spec_geometry().width,
    {
        self.geometry.width
    }

    /// Returns the visible height of the plane in pixels.
    pub fn height(&self) -> (r: usize)
        ensures
            r == self.spec_geometry().height,
    {
        self.geometry.height
    }

    /// Returns the geometry of the current plane.
    ///
    /// This is a low-level API intended only for callers that require
    /// access to the padding.
    pub fn geometry(&self) -> (r: PlaneGeometry)
        ensures
            r == self.spec_geometry(),
    {
        self.geometry
    }

    /// Returns the index of the first visible pixel in the raw buffer.
    ///
    /// This is a low-level API intended only for callers that require
    /// access to the padding.
    pub fn data_origin(&self) -> (r: usize)
        requires
            self.spec_wf(),
        ensures
            r == self.spec_geometry().spec_origin(),
    {
        self.geometry.origin_exec()
    }

    /// Returns a slice containing the visible pixels in the row at
    /// vertical index `y`, or `None` if `y` is out of bounds.
    pub fn row<'a>(&'a self, y: usize) -> (r: Option<&'a [T]>)
        requires
            self.spec_wf(),
        ensures
            match r {
                Some(s) => y < self.spec_geometry().height && s@ == self.spec_row(y as int),
                None => y >= self.spec_geometry().height,
            },
    {
        if y < self.geometry.height {
            proof {
                lemma_visible_index(self.geometry, 0, y as int);
                lemma_visible_index(self.geometry, self.geometry.width - 1, y as int);
            }
            let start: usize = self.geometry.origin_exec() + y * self.geometry.stride;
            Some(T::buf_slice(&self.data, start, self.geometry.width))
        } else {
            None
        }
    }

    /// Returns a mutable slice containing the visible pixels in the row
    /// at vertical index `y`, or `None` if `y` is out of bounds. Every
    /// stored pixel outside that row keeps its value.
    pub fn row_mut<'a>(&'a mut self, y: usize) -> (r: Option<&'a mut [T]>)
        requires
            old(self).spec_wf(),
        ensures
            match r {
                Some(s) => {
                    let start = old(self).spec_geometry().spec_index(0, y as int);
                    &&& y < old(self).spec_geometry().height
                    &&& s@ == old(self).spec_row(y as int)
                    &&& final(s)@.len() == old(self).spec_geometry().width
                    &&& final(self).spec_geometry() == old(self).spec_geometry()
                    &&& final(self).spec_raw() == old(self).spec_raw().take(start) + final(s)@
                        + old(self).spec_raw().skip(start + old(self).spec_geometry().width)
                    &&& final(self).spec_wf()
                },
                None => y >= old(self).spec_geometry().height && *final(self) == *old(self),
            },
    {
        if y < self.geometry.height {
            proof {
                lemma_visible_index(self.geometry, 0, y as int);
                lemma_visible_index(self.geometry, self.geometry.width - 1, y as int);
            }
            let start: usize = self.geometry.origin_exec() + y * self.geometry.stride;
            Some(T::buf_slice_mut(&mut self.data, start, self.geometry.width))
        } else {
            None
        }
    }

    /// Returns the visible rows of the plane, from top to bottom, each
    /// as a slice of exactly the visible width.
    pub fn rows<'a>(&'a self) -> (r: Vec<&'a [T]>)
        requires
            self.spec_wf(),
        ensures
            r@.len() == self.spec_geometry().height,
            forall|y: int| 0 <= y < r@.len() ==> #[trigger] r@[y]@ == self.spec_row(y),
    {
        let h = self.geometry.height;
        let mut out: Vec<&[T]> = Vec::new();
        let mut y: usize = 0;
        while y < h
            invariant
                self.spec_wf(),
                h == self.spec_geometry().height,
                y <= h,
                out@.len() == y,
                forall|k: int| 0 <= k < y ==> #[trigger] out@[k]@ == self.spec_row(k),
            decreases h - y,
        {
            let s = self.row(y).unwrap();
            out.push(s);
            y = y + 1;
        }
        out
    }

    /// Returns a reference to the plane's stored pixels, padding
    /// included, in buffer order.
    ///
    /// This is a low-level API intended only for callers that require
    /// access to the padding.
    pub fn data<'a>(&'a self) -> (r: &'a [T])
        requires
            self.spec_wf(),
        ensures
            r@ == self.spec_raw(),
    {
        let len = self.geometry.total_len_exec();
        let s = T::buf_slice(&self.data, 0, len);
        proof {
            assert(self.spec_raw().subrange(0, self.spec_raw().len() as int) =~= self.spec_raw());
        }
        s
    }

    /// Returns a mutable reference to the plane's stored pixels, padding
    /// included, in buffer order.
    ///
    /// This is a low-level API intended only for callers that require
    /// access to the padding.
    pub fn data_mut<'a>(&'a mut self) -> (r: &'a mut [T])
        requires
            old(self).spec_wf(),
        ensures
            r@ == old(self).spec_raw(),
            final(r)@.len() == old(self).spec_raw().len(),
            final(self).spec_raw() == final(r)@,
            final(self).spec_geometry() == old(self).spec_geometry(),
            final(self).spec_wf(),
    {
        let len = self.geometry.total_len_exec();
        let s = T::buf_slice_mut(&mut self.data, 0, len);
        proof {
            assert(old(self).spec_raw().subrange(0, old(self).spec_raw().len() as int) =~= old(
                self,
            ).spec_raw());
            assert(old(self).spec_raw().take(0) + final(s)@ + old(self).spec_raw().skip(len as int)
                =~= final(s)@);
        }
        s
    }

    /// Copies the data from `src` into this plane's visible pixels, in
    /// row-major order, leaving all padding untouched.
    ///
    /// # Errors
    /// - Returns `Error::DataLength` if the length of `src` does not
    ///   match this plane's `width * height`
    #[verifier::loop_isolation(false)]
    pub fn copy_from_slice(&mut self, src: &[T]) -> (r: Result<(), Error>)
        requires
            old(self).spec_wf(),
        ensures
            match r {
                Ok(()) => {
                    &&& src@.len() == old(self).spec_geometry().width * old(
                        self,
                    ).spec_geometry().height
                    &&& Self::spec_copy_result(*old(self), *final(self), src@)
                },
                Err(e) => {
                    &&& e == (Error::DataLength {
                        expected: (old(self).spec_geometry().width * old(
                            self,
                        ).spec_geometry().height) as usize,
                        found: src@.len() as usize,
                    })
                    &&& src@.len() != old(self).spec_geometry().width * old(
                        self,
                    ).spec_geometry().height
                    &&& *final(self) == *old(self)
                },
            },
    {
        let ghost g = self.geometry;
        let w = self.geometry.width;
        let h = self.geometry.height;
        proof {
            lemma_visible_count(g);
        }
        let pixel_count = w * h;
        if pixel_count != src.len() {
            return Err(Error::DataLength { expected: pixel_count, found: src.len() });
        }
        let mut y: usize = 0;
        let mut c: usize = 0;
        while y < h
            invariant
                self.spec_wf(),
                self.spec_geometry() == g,
                g == old(self).spec_geometry(),
                w == g.width,
                h == g.height,
                src@.len() == w * h,
                y <= h,
                c == y * w,
                old(self).spec_same_padding(*self),
                forall|x2: int, y2: int|
                    0 <= x2 < w && 0 <= y2 < h && y2 < y ==> self.spec_raw()[#[trigger] g.spec_index(
                        x2,
                        y2,
                    )] == src@[y2 * w + x2],
            decreases h - y,
        {
            proof {
                lemma_visible_index(g, 0, y as int);
            }
            let row_start: usize = self.geometry.origin_exec() + y * self.geometry.stride;
            let mut x: usize = 0;
            while x < w
                invariant
                    self.spec_wf(),
                    self.spec_geometry() == g,
                    g == old(self).spec_geometry(),
                    w == g.width,
                    h == g.height,
                    src@.len() == w * h,
                    y < h,
                    x <= w,
                    c == y * w + x,
                    row_start == g.spec_index(0, y as int),
                    old(self).spec_same_padding(*self),
                    forall|x2: int, y2: int|
                        0 <= x2 < w && 0 <= y2 < h && (y2 < y || (y2 == y && x2 < x))
                            ==> self.spec_raw()[#[trigger] g.spec_index(x2, y2)] == src@[y2 * w
                            + x2],
                decreases w - x,
            {
                proof {
                    lemma_visible_index(g, x as int, y as int);
                    lemma_visible_count(g);
                    assert(y * w + x < w * h) by (nonlinear_arith)
                        requires
                            0 <= x < w,
                            0 <= y < h,
                    ;
                }
                let v = *slice_index_get(src, c);
                let i = row_start + x;
                let ghost pre_raw = T::buf_view(self.data);
                let p = T::buf_index_mut(&mut self.data, i);
                *p = v;
                proof {
                    assert(T::buf_view(self.data) == pre_raw.update(i as int, v));
                    assert forall|x2: int, y2: int|
                        0 <= x2 < w && 0 <= y2 < h && (y2 < y || (y2 == y && x2 <= x))
                            implies self.spec_raw()[#[trigger] g.spec_index(x2, y2)] == src@[y2 * w
                        + x2] by {
                        lemma_visible_index(g, x2, y2);
                        assert(0 <= y2 * w + x2 < w * h) by (nonlinear_arith)
                            requires
                                0 <= x2 < w,
                                0 <= y2 < h,
                        ;
                    }
                    assert forall|i2: int|
                        0 <= i2 < old(self).spec_raw().len() && !g.spec_is_visible_index(i2)
                            implies #[trigger] self.spec_raw()[i2] == old(self).spec_raw()[i2] by {
                        assert(g.spec_is_visible_index(i as int));
                        assert(i2 != i);
                        assert(pre_raw.update(i as int, v)[i2] == pre_raw[i2]);
                        assert(pre_raw[i2] == old(self).spec_raw()[i2]);
                    }
                    assert(old(self).spec_same_padding(*self));
                }
                x = x + 1;
                c = c + 1;
            }
            proof {
                assert((y + 1) * w == y * w + w) by (nonlinear_arith);
            }
            y = y + 1;
        }
        proof {
            assert forall|k: int| 0 <= k < self.spec_visible().len() implies self.spec_visible()[k]
                == src@[k] by {
                let x2 = k % (w as int);
                let y2 = k / (w as int);
                lemma_fundamental_div_mod(k, w as int);
                lemma_mod_bound(k, w as int);
                assert(y2 < h) by (nonlinear_arith)
                    requires
                        k < w * h,
                        w >= 1,
                        k == (w as int) * y2 + x2,
                        0 <= x2 < w,
                ;
                assert(y2 * w + x2 == k) by (nonlinear_arith)
                    requires
                        k == (w as int) * y2 + x2,
                ;
                lemma_visible_index(g, x2, y2);
            }
            assert(self.spec_visible() =~= src@);
        }
        Ok(())
    }

    /// Copies the data from `src` into this plane's visible pixels.
    /// This differs from `copy_from_slice` in that it accepts a raw
    /// slice of `u8` data, which is often what decoders provide even if
    /// the pixel data is high-bit-depth. High-bit-depth pixels are
    /// decoded two little-endian bytes each; for the one-byte kind this
    /// is equivalent to `copy_from_slice`.
    ///
    /// # Errors
    /// - Returns `Error::DataLength` if the length of `src` does not
    ///   match this plane's `width * height * bytes_per_pixel`
    pub fn copy_from_u8_slice(&mut self, src: &[u8]) -> (r: Result<(), Error>)
        requires
            old(self).spec_wf(),
        ensures
            match r {
                Ok(()) => {
                    &&& src@.len() == old(self).spec_geometry().width * old(
                        self,
                    ).spec_geometry().height * T::spec_byte_width()
                    &&& Self::spec_copy_bytes_result(
                        *old(self),
                        *final(self),
                        src@,
                        old(self).spec_geometry().width as int,
                    )
                },
                Err(e) => {
                    &&& e == (Error::DataLength {
                        expected: (old(self).spec_geometry().width * old(
                            self,
                        ).spec_geometry().height * T::spec_byte_width()) as usize,
                        found: src@.len() as usize,
                    })
                    &&& src@.len() != old(self).spec_geometry().width * old(
                        self,
                    ).spec_geometry().height * T::spec_byte_width()
                    &&& *final(self) == *old(self)
                },
            },
    {
        proof {
            T::pixel_model();
            lemma_visible_count(self.geometry);
            assert(self.geometry.width * self.geometry.height * T::spec_byte_width()
                <= self.geometry.spec_total_len() * T::spec_byte_width()) by (nonlinear_arith)
                requires
                    0 <= self.geometry.width * self.geometry.height
                        <= self.geometry.spec_total_len(),
                    T::spec_byte_width() >= 1,
            ;
        }
        let w = self.width();
        self.copy_from_u8_slice_with_stride(src, w)
    }

    /// Copies the data from `src` into this plane's visible pixels.
    /// This version accepts inputs where the row stride is longer than
    /// the visible data width. The `input_stride` is in pixels.
    ///
    /// # Errors
    /// - Returns `Error::InvalidStride` if the stride is shorter than
    ///   the visible width
    /// - Returns `Error::DataLength` if the length of `src` does not
    ///   match `input_stride * height * bytes_per_pixel`
    #[verifier::loop_isolation(false)]
    pub fn copy_from_u8_slice_with_stride(&mut self, src: &[u8], input_stride: usize) -> (r: Result<
        (),
        Error,
    >)
        requires
            old(self).spec_wf(),
            input_stride * old(self).spec_geometry().height * T::spec_byte_width() <= usize::MAX,
        ensures
            match r {
                Ok(()) => {
                    &&& input_stride >= old(self).spec_geometry().width
                    &&& src@.len() == input_stride * old(self).spec_geometry().height
                        * T::spec_byte_width()
                    &&& Self::spec_copy_bytes_result(
                        *old(self),
                        *final(self),
                        src@,
                        input_stride as int,
                    )
                },
                Err(e) => {
                    &&& *final(self) == *old(self)
                    &&& if input_stride < old(self).spec_geometry().width {
                        e == (Error::InvalidStride {
                            stride: input_stride,
                            width: old(self).spec_geometry().width,
                        })
                    } else {
                        &&& e == (Error::DataLength {
                            expected: (input_stride * old(self).spec_geometry().height
                                * T::spec_byte_width()) as usize,
                            found: src@.len() as usize,
                        })
                        &&& src@.len() != input_stride * old(self).spec_geometry().height
                            * T::spec_byte_width()
                    }
                },
            },
    {
        let ghost g = self.geometry;
        proof {
            T::pixel_model();
        }
        let bw = T::byte_width();
        let w = self.geometry.width;
        let h = self.geometry.height;
        if input_stride < w {
            return Err(Error::InvalidStride { stride: input_stride, width: w });
        }
        proof {
            assert(input_stride * h <= input_stride * h * bw) by (nonlinear_arith)
                requires
                    0 <= input_stride * h,
                    bw >= 1,
            ;
        }
        let byte_count = input_stride * h * bw;
        if byte_count != src.len() {
            return Err(Error::DataLength { expected: byte_count, found: src.len() });
        }
        let mut y: usize = 0;
        while y < h
            invariant
                self.spec_wf(),
                self.spec_geometry() == g,
                y <= h,
                old(self).spec_same_padding(*self),
                forall|x2: int, y2: int|
                    0 <= x2 < w && 0 <= y2 < h && y2 < y ==> self.spec_raw()[#[trigger] g.spec_index(
                        x2,
                        y2,
                    )] == T::spec_of_val(
                        spec_le_decode(src@, bw as int, y2 * input_stride + x2),
                    ),
            decreases h - y,
        {
            proof {
                lemma_visible_index(g, 0, y as int);
                assert(y * input_stride <= input_stride * h) by (nonlinear_arith)
                    requires
                        0 <= y <= h,
                        input_stride >= 0,
                ;
            }
            let row_start: usize = self.geometry.origin_exec() + y * self.geometry.stride;
            let in_row: usize = y * input_stride;
            let mut x: usize = 0;
            while x < w
                invariant
                    self.spec_wf(),
                    self.spec_geometry() == g,
                    y < h,
                    x <= w,
                    row_start == g.spec_index(0, y as int),
                    in_row == y * input_stride,
                    old(self).spec_same_padding(*self),
                    forall|x2: int, y2: int|
                        0 <= x2 < w && 0 <= y2 < h && (y2 < y || (y2 == y && x2 < x))
                            ==> self.spec_raw()[#[trigger] g.spec_index(x2, y2)]
                            == T::spec_of_val(
                            spec_le_decode(src@, bw as int, y2 * input_stride + x2),
                        ),
                decreases w - x,
            {
                proof {
                    lemma_visible_index(g, x as int, y as int);
                    assert(y * input_stride + x < input_stride * h) by (nonlinear_arith)
                        requires
                            0 <= x < input_stride,
                            0 <= y < h,
                    ;
                }
                let eidx = in_row + x;
                let pval: T = if bw == 1 {
                    proof {
                        assert(input_stride * h * bw == input_stride * h) by (nonlinear_arith)
                            requires
                                bw == 1,
                        ;
                    }
                    let lo = *slice_index_get(src, eidx);
                    T::from_le_pair(lo, 0)
                } else {
                    proof {
                        assert(input_stride * h * bw == 2 * (input_stride * h)) by (
                        nonlinear_arith)
                            requires
                                bw == 2,
                        ;
                    }
                    let b = 2 * eidx;
                    let lo = *slice_index_get(src, b);
                    let hi = *slice_index_get(src, b + 1);
                    T::from_le_pair(lo, hi)
                };
                let i = row_start + x;
                let ghost pre_raw = T::buf_view(self.data);
                let p = T::buf_index_mut(&mut self.data, i);
                *p = pval;
                proof {
                    assert(T::buf_view(self.data) == pre_raw.update(i as int, pval));
                    assert forall|x2: int, y2: int|
                        0 <= x2 < w && 0 <= y2 < h && (y2 < y || (y2 == y && x2 <= x))
                            implies self.spec_raw()[#[trigger] g.spec_index(x2, y2)]
                        == T::spec_of_val(
                        spec_le_decode(src@, bw as int, y2 * input_stride + x2),
                    ) by {
                        lemma_visible_index(g, x2, y2);
                    }
                    assert forall|i2: int|
                        0 <= i2 < old(self).spec_raw().len() && !g.spec_is_visible_index(i2)
                            implies #[trigger] self.spec_raw()[i2] == old(self).spec_raw()[i2] by {
                        assert(g.spec_is_visible_index(i as int));
                        assert(i2 != i);
                        assert(pre_raw.update(i as int, pval)[i2] == pre_raw[i2]);
                    }
                    assert(old(self).spec_same_padding(*self));
                }
                x = x + 1;
            }
            y = y + 1;
        }
        Ok(())
    }

    /// The in-bounds linear index of the `(x, y)` coordinate against the
    /// whole buffer, or `None` if `origin + stride * y + x` falls past
    /// its end.
    fn linear_index(&self, x: usize, y: usize) -> (r: Option<usize>)
        requires
            self.spec_wf(),
        ensures
            match r {
                Some(i) => i == self.spec_geometry().spec_index(x as int, y as int) && i
                    < self.spec_raw().len(),
                None => self.spec_geometry().spec_index(x as int, y as int)
                    >= self.spec_raw().len(),
            },
    {
        let ghost target = self.spec_geometry().spec_index(x as int, y as int);
        proof {
            assert(target == self.geometry.spec_origin() + y * self.geometry.stride + x);
        }
        let len = self.geometry.total_len_exec();
        let origin = self.geometry.origin_exec();
        match y.checked_mul(self.geometry.stride) {
            None => {
                proof {
                    assert(target >= y * self.geometry.stride > usize::MAX >= len);
                }
                None
            },
            Some(row_offset) => match origin.checked_add(row_offset) {
                None => {
                    proof {
                        assert(target >= origin + row_offset > usize::MAX >= len);
                    }
                    None
                },
                Some(base) => match base.checked_add(x) {
                    None => {
                        proof {
                            assert(target == base + x > usize::MAX >= len);
                        }
                        None
                    },
                    Some(i) => {
                        proof {
                            assert(target == i);
                        }
                        if i < len {
                            Some(i)
                        } else {
                            None
                        }
                    },
                },
            },
        }
    }

    /// Returns the visible pixels of the plane in row-major order,
    /// skipping all padding.
    pub fn pixels(&self) -> (r: Vec<T>)
        requires
            self.spec_wf(),
        ensures
            r@ == self.spec_visible(),
    {
        let w = self.geometry.width;
        let h = self.geometry.height;
        let mut out: Vec<T> = Vec::new();
        let mut y: usize = 0;
        while y < h
            invariant
                self.spec_wf(),
                w == self.spec_geometry().width,
                h == self.spec_geometry().height,
                y <= h,
                out@.len() == y * w,
                forall|k: int| 0 <= k < out@.len() ==> out@[k] == self.spec_visible()[k],
            decreases h - y,
        {
            let rs = self.row(y).unwrap();
            let mut x: usize = 0;
            while x < w
                invariant
                    self.spec_wf(),
                    w == self.spec_geometry().width,
                    h == self.spec_geometry().height,
                    y < h,
                    x <= w,
                    rs@ == self.spec_row(y as int),
                    out@.len() == y * w + x,
                    forall|k: int| 0 <= k < out@.len() ==> out@[k] == self.spec_visible()[k],
                decreases w - x,
            {
                proof {
                    lemma_visible_index(self.geometry, 0, y as int);
                    lemma_visible_index(self.geometry, x as int, y as int);
                    lemma_visible_index(self.geometry, w - 1, y as int);
                    lemma_fundamental_div_mod_converse(
                        y * w + x,
                        w as int,
                        y as int,
                        x as int,
                    );
                    assert(y * w + x < w * h) by (nonlinear_arith)
                        requires
                            0 <= x < w,
                            0 <= y < h,
                    ;
                    assert(self.spec_visible()[y * w + x] == self.spec_at(x as int, y as int));
                    assert(self.spec_row(y as int)[x as int] == self.spec_raw()[
                        self.spec_geometry().spec_index(x as int, y as int)]);
                }
                out.push(*slice_index_get(rs, x));
                x = x + 1;
            }
            proof {
                assert((y + 1) * w == y * w + w) by (nonlinear_arith);
            }
            y = y + 1;
        }
        proof {
            assert(h * w == w * h) by (nonlinear_arith);
            assert(out@ =~= self.spec_visible());
        }
        out
    }

    /// Returns the visible bytes of the plane in row-major order: one
    /// byte per pixel for the one-byte kind, and two little-endian bytes
    /// per pixel for the two-byte kind, tightly packed with no padding.
    pub fn byte_data(&self) -> (r: Vec<u8>)
        requires
            self.spec_wf(),
        ensures
            r@ == spec_le_bytes(
                self.spec_visible().map_values(|p: T| p.spec_val()),
                T::spec_byte_width() as int,
            ),
    {
        let ghost sv = self.spec_visible().map_values(|p: T| p.spec_val());
        let ghost target = spec_le_bytes(sv, T::spec_byte_width() as int);
        proof {
            T::pixel_model();
        }
        let vals = self.pixels();
        let bw = T::byte_width();
        let mut out: Vec<u8> = Vec::new();
        let mut i: usize = 0;
        while i < vals.len()
            invariant
                vals@ == self.spec_visible(),
                sv == self.spec_visible().map_values(|p: T| p.spec_val()),
                target == spec_le_bytes(sv, T::spec_byte_width() as int),
                bw == T::spec_byte_width(),
                bw == 1 || bw == 2,
                i <= vals@.len(),
                out@.len() == i * bw,
                forall|k: int| 0 <= k < out@.len() ==> out@[k] == target[k],
            decreases vals@.len() - i,
        {
            let p = vals[i];
            let pair = p.to_le_pair();
            proof {
                assert(sv[i as int] == p.spec_val());
                assert((i + 1) * bw == i * bw + bw) by (nonlinear_arith);
            }
            out.push(pair.0);
            if bw == 2 {
                out.push(pair.1);
            }
            i = i + 1;
        }
        proof {
            assert(out@ =~= target);
        }
        out
    }

    /// Return the value of the pixel at the given `(x, y)` coordinate,
    /// or `None` if the index is out of bounds.
    ///
    /// The linear index `origin + stride * y + x` is checked against the
    /// whole buffer, padding included, not against the visible area:
    /// `pixel(width, 0)` may land inside padding or the next stored row
    /// and still return a value. The row and copy operations are the
    /// visible-area-correct path.
    pub fn pixel(&self, x: usize, y: usize) -> (r: Option<T>)
        requires
            self.spec_wf(),
        ensures
            match r {
                Some(p) => self.spec_geometry().spec_index(x as int, y as int)
                    < self.spec_raw().len() && p == self.spec_raw()[self.spec_geometry().spec_index(
                    x as int,
                    y as int,
                )],
                None => self.spec_geometry().spec_index(x as int, y as int)
                    >= self.spec_raw().len(),
            },
    {
        match self.linear_index(x, y) {
            None => None,
            Some(i) => {
                let s = T::buf_slice(&self.data, i, 1);
                Some(*slice_index_get(s, 0))
            },
        }
    }

    /// Return a mutable reference to the pixel at the given `(x, y)`
    /// coordinate, or `None` if the index is out of bounds.
    ///
    /// Like [`pixel`](Plane::pixel), the index is checked against the
    /// whole buffer, not against the visible area.
    pub fn pixel_mut<'a>(&'a mut self, x: usize, y: usize) -> (r: Option<&'a mut T>)
        requires
            old(self).spec_wf(),
        ensures
            match r {
                Some(p) => {
                    let i = old(self).spec_geometry().spec_index(x as int, y as int);
                    &&& i < old(self).spec_raw().len()
                    &&& *p == old(self).spec_raw()[i]
                    &&& final(self).spec_raw() == old(self).spec_raw().update(i, *final(p))
                    &&& final(self).spec_geometry() == old(self).spec_geometry()
                    &&& final(self).spec_wf()
                },
                None => {
                    &&& old(self).spec_geometry().spec_index(x as int, y as int) >= old(
                        self,
                    ).spec_raw().len()
                    &&& *final(self) == *old(self)
                },
            },
    {
        match self.linear_index(x, y) {
            None => None,
            Some(i) => Some(T::buf_index_mut(&mut self.data, i)),
        }
    }
}

impl<T: Pixel, const BIT_DEPTH: u8> Clone for Plane<T, BIT_DEPTH> {
    /// The clone holds the same geometry and pixels but shares no
    /// storage with the original.
    fn clone(&self) -> (r: Self)
        ensures
            r.spec_geometry() == self.spec_geometry(),
            r.spec_raw() == self.spec_raw(),
    {
        Plane { data: T::buf_clone(&self.data), geometry: self.geometry }
    }
}

} // verus!
