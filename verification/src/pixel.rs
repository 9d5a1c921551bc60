//! Pixel data type abstractions.
//!
//! The [`Pixel`] trait is a closed capability set over exactly two numeric
//! element kinds: a one-byte unsigned sample (`u8`, for 8-bit data) and a
//! two-byte unsigned sample (`u16`, for 9-16 bit data). The trait carries
//! the byte width, the little-endian encoding of one sample, and the
//! aligned storage type for buffers of that sample kind. No other element
//! kind is valid: downstream byte-width arithmetic assumes exactly 1 or 2
//! bytes per pixel.

use crate::buf::{buf16_view, buf8_view, Buf16, Buf8};
use vstd::prelude::*;

verus! {

/// A trait for types that can be used as pixel data.
///
/// Exactly two implementations exist: `u8` for 8-bit data and `u16` for
/// high bit-depth (9-16 bit) data. Each pixel is modelled by its numeric
/// value, [`Pixel::spec_val`], a 16-bit integer; a one-byte kind only
/// ever holds values below 256.
pub trait Pixel: Copy + Sized {
    /// The aligned storage type for buffers of this pixel kind.
    type Buf;

    /// Bytes per stored pixel: 1 or 2.
    spec fn spec_byte_width() -> usize;

    /// The numeric value of this pixel.
    spec fn spec_val(self) -> u16;

    /// The pixel with the given numeric value.
    spec fn spec_of_val(v: u16) -> Self;

    /// The pixels held by a buffer of this kind.
    spec fn buf_view(b: Self::Buf) -> Seq<Self>;

    /// The facts every pixel kind obeys: the byte width is 1 or 2, the
    /// numeric value determines the pixel, a one-byte pixel's value fits
    /// in one byte, and every value that fits the kind's width is the
    /// value of some pixel.
    proof fn pixel_model()
        ensures
            Self::spec_byte_width() == 1 || Self::spec_byte_width() == 2,
            forall|p: Self| #[trigger] Self::spec_of_val(p.spec_val()) == p,
            forall|p: Self| Self::spec_byte_width() == 1 ==> #[trigger] p.spec_val() < 256,
            forall|v: u16|
                Self::spec_byte_width() == 2 ==> #[trigger] Self::spec_of_val(v).spec_val() == v,
            forall|v: u16|
                Self::spec_byte_width() == 1 && v < 256 ==> #[trigger] Self::spec_of_val(
                    v,
                ).spec_val() == v,
    ;

    /// Bytes per stored pixel.
    fn byte_width() -> (r: usize)
        ensures
            r == Self::spec_byte_width(),
    ;

    /// The little-endian encoding of this pixel's value: the low byte,
    /// then the high byte (always zero for a one-byte kind).
    fn to_le_pair(self) -> (r: (u8, u8))
        ensures
            r.0 == self.spec_val() % 256,
            r.1 == self.spec_val() / 256,
    ;

    /// The pixel decoded from a little-endian byte pair; a one-byte kind
    /// reads only the low byte.
    fn from_le_pair(lo: u8, hi: u8) -> (r: Self)
        ensures
            Self::spec_byte_width() == 1 ==> r == Self::spec_of_val(lo as u16),
            Self::spec_byte_width() == 2 ==> r == Self::spec_of_val(
                (lo as u16 + 256 * (hi as u16)) as u16,
            ),
    ;

    /// Allocates an aligned buffer of `len` pixels, all zero.
    fn buf_new_zeroed(len: usize) -> (b: Self::Buf)
        ensures
            Self::buf_view(b).len() == len,
            forall|i: int| 0 <= i < len ==> #[trigger] Self::buf_view(b)[i].spec_val() == 0,
    ;

    /// Borrows one pixel of a buffer mutably.
    fn buf_index_mut<'a>(b: &'a mut Self::Buf, i: usize) -> (r: &'a mut Self)
        requires
            i < Self::buf_view(*old(b)).len(),
        ensures
            *r == Self::buf_view(*old(b))[i as int],
            Self::buf_view(*final(b)) == Self::buf_view(*old(b)).update(i as int, *final(r)),
    ;

    /// Borrows `len` consecutive pixels of a buffer starting at `start`.
    fn buf_slice<'a>(b: &'a Self::Buf, start: usize, len: usize) -> (r: &'a [Self])
        requires
            start + len <= Self::buf_view(*b).len(),
        ensures
            r@ == Self::buf_view(*b).subrange(start as int, start as int + len as int),
    ;

    /// Borrows `len` consecutive pixels of a buffer starting at `start`,
    /// mutably; the rest of the buffer is unchanged.
    fn buf_slice_mut<'a>(b: &'a mut Self::Buf, start: usize, len: usize) -> (r: &'a mut [Self])
        requires
            start + len <= Self::buf_view(*old(b)).len(),
        ensures
            r@ == Self::buf_view(*old(b)).subrange(start as int, start as int + len as int),
            final(r)@.len() == len,
            Self::buf_view(*final(b)) == Self::buf_view(*old(b)).take(start as int) + final(r)@
                + Self::buf_view(*old(b)).skip(start as int + len as int),
    ;

    /// Copies a buffer; the copy holds the same pixels but shares no
    /// storage.
    fn buf_clone(b: &Self::Buf) -> (r: Self::Buf)
        ensures
            Self::buf_view(r) == Self::buf_view(*b),
    ;
}

/// Pixel implementation for 8-bit video data.
impl Pixel for u8 {
    type Buf = Buf8;

    open spec fn spec_byte_width() -> usize {
        1
    }

    open spec fn spec_val(self) -> u16 {
        self as u16
    }

    open spec fn spec_of_val(v: u16) -> u8 {
        v as u8
    }

    open spec fn buf_view(b: Buf8) -> Seq<u8> {
        buf8_view(b)
    }

    proof fn pixel_model() {
    }

    fn byte_width() -> (r: usize) {
        1
    }

    fn to_le_pair(self) -> (r: (u8, u8)) {
        (self, 0)
    }

    fn from_le_pair(lo: u8, hi: u8) -> (r: Self) {
        lo
    }

    fn buf_new_zeroed(len: usize) -> (b: Buf8) {
        Buf8::new_zeroed(len)
    }

    fn buf_index_mut<'a>(b: &'a mut Buf8, i: usize) -> (r: &'a mut u8) {
        b.index_mut(i)
    }

    fn buf_slice<'a>(b: &'a Buf8, start: usize, len: usize) -> (r: &'a [u8]) {
        b.slice_at(start, len)
    }

    fn buf_slice_mut<'a>(b: &'a mut Buf8, start: usize, len: usize) -> (r: &'a mut [u8]) {
        b.slice_mut_at(start, len)
    }

    fn buf_clone(b: &Buf8) -> (r: Buf8) {
        b.clone()
    }
}

/// Pixel implementation for high bit-depth (9-16 bit) video data.
impl Pixel for u16 {
    type Buf = Buf16;

    open spec fn spec_byte_width() -> usize {
        2
    }

    open spec fn spec_val(self) -> u16 {
        self
    }

    open spec fn spec_of_val(v: u16) -> u16 {
        v
    }

    open spec fn buf_view(b: Buf16) -> Seq<u16> {
        buf16_view(b)
    }

    proof fn pixel_model() {
    }

    fn byte_width() -> (r: usize) {
        2
    }

    fn to_le_pair(self) -> (r: (u8, u8)) {
        ((self % 256) as u8, (self / 256) as u8)
    }

    fn from_le_pair(lo: u8, hi: u8) -> (r: Self) {
        lo as u16 + 256 * (hi as u16)
    }

    fn buf_new_zeroed(len: usize) -> (b: Buf16) {
        Buf16::new_zeroed(len)
    }

    fn buf_index_mut<'a>(b: &'a mut Buf16, i: usize) -> (r: &'a mut u16) {
        b.index_mut(i)
    }

    fn buf_slice<'a>(b: &'a Buf16, start: usize, len: usize) -> (r: &'a [u16]) {
        b.slice_at(start, len)
    }

    fn buf_slice_mut<'a>(b: &'a mut Buf16, start: usize, len: usize) -> (r: &'a mut [u16]) {
        b.slice_mut_at(start, len)
    }

    fn buf_clone(b: &Buf16) -> (r: Buf16) {
        b.clone()
    }
}

} // verus!
