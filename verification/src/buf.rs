//! Aligned storage for pixel buffers.
//!
//! A plane's pixels live in one contiguous, 64-byte aligned allocation so
//! that SIMD consumers can load whole rows without crossing alignment
//! boundaries. The allocation comes from the `aligned_vec` crate; this
//! module states the handful of operations the library needs as trusted
//! wrappers whose contracts speak of the buffer contents, named by
//! [`buf8_view`] and [`buf16_view`].

use aligned_vec::{ABox, AVec, ConstAlign};
use vstd::prelude::*;

verus! {

/// The pixels held by an aligned buffer of one-byte pixels.
pub uninterp spec fn buf8_view(b: Buf8) -> Seq<u8>;

/// The pixels held by an aligned buffer of two-byte pixels.
pub uninterp spec fn buf16_view(b: Buf16) -> Seq<u16>;

/// A contiguous, 64-byte aligned buffer of one-byte pixels, fixed in
/// length once allocated.
#[verifier::external_body]
pub struct Buf8 {
    data: ABox<[u8], ConstAlign<64>>,
}

/// A contiguous, 64-byte aligned buffer of two-byte pixels, fixed in
/// length once allocated.
#[verifier::external_body]
pub struct Buf16 {
    data: ABox<[u16], ConstAlign<64>>,
}

impl Buf8 {
    /// Relies on aligned_vec's `AVec::from_iter` and `into_boxed_slice`:
    /// allocates a 64-byte aligned buffer holding `len` zero pixels.
    #[verifier::external_body]
    pub(crate) fn new_zeroed(len: usize) -> (b: Buf8)
        ensures
            buf8_view(b) == Seq::new(len as nat, |i: int| 0u8),
    {
        let v: AVec<u8, ConstAlign<64>> = AVec::from_iter(64, std::iter::repeat_n(0u8, len));
        Buf8 { data: v.into_boxed_slice() }
    }

    /// Relies on slice indexing through `ABox`'s `DerefMut`: borrows one
    /// pixel mutably.
    #[verifier::external_body]
    pub(crate) fn index_mut<'a>(&'a mut self, i: usize) -> (r: &'a mut u8)
        requires
            i < buf8_view(*old(self)).len(),
        ensures
            *r == buf8_view(*old(self))[i as int],
            buf8_view(*final(self)) == buf8_view(*old(self)).update(i as int, *final(r)),
    {
        &mut self.data[i]
    }

    /// Relies on range indexing through `ABox`'s `Deref`: borrows `len`
    /// consecutive pixels starting at `start`.
    #[verifier::external_body]
    pub(crate) fn slice_at<'a>(&'a self, start: usize, len: usize) -> (r: &'a [u8])
        requires
            start + len <= buf8_view(*self).len(),
        ensures
            r@ == buf8_view(*self).subrange(start as int, start as int + len as int),
    {
        &self.data[start..start + len]
    }

    /// Relies on range indexing through `ABox`'s `DerefMut`: borrows `len`
    /// consecutive pixels starting at `start`, mutably. A mutable slice
    /// cannot change its length, so the rest of the buffer is unchanged.
    #[verifier::external_body]
    pub(crate) fn slice_mut_at<'a>(&'a mut self, start: usize, len: usize) -> (r: &'a mut [u8])
        requires
            start + len <= buf8_view(*old(self)).len(),
        ensures
            r@ == buf8_view(*old(self)).subrange(start as int, start as int + len as int),
            final(r)@.len() == len,
            buf8_view(*final(self)) == buf8_view(*old(self)).take(start as int) + final(r)@
                + buf8_view(*old(self)).skip(start as int + len as int),
    {
        &mut self.data[start..start + len]
    }
}

impl Clone for Buf8 {
    /// Relies on `ABox`'s `Clone`: copies the pixels into a fresh
    /// allocation of the same alignment.
    #[verifier::external_body]
    fn clone(&self) -> (r: Self)
        ensures
            buf8_view(r) == buf8_view(*self),
    {
        Buf8 { data: self.data.clone() }
    }
}

impl Buf16 {
    /// Relies on aligned_vec's `AVec::from_iter` and `into_boxed_slice`:
    /// allocates a 64-byte aligned buffer holding `len` zero pixels.
    #[verifier::external_body]
    pub(crate) fn new_zeroed(len: usize) -> (b: Buf16)
        ensures
            buf16_view(b) == Seq::new(len as nat, |i: int| 0u16),
    {
        let v: AVec<u16, ConstAlign<64>> = AVec::from_iter(64, std::iter::repeat_n(0u16, len));
        Buf16 { data: v.into_boxed_slice() }
    }

    /// Relies on slice indexing through `ABox`'s `DerefMut`: borrows one
    /// pixel mutably.
    #[verifier::external_body]
    pub(crate) fn index_mut<'a>(&'a mut self, i: usize) -> (r: &'a mut u16)
        requires
            i < buf16_view(*old(self)).len(),
        ensures
            *r == buf16_view(*old(self))[i as int],
            buf16_view(*final(self)) == buf16_view(*old(self)).update(i as int, *final(r)),
    {
        &mut self.data[i]
    }

    /// Relies on range indexing through `ABox`'s `Deref`: borrows `len`
    /// consecutive pixels starting at `start`.
    #[verifier::external_body]
    pub(crate) fn slice_at<'a>(&'a self, start: usize, len: usize) -> (r: &'a [u16])
        requires
            start + len <= buf16_view(*self).len(),
        ensures
            r@ == buf16_view(*self).subrange(start as int, start as int + len as int),
    {
        &self.data[start..start + len]
    }

    /// Relies on range indexing through `ABox`'s `DerefMut`: borrows `len`
    /// consecutive pixels starting at `start`, mutably. A mutable slice
    /// cannot change its length, so the rest of the buffer is unchanged.
    #[verifier::external_body]
    pub(crate) fn slice_mut_at<'a>(&'a mut self, start: usize, len: usize) -> (r: &'a mut [u16])
        requires
            start + len <= buf16_view(*old(self)).len(),
        ensures
            r@ == buf16_view(*old(self)).subrange(start as int, start as int + len as int),
            final(r)@.len() == len,
            buf16_view(*final(self)) == buf16_view(*old(self)).take(start as int) + final(r)@
                + buf16_view(*old(self)).skip(start as int + len as int),
    {
        &mut self.data[start..start + len]
    }
}

impl Clone for Buf16 {
    /// Relies on `ABox`'s `Clone`: copies the pixels into a fresh
    /// allocation of the same alignment.
    #[verifier::external_body]
    fn clone(&self) -> (r: Self)
        ensures
            buf16_view(r) == buf16_view(*self),
    {
        Buf16 { data: self.data.clone() }
    }
}

} // verus!
