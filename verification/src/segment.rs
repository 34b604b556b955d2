//! The fixed-capacity buffer that holds one segment while it is filled,
//! signed and encrypted.
//!
//! The buffer is an `arrayvec::ArrayVec`. Verus does not look inside it: what
//! it holds is named by `frame_bytes`, and each function below states over
//! that name what the method of `ArrayVec` it calls does. None of this is
//! proved.

use vstd::prelude::*;

use zeroize::Zeroize;

verus! {

/// Number of plaintext bytes in a segment.
pub const SEGMENT_SIZE: usize = 65536;

/// Number of bytes in a sealed frame: the segment, its signature and the tag.
pub const FRAME_SIZE: usize = 65632;

/// `arrayvec::ArrayVec`, a vector with inline storage for `CAP` elements.
#[verifier::external_type_specification]
#[verifier::external_body]
#[verifier::reject_recursive_types(T)]
pub struct ExArrayVec<T, const CAP: usize>(arrayvec::ArrayVec<T, CAP>);

/// A buffer with room for exactly one frame.
pub type Segment = arrayvec::ArrayVec<u8, 65632>;

/// The bytes that a frame buffer holds, in order.
pub uninterp spec fn frame_bytes(frame: arrayvec::ArrayVec<u8, 65632>) -> Seq<u8>;

/// Calls `ArrayVec::new`, which gives an empty buffer.
#[verifier::external_body]
pub(crate) fn frame_new() -> (frame: arrayvec::ArrayVec<u8, 65632>)
    ensures
        frame_bytes(frame) == Seq::<u8>::empty(),
{
    arrayvec::ArrayVec::new()
}

/// Calls `ArrayVec::len`, the number of bytes held, which never exceeds the
/// capacity.
#[verifier::external_body]
pub(crate) fn frame_len(frame: &arrayvec::ArrayVec<u8, 65632>) -> (len: usize)
    ensures
        len == frame_bytes(*frame).len(),
        len <= 65632,
{
    frame.len()
}

/// Calls `ArrayVec::try_extend_from_slice`, which appends all of `bytes` if
/// they fit into the remaining capacity and otherwise changes nothing. The
/// result tells whether they fitted.
#[verifier::external_body]
pub(crate) fn frame_extend(frame: &mut arrayvec::ArrayVec<u8, 65632>, bytes: &[u8]) -> (fits: bool)
    ensures
        fits == (frame_bytes(*old(frame)).len() + bytes@.len() <= 65632),
        fits ==> frame_bytes(*final(frame)) == frame_bytes(*old(frame)) + bytes@,
        !fits ==> frame_bytes(*final(frame)) == frame_bytes(*old(frame)),
{
    frame.try_extend_from_slice(bytes).is_ok()
}

/// Calls `ArrayVec::as_slice`, the bytes held.
#[verifier::external_body]
pub(crate) fn frame_as_slice(frame: &arrayvec::ArrayVec<u8, 65632>) -> (bytes: &[u8])
    ensures
        bytes@ == frame_bytes(*frame),
{
    frame.as_slice()
}

/// Calls `ArrayVec::as_mut_slice`: the bytes held, which the buffer holds
/// again, as they then are, once the borrow ends.
#[verifier::external_body]
pub(crate) fn frame_as_mut_slice(frame: &mut arrayvec::ArrayVec<u8, 65632>) -> (bytes: &mut [u8])
    ensures
        bytes@ == frame_bytes(*old(frame)),
        frame_bytes(*final(frame)) == final(bytes)@,
{
    frame.as_mut_slice()
}

/// Calls `Zeroize::zeroize` on the buffer, which overwrites its storage with
/// zeros and leaves it empty.
#[verifier::external_body]
pub(crate) fn frame_wipe(frame: &mut arrayvec::ArrayVec<u8, 65632>)
    ensures
        frame_bytes(*final(frame)) == Seq::<u8>::empty(),
{
    frame.zeroize();
}

} // verus!
