//! The raw byte form of an input, as the executing side takes it.
//!
//! Bytes are handed over in an `OwnedSlice` of `libafl_bolts`, which is
//! opaque to the verifier: the two conversions below are trusted.

use vstd::prelude::*;
use libafl_bolts::ownedref::OwnedSlice;

verus! {

#[verifier::external_type_specification]
#[verifier::external_body]
#[verifier::reject_recursive_types(T)]
pub struct ExOwnedSlice<'a, T: 'a + Sized>(OwnedSlice<'a, T>);

/// The bytes that an owned slice holds, in order.
pub uninterp spec fn owned_bytes(slice: OwnedSlice<'static, u8>) -> Seq<u8>;

/// Trusted: calls `OwnedSlice::from` on a vector, which takes the vector as
/// it is: the slice holds the bytes of the vector.
#[verifier::external_body]
pub(crate) fn owned_slice_from(bytes: Vec<u8>) -> (slice: OwnedSlice<'static, u8>)
    ensures
        owned_bytes(slice) == bytes@,
{
    OwnedSlice::from(bytes)
}

/// Trusted: calls `Vec::from` on an owned slice, which hands out the vector
/// that the slice owns, or a copy of what it refers to: the bytes it holds.
#[verifier::external_body]
pub(crate) fn owned_slice_into_vec(slice: OwnedSlice<'static, u8>) -> (bytes: Vec<u8>)
    ensures
        bytes@ == owned_bytes(slice),
{
    Vec::from(slice)
}

} // verus!
