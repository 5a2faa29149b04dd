//! The random source that the mutators draw from.
//!
//! Random numbers come from `libafl_bolts`. Its generator is opaque to the
//! verifier: the two functions below that call it are trusted, and everything
//! built on them is proved for every value they may hand back.

use vstd::prelude::*;
use libafl_bolts::rands::{Rand, RomuDuoJrRand};

pub use libafl_bolts::rands::StdRand;

verus! {

// `StdRand`, the standard generator of `libafl_bolts`, is this type.
#[verifier::external_type_specification]
#[verifier::external_body]
pub struct ExRomuDuoJrRand(RomuDuoJrRand);

/// Trusted: calls `Rand::below` of `libafl_bolts` on the standard generator.
///
/// The outside function returns 0 for a bound of 0 or 1. Otherwise it draws
/// until a draw falls below the largest multiple of the bound, and reduces
/// that draw modulo the bound: the result is below the bound. Which value
/// comes back is not stated, and two calls may differ.
#[verifier::external_body]
pub(crate) fn draw_below(rand: &mut StdRand, upper_bound_excl: u64) -> (drawn: u64)
    ensures
        upper_bound_excl <= 1 ==> drawn == 0,
        upper_bound_excl > 1 ==> drawn < upper_bound_excl,
{
    rand.below(upper_bound_excl)
}

/// Trusted: calls `Rand::choose` of `libafl_bolts` on the indices `0..len`.
///
/// The outside function draws a position below the number of items it is
/// given and returns the item at that position; of the indices `0..len` that
/// is an index below `len`. It fails where there is nothing to choose from,
/// so `len` must not be zero.
#[verifier::external_body]
pub(crate) fn draw_choice(rand: &mut StdRand, len: usize) -> (index: usize)
    requires
        len > 0,
    ensures
        index < len,
{
    rand.choose(0..len)
}

/// Draws an index below `len`: every index is as likely as any other. Below
/// a `len` of 0 there is none, and the result is 0.
pub fn index_below(rand: &mut StdRand, len: usize) -> (index: usize)
    ensures
        len > 0 ==> index < len,
        len == 0 ==> index == 0,
{
    let drawn: u64 = draw_below(rand, len as u64);
    drawn as usize
}

} // verus!
