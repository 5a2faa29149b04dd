//! Content-addressed names: a fixed-seed hash, written as sixteen hex digits.
//!
//! The hash is computed by `ahash`. Its hasher is opaque to the verifier; the
//! four functions below that call into `ahash` are trusted, and so is what is
//! said of appending a character to a `String`.

use vstd::prelude::*;
use ahash::{AHasher, RandomState};
use core::hash::{BuildHasher, Hasher};

verus! {

#[verifier::external_type_specification]
#[verifier::external_body]
pub struct ExRandomState(RandomState);

#[verifier::external_type_specification]
#[verifier::external_body]
pub struct ExAHasher(AHasher);

/// The four seeds that a hasher state was made from.
pub uninterp spec fn state_seeds(state: RandomState) -> Seq<u64>;

/// The four seeds of the state that a hasher was built from.
pub uninterp spec fn hasher_seeds(hasher: AHasher) -> Seq<u64>;

/// The byte strings that were written to a hasher since it was made, one
/// entry for each write, in the order of the writes.
pub uninterp spec fn hasher_written(hasher: AHasher) -> Seq<Seq<u8>>;

/// The digest of a hasher that was made from `seeds` and then received the
/// writes `written`. The hash depends on where one write ends and the next
/// begins, not only on the bytes taken together. `ahash` picks its hash
/// function for the target it is compiled for, so this is one function for
/// one build of the library.
pub uninterp spec fn seeded_digest(seeds: Seq<u64>, written: Seq<Seq<u8>>) -> u64;

/// Trusted: calls `RandomState::with_seeds` of `ahash`.
///
/// The keys of the state are the four seeds, each xor-ed with a constant of
/// the crate: nothing of the process or of the machine enters.
#[verifier::external_body]
pub(crate) fn seeded_state(k0: u64, k1: u64, k2: u64, k3: u64) -> (state: RandomState)
    ensures
        state_seeds(state) == seq![k0, k1, k2, k3],
{
    RandomState::with_seeds(k0, k1, k2, k3)
}

/// Trusted: calls `BuildHasher::build_hasher` on an `ahash` state. The
/// hasher is made from the keys of the state alone, and nothing has been
/// written to it yet.
#[verifier::external_body]
pub(crate) fn build_hasher(state: &RandomState) -> (hasher: AHasher)
    ensures
        hasher_seeds(hasher) == state_seeds(*state),
        hasher_written(hasher) == Seq::<Seq<u8>>::empty(),
{
    state.build_hasher()
}

/// Trusted: calls `Hasher::write` on an `ahash` hasher. The write is recorded
/// after the earlier ones; the seeds stay.
#[verifier::external_body]
pub(crate) fn hasher_write(hasher: &mut AHasher, bytes: &[u8])
    ensures
        hasher_seeds(*final(hasher)) == hasher_seeds(*old(hasher)),
        hasher_written(*final(hasher)) == hasher_written(*old(hasher)).push(bytes@),
{
    hasher.write(bytes)
}

/// Trusted: calls `Hasher::finish` on an `ahash` hasher. The digest is
/// computed from the state of the hasher, which its seeds and the writes it
/// received determine.
#[verifier::external_body]
pub(crate) fn hasher_finish(hasher: &AHasher) -> (digest: u64)
    ensures
        digest == seeded_digest(hasher_seeds(*hasher), hasher_written(*hasher)),
{
    hasher.finish()
}

/// Trusted: `String::push` appends the character to the end of the string.
pub assume_specification[ String::push ](string: &mut String, ch: char)
    ensures
        final(string)@ == old(string)@.push(ch),
;

/// Sixteen to the power of `exponent`.
pub open spec fn pow16(exponent: nat) -> nat
    decreases exponent,
{
    if exponent == 0 {
        1
    } else {
        16 * pow16((exponent - 1) as nat)
    }
}

proof fn lemma_pow16_positive(exponent: nat)
    ensures
        pow16(exponent) > 0,
    decreases exponent,
{
    if exponent > 0 {
        lemma_pow16_positive((exponent - 1) as nat);
    }
}

/// The lower-case hexadecimal digit for a value from 0 to 15.
pub open spec fn hex_digit(nibble: int) -> char {
    if nibble < 10 {
        (48 + nibble) as char
    } else {
        (87 + nibble) as char
    }
}

/// `value` in hexadecimal: sixteen lower-case digits, the most significant
/// first, with leading zeros.
pub open spec fn hex16(value: u64) -> Seq<char> {
    Seq::new(16, |i: int| hex_digit((value as int / pow16((15 - i) as nat) as int) % 16))
}

fn hex_digit_char(nibble: u8) -> (digit: char)
    requires
        nibble < 16,
    ensures
        digit == hex_digit(nibble as int),
{
    if nibble < 10 {
        (48 + nibble) as char
    } else {
        (87 + nibble) as char
    }
}

/// Writes `value` as sixteen lower-case hexadecimal digits.
pub fn to_hex16(value: u64) -> (hex: String)
    ensures
        hex@ == hex16(value),
{
    let mut hex = String::new();
    let mut place: u64 = 0x1000_0000_0000_0000;
    assert(place == pow16(15)) by {
        reveal_with_fuel(pow16, 16);
    }
    let mut written: usize = 0;
    while written < 16
        invariant
            written <= 16,
            written < 16 ==> place == pow16((15 - written) as nat),
            hex@.len() == written,
            forall|i: int| 0 <= i < written ==> hex@[i] == hex16(value)[i],
        decreases 16 - written,
    {
        proof {
            lemma_pow16_positive((15 - written) as nat);
        }
        let nibble = ((value / place) % 16) as u8;
        hex.push(hex_digit_char(nibble));
        if written < 15 {
            assert(pow16((15 - written) as nat) == 16 * pow16((14 - written) as nat));
        }
        place = place / 16;
        written += 1;
    }
    assert(hex@ =~= hex16(value));
    hex
}

} // verus!
