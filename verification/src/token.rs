//! The token and lexer capabilities that an embedder supplies.
//!
//! Neither trait promises anything about what its methods return: an
//! implementation may come from code that was never verified. The library's
//! contracts therefore speak of what a method `may return` for an argument,
//! and hold for every implementation.

use vstd::prelude::*;
use crate::random::StdRand;

verus! {

/// The unit of structure of an input: a value with a byte encoding and, for
/// an opening delimiter, the value of the token that closes what it opens.
pub trait Token: Sized + Clone + PartialEq + core::fmt::Debug + core::hash::Hash {
    /// A fresh random token.
    fn new_rand(rand: &mut StdRand) -> Self;

    /// Replaces this token with a similar one. What counts as similar is the
    /// implementor's choice; one may for example put a `let` in the place of
    /// a `var`. By default it is any fresh random token.
    fn replace_rand_similar(&mut self, rand: &mut StdRand)
        default_ensures
            exists|source: &mut StdRand| #[trigger]
                call_ensures(Self::new_rand, (source,), *final(self)),
    {
        *self = Self::new_rand(rand);
    }

    /// The raw byte encoding of this token.
    fn as_bytes(&self) -> &[u8];

    /// The token that closes the span this token opens: for a `(` that would
    /// be a `)`. By default a token opens nothing.
    fn closing_bracket(&self) -> (closing: Option<&Self>)
        default_ensures
            closing is None,
    {
        None
    }
}

/// Turns raw bytes into tokens, skipping what it cannot read.
pub trait Lexer: Sized {
    /// The tokens that this lexer produces.
    type Token: Token;

    /// Lexes `src`. A lexer never fails: bytes it cannot interpret are left
    /// out of the result.
    fn lex(src: &[u8]) -> Vec<Self::Token>;
}

/// `new_rand` may return `token`, for some state of the random source.
pub open spec fn may_be_fresh<T: Token>(token: T) -> bool {
    exists|rand: &mut StdRand| #[trigger] call_ensures(T::new_rand, (rand,), token)
}

/// `as_bytes` may return `encoding` for `token`.
pub open spec fn encodes_as<T: Token>(token: T, encoding: Seq<u8>) -> bool {
    exists|bytes: &[u8]| #[trigger] call_ensures(T::as_bytes, (&token,), bytes) && bytes@ == encoding
}

/// `closing_bracket` may return `closing` for `opener`.
pub open spec fn closes_with<T: Token>(opener: T, closing: T) -> bool {
    call_ensures(T::closing_bracket, (&opener,), Some(&closing))
}

/// `closing_bracket` may return `None` for `token`.
pub open spec fn opens_nothing<T: Token>(token: T) -> bool {
    call_ensures(T::closing_bracket, (&token,), None::<&T>)
}

/// `==` may return `verdict` for `left == right`.
pub open spec fn compares<T: Token>(left: T, right: T, verdict: bool) -> bool {
    call_ensures(<T as PartialEq>::eq, (&left, &right), verdict)
}

} // verus!
