//! The token sequence: the structured form of a test input.

use vstd::prelude::*;
use core::ops::Range;
use libafl_bolts::ownedref::OwnedSlice;
use crate::naming::{
    build_hasher, hasher_finish, hasher_seeds, hasher_write, hasher_written, hex16,
    seeded_digest, seeded_state, to_hex16,
};
use crate::random::StdRand;
use crate::raw::{owned_bytes, owned_slice_from, owned_slice_into_vec};
use crate::token::{encodes_as, may_be_fresh, Lexer, Token};

verus! {

/// An input as an ordered sequence of tokens.
///
/// The number of tokens, not of bytes, is the size of the input. Its view is
/// the sequence of tokens it holds.
#[derive(Debug)]
pub struct TokenInput<T> {
    // Mutations splice a lot; a linked list may turn out cheaper than a vector.
    tokens: Vec<T>,
}

impl<T> View for TokenInput<T> {
    type V = Seq<T>;

    closed spec fn view(&self) -> Seq<T> {
        self.tokens@
    }
}

/// `tokens` without the span `[start, end)`: what stands before `start`
/// followed by what stands from `end` on.
pub open spec fn without_span<T>(tokens: Seq<T>, start: int, end: int) -> Seq<T> {
    tokens.subrange(0, start) + tokens.subrange(end, tokens.len() as int)
}

/// `tokens` with `inserted` standing in place of the span `[start, end)`.
/// With `start == end` nothing is taken out.
pub open spec fn with_span_replaced<T>(
    tokens: Seq<T>,
    start: int,
    end: int,
    inserted: Seq<T>,
) -> Seq<T> {
    tokens.subrange(0, start) + inserted + tokens.subrange(end, tokens.len() as int)
}

/// `after` has the length of `before` and holds the same token at every index
/// outside `[start, end)`.
pub open spec fn same_outside<T>(before: Seq<T>, after: Seq<T>, start: int, end: int) -> bool {
    &&& after.len() == before.len()
    &&& forall|i: int|
        0 <= i < before.len() && !(start <= i < end) ==> #[trigger] after[i] == before[i]
}

/// Every token of `tokens` in the span `[start, end)` is one that
/// [`Token::new_rand`] may return.
pub open spec fn fresh_within<T: Token>(tokens: Seq<T>, start: int, end: int) -> bool {
    forall|i: int| start <= i < end ==> may_be_fresh(#[trigger] tokens[i])
}

/// `index` lies in the span `[start, end)`.
pub open spec fn within(start: int, end: int, index: int) -> bool {
    start <= index < end
}

/// `copies[i]` is a clone of `sources[i]`, for every index.
pub open spec fn cloned_from<T: Clone>(sources: Seq<T>, copies: Seq<T>) -> bool {
    &&& copies.len() == sources.len()
    &&& forall|i: int| 0 <= i < sources.len() ==> cloned::<T>(sources[i], #[trigger] copies[i])
}

impl<T: Clone> Clone for TokenInput<T> {
    fn clone(&self) -> (copy: Self)
        ensures
            cloned_from(self@, copy@),
    {
        let copy = Self { tokens: self.tokens.clone() };
        assert(cloned_from(self@, copy@)) by {
            assert forall|i: int| 0 <= i < self@.len() implies cloned::<T>(
                self@[i],
                #[trigger] copy@[i],
            ) by {
                assert(cloned::<T>(self.tokens[i], copy.tokens[i]));
            }
        }
        copy
    }
}

impl<T: Clone> TokenInput<T> {
    /// Creates an input that holds the given tokens.
    #[must_use]
    #[inline]
    pub fn new(tokens: Vec<T>) -> (input: Self)
        ensures
            input@ == tokens@,
    {
        Self { tokens }
    }

    /// The tokens of this input.
    #[must_use]
    #[inline]
    pub fn tokens(&self) -> (tokens: &[T])
        ensures
            tokens@ == self@,
    {
        self.tokens.as_slice()
    }

    /// The tokens of this input, mutable. What the caller leaves in the slice
    /// is what the input holds afterwards.
    #[must_use]
    #[inline]
    pub fn tokens_mut(&mut self) -> (tokens: &mut [T])
        ensures
            tokens@ == old(self)@,
            final(self)@ == final(tokens)@,
    {
        self.tokens.as_mut_slice()
    }

    /// The number of tokens.
    #[inline]
    pub fn len(&self) -> (len: usize)
        ensures
            len == self@.len(),
    {
        self.tokens.len()
    }

    /// Whether the input holds no token.
    #[inline]
    pub fn is_empty(&self) -> (empty: bool)
        ensures
            empty <==> self@.len() == 0,
    {
        self.tokens.len() == 0
    }

    /// Puts `token` in the place of the token at `index`.
    #[inline]
    pub fn set(&mut self, index: usize, token: T)
        requires
            index < old(self)@.len(),
        ensures
            final(self)@ == old(self)@.update(index as int, token),
    {
        self.tokens[index] = token;
    }

    /// Removes the token at `index` and returns it; the tokens after it move
    /// one place to the left.
    #[inline]
    pub fn remove(&mut self, index: usize) -> (removed: T)
        requires
            index < old(self)@.len(),
        ensures
            removed == old(self)@[index as int],
            final(self)@ == old(self)@.remove(index as int),
    {
        self.tokens.remove(index)
    }

    /// Drops every token at or past `len`. A `len` beyond the end changes
    /// nothing.
    #[inline]
    pub fn truncate(&mut self, len: usize)
        ensures
            len <= old(self)@.len() ==> final(self)@ == old(self)@.subrange(0, len as int),
            len > old(self)@.len() ==> final(self)@ == old(self)@,
    {
        self.tokens.truncate(len);
    }

    /// Removes the span `[span.start, span.end)` and closes the gap: the
    /// tokens before the span and the tokens after it keep their order.
    pub fn remove_span(&mut self, span: Range<usize>)
        requires
            span.start <= span.end <= old(self)@.len(),
        ensures
            final(self)@ == without_span(old(self)@, span.start as int, span.end as int),
            final(self)@.len() == old(self)@.len() - (span.end - span.start),
    {
        let mut rest = self.tokens.split_off(span.end);
        self.tokens.truncate(span.start);
        self.tokens.append(&mut rest);
    }

    /// Moves the tokens of `inserted` into the input so that the first of
    /// them stands at index `at`; the tokens from `at` on move to the right.
    /// `inserted` is left empty.
    pub fn insert_span(&mut self, at: usize, inserted: &mut Vec<T>)
        requires
            at <= old(self)@.len(),
        ensures
            final(self)@ == with_span_replaced(old(self)@, at as int, at as int, old(inserted)@),
            final(self)@.len() == old(self)@.len() + old(inserted)@.len(),
            final(inserted)@.len() == 0,
    {
        let mut rest = self.tokens.split_off(at);
        self.tokens.append(inserted);
        self.tokens.append(&mut rest);
    }

    /// Appends a clone of each token of `other`, in order.
    #[inline]
    pub fn extend_from_slice(&mut self, other: &[T])
        ensures
            final(self)@.len() == old(self)@.len() + other@.len(),
            final(self)@.subrange(0, old(self)@.len() as int) == old(self)@,
            cloned_from(
                other@,
                final(self)@.subrange(old(self)@.len() as int, final(self)@.len() as int),
            ),
    {
        let ghost before = self.tokens@;
        self.tokens.extend_from_slice(other);
        proof {
            let after = self.tokens@;
            assert(after.subrange(0, before.len() as int) =~= before);
            let tail = after.subrange(before.len() as int, after.len() as int);
            assert forall|i: int| 0 <= i < other@.len() implies cloned::<T>(
                other@[i],
                #[trigger] tail[i],
            ) by {
                assert(tail[i] == after[before.len() + i]);
            }
        }
    }
}

/// `encodings[i]` is what `as_bytes` may return for `tokens[i]`, for every
/// index.
pub open spec fn lowers_to<T: Token>(tokens: Seq<T>, encodings: Seq<Seq<u8>>) -> bool {
    &&& encodings.len() == tokens.len()
    &&& forall|i: int| 0 <= i < tokens.len() ==> encodes_as(tokens[i], #[trigger] encodings[i])
}

/// The seeds of the hash that names an input.
pub open spec fn name_seeds() -> Seq<u64> {
    seq![0u64, 0u64, 0u64, 0u64]
}

impl<T: Token> TokenInput<T> {
    /// The name of this input: the hash of the byte encodings of its tokens,
    /// taken in order with fixed seeds, as sixteen hexadecimal digits.
    ///
    /// The name depends on what the tokens are and on their order, and on
    /// nothing else; `_idx` plays no part.
    #[must_use]
    pub fn generate_name(&self, _idx: usize) -> (name: String)
        ensures
            exists|encodings: Seq<Seq<u8>>|
                #![trigger lowers_to(self@, encodings)]
                lowers_to(self@, encodings) && name@ == hex16(
                    seeded_digest(name_seeds(), encodings),
                ),
    {
        let mut hasher = build_hasher(&seeded_state(0, 0, 0, 0));
        let mut index: usize = 0;
        while index < self.tokens.len()
            invariant
                index <= self@.len(),
                hasher_seeds(hasher) == name_seeds(),
                lowers_to(self@.subrange(0, index as int), hasher_written(hasher)),
            decreases self@.len() - index,
        {
            let ghost before = hasher_written(hasher);
            let code = self.tokens[index].as_bytes();
            hasher_write(&mut hasher, code);
            proof {
                let after = hasher_written(hasher);
                let read = self@.subrange(0, index + 1);
                assert forall|i: int| 0 <= i < read.len() implies encodes_as(
                    read[i],
                    #[trigger] after[i],
                ) by {
                    if i < index {
                        assert(self@.subrange(0, index as int)[i] == read[i]);
                        assert(after[i] == before[i]);
                    }
                }
            }
            index += 1;
        }
        proof {
            assert(self@.subrange(0, index as int) =~= self@);
        }
        to_hex16(hasher_finish(&hasher))
    }

    /// The bytes of this input: the byte encodings of its tokens, one after
    /// the other.
    pub fn to_bytes(&self) -> (bytes: Vec<u8>)
        ensures
            exists|encodings: Seq<Seq<u8>>|
                #![trigger lowers_to(self@, encodings)]
                lowers_to(self@, encodings) && bytes@ == encodings.flatten(),
    {
        let mut bytes: Vec<u8> = Vec::new();
        let ghost mut encodings: Seq<Seq<u8>> = Seq::empty();
        let mut index: usize = 0;
        while index < self.tokens.len()
            invariant
                index <= self@.len(),
                lowers_to(self@.subrange(0, index as int), encodings),
                bytes@ == encodings.flatten(),
            decreases self@.len() - index,
        {
            let code = self.tokens[index].as_bytes();
            let ghost before = encodings;
            let ghost joined = bytes@;
            bytes.extend_from_slice(code);
            proof {
                encodings = before.push(code@);
                let read = self@.subrange(0, index + 1);
                assert forall|i: int| 0 <= i < read.len() implies encodes_as(
                    read[i],
                    #[trigger] encodings[i],
                ) by {
                    if i < index {
                        assert(self@.subrange(0, index as int)[i] == read[i]);
                        assert(encodings[i] == before[i]);
                    }
                }
                assert(bytes@ =~= joined + code@);
                before.lemma_flatten_push(code@);
            }
            index += 1;
        }
        proof {
            assert(self@.subrange(0, index as int) =~= self@);
        }
        bytes
    }

    /// The bytes of this input in the form the executing side takes them.
    #[inline]
    pub fn target_bytes(&self) -> (target: OwnedSlice<'static, u8>)
        ensures
            exists|encodings: Seq<Seq<u8>>|
                #![trigger lowers_to(self@, encodings)]
                lowers_to(self@, encodings) && owned_bytes(target) == encodings.flatten(),
    {
        owned_slice_from(self.to_bytes())
    }

    /// Lifts a raw input into a token sequence: the input holds what the
    /// lexer `L` makes of `raw`.
    pub fn transform_from<L: Lexer<Token = T>>(raw: &[u8]) -> (input: Self)
        ensures
            exists|lexed: Vec<T>| #[trigger] call_ensures(L::lex, (raw,), lexed) && input@ == lexed@,
    {
        TokenInput::new(L::lex(raw))
    }

    /// Lowers this input to raw bytes for execution, and hands the input
    /// itself back beside them: what goes back into the corpus after a
    /// mutation is the token sequence that was mutated, not a second lexing
    /// of its bytes.
    pub fn transform_into(self) -> (lowered: (Vec<u8>, Self))
        ensures
            lowered.1 == self,
            exists|encodings: Seq<Seq<u8>>|
                #![trigger lowers_to(self@, encodings)]
                lowers_to(self@, encodings) && lowered.0@ == encodings.flatten(),
    {
        let raw = owned_slice_into_vec(self.target_bytes());
        (raw, self)
    }

    /// Puts a fresh random token in the place of every token of the span
    /// `[span.start, span.end)`.
    pub fn replace_rand(&mut self, rand: &mut StdRand, span: Range<usize>)
        requires
            span.start <= span.end <= old(self)@.len(),
        ensures
            same_outside(old(self)@, final(self)@, span.start as int, span.end as int),
            fresh_within(final(self)@, span.start as int, span.end as int),
    {
        let mut index = span.start;
        while index < span.end
            invariant
                span.start <= index <= span.end <= self@.len(),
                same_outside(old(self)@, self@, span.start as int, index as int),
                fresh_within(self@, span.start as int, index as int),
            decreases span.end - index,
        {
            let token = T::new_rand(rand);
            assert(may_be_fresh(token));
            self.tokens[index] = token;
            index += 1;
        }
    }

    /// Replaces every token of the span `[span.start, span.end)` with a
    /// similar one: each is what [`Token::replace_rand_similar`] made of the
    /// token that stood in its place.
    pub fn replace_similar(&mut self, rand: &mut StdRand, span: Range<usize>)
        requires
            span.start <= span.end <= old(self)@.len(),
        ensures
            same_outside(old(self)@, final(self)@, span.start as int, span.end as int),
            forall|i: int| #[trigger]
                within(span.start as int, span.end as int, i) ==> exists|
                    place: &mut T,
                    rand: &mut StdRand,
                |
                    #![trigger call_ensures(T::replace_rand_similar, (place, rand), ())]
                    *place == old(self)@[i] && *final(place) == final(self)@[i] && call_ensures(
                        T::replace_rand_similar,
                        (place, rand),
                        (),
                    ),
    {
        let mut index = span.start;
        while index < span.end
            invariant
                span.start <= index <= span.end <= self@.len(),
                same_outside(old(self)@, self@, span.start as int, index as int),
                forall|i: int| #[trigger]
                    within(span.start as int, index as int, i) ==> exists|
                        place: &mut T,
                        rand: &mut StdRand,
                    |
                        #![trigger call_ensures(T::replace_rand_similar, (place, rand), ())]
                        *place == old(self)@[i] && *final(place) == self@[i] && call_ensures(
                            T::replace_rand_similar,
                            (place, rand),
                            (),
                        ),
            decreases span.end - index,
        {
            let ghost before = self@;
            self.tokens[index].replace_rand_similar(rand);
            proof {
                assert forall|i: int| #[trigger]
                    within(span.start as int, index + 1, i) implies exists|
                    place: &mut T,
                    rand: &mut StdRand,
                |
                    #![trigger call_ensures(T::replace_rand_similar, (place, rand), ())]
                    *place == old(self)@[i] && *final(place) == self@[i] && call_ensures(
                        T::replace_rand_similar,
                        (place, rand),
                        (),
                    ) by {
                    if i < index {
                        assert(within(span.start as int, index as int, i));
                        assert(self@[i] == before[i]);
                    } else {
                        assert(before[i] == old(self)@[i]);
                    }
                }
            }
            index += 1;
        }
    }
}

} // verus!
