//! The mutation operators on token sequences.
//!
//! Every operator takes the random source and the input, and reports whether
//! it rewrote the input or found nothing to act on. What an operator does
//! depends on what it draws, so its contract states what holds whatever was
//! drawn: which rewrites are possible, and when the operator must act. The
//! rewrite itself, once the draw is made, is a method of
//! [`TokenInput`] with an exact contract.

use vstd::prelude::*;
use vstd::slice::slice_subrange;
use core::ops::Range;
use crate::input::{
    cloned_from, fresh_within, same_outside, with_span_replaced, within, without_span, TokenInput,
};
use crate::random::{draw_below, draw_choice, index_below, StdRand};
use crate::region::{has_unmatched_opener, is_region, no_opener, rand_region};
use crate::token::{may_be_fresh, Token};

verus! {

/// How a mutation attempt ended.
#[derive(Clone, Copy, Debug, PartialEq, Eq, Structural)]
pub enum MutationResult {
    /// The input was rewritten.
    Mutated,
    /// Nothing in the input could be acted on; it was left as it was. This is
    /// no failure.
    Skipped,
}

/// One insertion adds fewer tokens than this.
pub const INSERT_TOKEN_MAX: u64 = 64;

/// A draw of a region from `tokens` may come back empty-handed: no token
/// names a closer, or some opener is never closed.
pub open spec fn may_lack_region<T: Token>(tokens: Seq<T>) -> bool {
    no_opener(tokens) || has_unmatched_opener(tokens)
}

/// `after` has the length of `before` and differs from it at `index` at most.
pub open spec fn token_rewritten<T>(before: Seq<T>, after: Seq<T>, index: int) -> bool {
    0 <= index < before.len() && same_outside(before, after, index, index + 1)
}

/// `after` is `before` without the token at `index`: one token shorter, with
/// the other tokens in their order.
pub open spec fn token_deleted<T>(before: Seq<T>, after: Seq<T>, index: int) -> bool {
    &&& 0 <= index < before.len()
    &&& after == before.remove(index)
    &&& after.len() == before.len() - 1
}

/// `[start, end)` is a region of `before`, and `after` has the length of
/// `before` and differs from it inside that region at most.
pub open spec fn region_rewritten<T: Token>(
    before: Seq<T>,
    after: Seq<T>,
    start: int,
    end: int,
) -> bool {
    is_region(before, start, end) && same_outside(before, after, start, end)
}

/// `[start, end)` is a span of `before` that ends before the last token, and
/// `after` has the length of `before` and differs from it inside that span at
/// most.
pub open spec fn span_rewritten<T>(before: Seq<T>, after: Seq<T>, start: int, end: int) -> bool {
    0 <= start <= end < before.len() && same_outside(before, after, start, end)
}

/// `after` is `before` without the span `[start, end)`, a span that lies
/// within `before`: shorter by the length of the span, with what stood before
/// the span followed by what stood after it.
pub open spec fn span_deleted<T>(before: Seq<T>, after: Seq<T>, start: int, end: int) -> bool {
    &&& 0 <= start <= end <= before.len()
    &&& after == without_span(before, start, end)
    &&& after.len() == before.len() - (end - start)
}

/// `after` is `before` with the tokens `fresh` inserted at index `at`: the
/// tokens of `before` keep their order on either side of them.
pub open spec fn span_inserted<T>(before: Seq<T>, after: Seq<T>, at: int, fresh: Seq<T>) -> bool {
    &&& 0 <= at <= before.len()
    &&& after == with_span_replaced(before, at, at, fresh)
    &&& after.len() == before.len() + fresh.len()
}

/// `after` is `before` with the span `local` replaced by `copies`, which are
/// clones of the tokens of the region `remote` of `source`: what stood in
/// the span gives way to as many tokens as that region holds.
pub open spec fn span_spliced<T: Token>(
    before: Seq<T>,
    after: Seq<T>,
    local: (int, int),
    source: Seq<T>,
    remote: (int, int),
    copies: Seq<T>,
) -> bool {
    &&& 0 <= local.0 <= local.1 <= before.len()
    &&& is_region(source, remote.0, remote.1)
    &&& cloned_from(source.subrange(remote.0, remote.1), copies)
    &&& after == with_span_replaced(before, local.0, local.1, copies)
    &&& after.len() == before.len() - (local.1 - local.0) + (remote.1 - remote.0)
}

/// A mutation operator that needs nothing but the random source and the
/// input.
pub trait Mutator<T: Token> {
    /// Mutates `input`, drawing from `rand`. An operator that finds nothing
    /// to act on reports `Skipped` and leaves the input as it was.
    fn mutate(&mut self, rand: &mut StdRand, input: &mut TokenInput<T>) -> (result: MutationResult)
        ensures
            result == MutationResult::Skipped ==> final(input)@ == old(input)@,
    ;
}

/// Draws two indices of the input and orders them into a span.
fn rand_span<T: Token>(rand: &mut StdRand, input: &TokenInput<T>) -> (span: Range<usize>)
    ensures
        span.start <= span.end <= input@.len(),
        input@.len() > 0 ==> span.end < input@.len(),
{
    let len = input.len();
    let off1 = index_below(rand, len);
    let off2 = index_below(rand, len);
    if off1 <= off2 {
        off1..off2
    } else {
        off2..off1
    }
}

/// Replaces one token of the input with a random token.
#[derive(Debug, Default)]
pub struct TokenRandMutator;

impl TokenRandMutator {
    /// Creates a new [`TokenRandMutator`].
    #[must_use]
    pub fn new() -> Self {
        TokenRandMutator
    }

    /// The name of this mutator.
    pub fn name(&self) -> (name: &'static str)
        ensures
            name@ == "TokenRandMutator"@,
    {
        "TokenRandMutator"
    }
}

impl<T: Token> Mutator<T> for TokenRandMutator {
    /// Replaces the token at a random index with a fresh random token. The
    /// length stays, and so does every other token. Skips an empty input.
    fn mutate(&mut self, rand: &mut StdRand, input: &mut TokenInput<T>) -> (result: MutationResult)
        ensures
            old(input)@.len() == 0 ==> result == MutationResult::Skipped,
            old(input)@.len() > 0 ==> result == MutationResult::Mutated,
            result == MutationResult::Mutated ==> exists|index: int|
                #![trigger token_rewritten(old(input)@, final(input)@, index)]
                token_rewritten(old(input)@, final(input)@, index) && may_be_fresh(
                    final(input)@[index],
                ),
    {
        if input.is_empty() {
            MutationResult::Skipped
        } else {
            let index = draw_choice(rand, input.len());
            let token = T::new_rand(rand);
            assert(may_be_fresh(token));
            input.set(index, token);
            assert(token_rewritten(old(input)@, input@, index as int));
            MutationResult::Mutated
        }
    }
}

/// Deletes one token from the input.
#[derive(Debug, Default)]
pub struct TokenDeleteMutator;

impl TokenDeleteMutator {
    /// Creates a new [`TokenDeleteMutator`].
    #[must_use]
    pub fn new() -> Self {
        TokenDeleteMutator
    }

    /// The name of this mutator.
    pub fn name(&self) -> (name: &'static str)
        ensures
            name@ == "TokenDeleteMutator"@,
    {
        "TokenDeleteMutator"
    }
}

impl<T: Token> Mutator<T> for TokenDeleteMutator {
    /// Removes the token at a random index: the input gets one token shorter
    /// and the other tokens keep their order. Skips an empty input.
    fn mutate(&mut self, rand: &mut StdRand, input: &mut TokenInput<T>) -> (result: MutationResult)
        ensures
            old(input)@.len() == 0 ==> result == MutationResult::Skipped,
            old(input)@.len() > 0 ==> result == MutationResult::Mutated,
            result == MutationResult::Mutated ==> exists|index: int| #[trigger]
                token_deleted(old(input)@, final(input)@, index),
    {
        if input.is_empty() {
            MutationResult::Skipped
        } else {
            let index = index_below(rand, input.len());
            input.remove(index);
            assert(token_deleted(old(input)@, input@, index as int));
            MutationResult::Mutated
        }
    }
}

/// Replaces one token of the input with a similar one. What is similar is
/// for [`Token::replace_rand_similar`] to say.
#[derive(Debug, Default)]
pub struct TokenRandSimilarMutator;

impl TokenRandSimilarMutator {
    /// Creates a new [`TokenRandSimilarMutator`].
    #[must_use]
    pub fn new() -> Self {
        TokenRandSimilarMutator
    }

    /// The name of this mutator.
    pub fn name(&self) -> (name: &'static str)
        ensures
            name@ == "TokenRandSimilarMutator"@,
    {
        "TokenRandSimilarMutator"
    }
}

impl<T: Token> Mutator<T> for TokenRandSimilarMutator {
    /// Replaces the token at a random index with a similar one. The length
    /// stays, and so does every other token. Skips an empty input.
    fn mutate(&mut self, rand: &mut StdRand, input: &mut TokenInput<T>) -> (result: MutationResult)
        ensures
            old(input)@.len() == 0 ==> result == MutationResult::Skipped,
            old(input)@.len() > 0 ==> result == MutationResult::Mutated,
            result == MutationResult::Mutated ==> exists|index: int|
                #![trigger token_rewritten(old(input)@, final(input)@, index)]
                token_rewritten(old(input)@, final(input)@, index) && exists|
                    place: &mut T,
                    rand: &mut StdRand,
                |
                    #![trigger call_ensures(T::replace_rand_similar, (place, rand), ())]
                    *place == old(input)@[index] && *final(place) == final(input)@[index]
                        && call_ensures(T::replace_rand_similar, (place, rand), ()),
    {
        if input.is_empty() {
            MutationResult::Skipped
        } else {
            let index = draw_choice(rand, input.len());
            input.replace_similar(rand, index..index + 1);
            assert(token_rewritten(old(input)@, input@, index as int));
            assert(within(index as int, index + 1, index as int));
            MutationResult::Mutated
        }
    }
}

/// Replaces every token of a random region with a similar one.
#[derive(Debug, Default)]
pub struct TokenReplaceRegionSimilarMutator;

impl TokenReplaceRegionSimilarMutator {
    /// Creates a new [`TokenReplaceRegionSimilarMutator`].
    #[must_use]
    pub fn new() -> Self {
        TokenReplaceRegionSimilarMutator
    }

    /// The name of this mutator.
    pub fn name(&self) -> (name: &'static str)
        ensures
            name@ == "TokenReplaceRegionSimilarMutator"@,
    {
        "TokenReplaceRegionSimilarMutator"
    }
}

impl<T: Token> Mutator<T> for TokenReplaceRegionSimilarMutator {
    /// Draws a region and replaces each token in it with a similar one; the
    /// length stays, and so does every token outside the region. Skips when
    /// no region came of the draw, as it must for an empty input.
    fn mutate(&mut self, rand: &mut StdRand, input: &mut TokenInput<T>) -> (result: MutationResult)
        ensures
            old(input)@.len() == 0 ==> result == MutationResult::Skipped,
            !may_lack_region(old(input)@) ==> result == MutationResult::Mutated,
            result == MutationResult::Mutated ==> exists|start: int, end: int|
                #![trigger region_rewritten(old(input)@, final(input)@, start, end)]
                region_rewritten(old(input)@, final(input)@, start, end) && forall|i: int|
                    #[trigger] within(start, end, i) ==> exists|
                        place: &mut T,
                        rand: &mut StdRand,
                    |
                        #![trigger call_ensures(T::replace_rand_similar, (place, rand), ())]
                        *place == old(input)@[i] && *final(place) == final(input)@[i]
                            && call_ensures(T::replace_rand_similar, (place, rand), ()),
    {
        let Some(region) = rand_region(rand, input.tokens()) else {
            return MutationResult::Skipped;
        };
        let ghost (start, end) = (region.start as int, region.end as int);
        input.replace_similar(rand, region);
        assert(region_rewritten(old(input)@, input@, start, end));
        MutationResult::Mutated
    }
}

/// Replaces every token of a random region with a random token.
#[derive(Debug, Default)]
pub struct TokenReplaceRegionRandMutator;

impl TokenReplaceRegionRandMutator {
    /// Creates a new [`TokenReplaceRegionRandMutator`].
    #[must_use]
    pub fn new() -> Self {
        TokenReplaceRegionRandMutator
    }

    /// The name of this mutator.
    pub fn name(&self) -> (name: &'static str)
        ensures
            name@ == "TokenReplaceRegionRandMutator"@,
    {
        "TokenReplaceRegionRandMutator"
    }
}

impl<T: Token> Mutator<T> for TokenReplaceRegionRandMutator {
    /// Draws a region and puts a fresh random token in the place of each
    /// token in it; the length stays, and so does every token outside the
    /// region. Skips when no region came of the draw, as it must for an empty
    /// input.
    fn mutate(&mut self, rand: &mut StdRand, input: &mut TokenInput<T>) -> (result: MutationResult)
        ensures
            old(input)@.len() == 0 ==> result == MutationResult::Skipped,
            !may_lack_region(old(input)@) ==> result == MutationResult::Mutated,
            result == MutationResult::Mutated ==> exists|start: int, end: int|
                #![trigger region_rewritten(old(input)@, final(input)@, start, end)]
                region_rewritten(old(input)@, final(input)@, start, end) && fresh_within(
                    final(input)@,
                    start,
                    end,
                ),
    {
        let Some(region) = rand_region(rand, input.tokens()) else {
            return MutationResult::Skipped;
        };
        let ghost (start, end) = (region.start as int, region.end as int);
        input.replace_rand(rand, region);
        assert(region_rewritten(old(input)@, input@, start, end));
        MutationResult::Mutated
    }
}

/// Overwrites a random run of consecutive tokens with random tokens.
#[derive(Debug, Default)]
pub struct TokenOverrideMutator;

impl TokenOverrideMutator {
    /// Creates a new [`TokenOverrideMutator`].
    #[must_use]
    pub fn new() -> Self {
        TokenOverrideMutator
    }

    /// The name of this mutator.
    pub fn name(&self) -> (name: &'static str)
        ensures
            name@ == "TokenOverrideMutator"@,
    {
        "TokenOverrideMutator"
    }
}

impl<T: Token> Mutator<T> for TokenOverrideMutator {
    /// Draws two indices of the input and puts a fresh random token in the
    /// place of each token from the smaller index up to, and without, the
    /// larger. Skips an empty input.
    fn mutate(&mut self, rand: &mut StdRand, input: &mut TokenInput<T>) -> (result: MutationResult)
        ensures
            old(input)@.len() == 0 ==> result == MutationResult::Skipped,
            old(input)@.len() > 0 ==> result == MutationResult::Mutated,
            result == MutationResult::Mutated ==> exists|start: int, end: int|
                #![trigger span_rewritten(old(input)@, final(input)@, start, end)]
                span_rewritten(old(input)@, final(input)@, start, end) && fresh_within(
                    final(input)@,
                    start,
                    end,
                ),
    {
        if input.is_empty() {
            MutationResult::Skipped
        } else {
            let span = rand_span(rand, input);
            let ghost (start, end) = (span.start as int, span.end as int);
            input.replace_rand(rand, span);
            assert(span_rewritten(old(input)@, input@, start, end));
            MutationResult::Mutated
        }
    }
}

/// Overwrites a random run of consecutive tokens with similar ones.
#[derive(Debug, Default)]
pub struct TokenSimilarOverrideMutator;

impl TokenSimilarOverrideMutator {
    /// Creates a new [`TokenSimilarOverrideMutator`].
    #[must_use]
    pub fn new() -> Self {
        TokenSimilarOverrideMutator
    }

    /// The name of this mutator.
    pub fn name(&self) -> (name: &'static str)
        ensures
            name@ == "TokenSimilarOverrideMutator"@,
    {
        "TokenSimilarOverrideMutator"
    }
}

impl<T: Token> Mutator<T> for TokenSimilarOverrideMutator {
    /// Draws two indices of the input and replaces each token from the
    /// smaller index up to, and without, the larger with a similar one.
    /// Skips an empty input.
    fn mutate(&mut self, rand: &mut StdRand, input: &mut TokenInput<T>) -> (result: MutationResult)
        ensures
            old(input)@.len() == 0 ==> result == MutationResult::Skipped,
            old(input)@.len() > 0 ==> result == MutationResult::Mutated,
            result == MutationResult::Mutated ==> exists|start: int, end: int|
                #![trigger span_rewritten(old(input)@, final(input)@, start, end)]
                span_rewritten(old(input)@, final(input)@, start, end) && forall|i: int|
                    #[trigger] within(start, end, i) ==> exists|
                        place: &mut T,
                        rand: &mut StdRand,
                    |
                        #![trigger call_ensures(T::replace_rand_similar, (place, rand), ())]
                        *place == old(input)@[i] && *final(place) == final(input)@[i]
                            && call_ensures(T::replace_rand_similar, (place, rand), ()),
    {
        if input.is_empty() {
            MutationResult::Skipped
        } else {
            let span = rand_span(rand, input);
            let ghost (start, end) = (span.start as int, span.end as int);
            input.replace_similar(rand, span);
            assert(span_rewritten(old(input)@, input@, start, end));
            MutationResult::Mutated
        }
    }
}

/// Deletes a random run of consecutive tokens from the input.
#[derive(Debug, Default)]
pub struct TokenDeleteManyMutator;

impl TokenDeleteManyMutator {
    /// Creates a new [`TokenDeleteManyMutator`].
    #[must_use]
    pub fn new() -> Self {
        TokenDeleteManyMutator
    }

    /// The name of this mutator.
    pub fn name(&self) -> (name: &'static str)
        ensures
            name@ == "TokenDeleteManyMutator"@,
    {
        "TokenDeleteManyMutator"
    }
}

impl<T: Token> Mutator<T> for TokenDeleteManyMutator {
    /// Draws two indices of the input and removes the tokens from the
    /// smaller index up to, and without, the larger; what stood after them
    /// closes the gap. Both indices are indices of the input, so the last
    /// token always stays. Where the two indices are the same the span is
    /// empty: the input stays as it was, and the result is `Mutated` all the
    /// same. Skips an empty input.
    fn mutate(&mut self, rand: &mut StdRand, input: &mut TokenInput<T>) -> (result: MutationResult)
        ensures
            old(input)@.len() == 0 ==> result == MutationResult::Skipped,
            old(input)@.len() > 0 ==> result == MutationResult::Mutated,
            result == MutationResult::Mutated ==> exists|start: int, end: int|
                #![trigger span_deleted(old(input)@, final(input)@, start, end)]
                span_deleted(old(input)@, final(input)@, start, end) && end < old(input)@.len(),
    {
        if input.is_empty() {
            MutationResult::Skipped
        } else {
            let span = rand_span(rand, input);
            let ghost (start, end) = (span.start as int, span.end as int);
            input.remove_span(span);
            assert(span_deleted(old(input)@, input@, start, end));
            MutationResult::Mutated
        }
    }
}

/// Deletes a random region from the input.
#[derive(Debug, Default)]
pub struct TokenDeleteRegionMutator;

impl TokenDeleteRegionMutator {
    /// Creates a new [`TokenDeleteRegionMutator`].
    #[must_use]
    pub fn new() -> Self {
        TokenDeleteRegionMutator
    }

    /// The name of this mutator.
    pub fn name(&self) -> (name: &'static str)
        ensures
            name@ == "TokenDeleteRegionMutator"@,
    {
        "TokenDeleteRegionMutator"
    }
}

impl<T: Token> Mutator<T> for TokenDeleteRegionMutator {
    /// Draws a region and removes it; the closing token stays and, with what
    /// follows it, closes the gap. An empty region leaves the input as it
    /// was, and the result is `Mutated` all the same. Skips when no region
    /// came of the draw, as it must for an empty input.
    fn mutate(&mut self, rand: &mut StdRand, input: &mut TokenInput<T>) -> (result: MutationResult)
        ensures
            old(input)@.len() == 0 ==> result == MutationResult::Skipped,
            !may_lack_region(old(input)@) ==> result == MutationResult::Mutated,
            result == MutationResult::Mutated ==> exists|start: int, end: int|
                #![trigger span_deleted(old(input)@, final(input)@, start, end)]
                is_region(old(input)@, start, end) && span_deleted(
                    old(input)@,
                    final(input)@,
                    start,
                    end,
                ),
    {
        let Some(region) = rand_region(rand, input.tokens()) else {
            return MutationResult::Skipped;
        };
        let ghost (start, end) = (region.start as int, region.end as int);
        input.remove_span(region);
        assert(span_deleted(old(input)@, input@, start, end));
        MutationResult::Mutated
    }
}

/// Inserts a random run of fresh tokens into the input.
#[derive(Debug, Default)]
pub struct TokenInsertMutator<T> {
    /// Scratch space for the tokens on their way into the input; empty
    /// between calls.
    buf: Vec<T>,
}

impl<T> TokenInsertMutator<T> {
    #[verifier::type_invariant]
    spec fn buf_is_drained(self) -> bool {
        self.buf@.len() == 0
    }

    /// Creates a new [`TokenInsertMutator`], with room for the tokens of one
    /// insertion in its scratch space and nothing in it.
    #[must_use]
    pub fn new() -> (created: Self)
        ensures
            created.scratch() == Seq::<T>::empty(),
    {
        Self { buf: Vec::with_capacity(INSERT_TOKEN_MAX as usize) }
    }

    /// The tokens that the scratch space holds.
    pub closed spec fn scratch(&self) -> Seq<T> {
        self.buf@
    }

    /// The name of this mutator.
    pub fn name(&self) -> (name: &'static str)
        ensures
            name@ == "TokenInsertMutator"@,
    {
        "TokenInsertMutator"
    }
}

impl<T: Token> Mutator<T> for TokenInsertMutator<T> {
    /// Draws a count below [`INSERT_TOKEN_MAX`], makes that many fresh random
    /// tokens, draws an index of the input and inserts the tokens there: the
    /// tokens that were in the input keep their order on either side. Skips
    /// an empty input, which has no index to insert at.
    fn mutate(&mut self, rand: &mut StdRand, input: &mut TokenInput<T>) -> (result: MutationResult)
        ensures
            old(input)@.len() == 0 ==> result == MutationResult::Skipped,
            old(input)@.len() > 0 ==> result == MutationResult::Mutated,
            result == MutationResult::Mutated ==> exists|at: int, fresh: Seq<T>|
                #![trigger span_inserted(old(input)@, final(input)@, at, fresh)]
                span_inserted(old(input)@, final(input)@, at, fresh)
                    && at < old(input)@.len()
                    && fresh.len() < INSERT_TOKEN_MAX
                    && fresh_within(fresh, 0, fresh.len() as int),
            final(input)@.len() < old(input)@.len() + INSERT_TOKEN_MAX,
    {
        if input.is_empty() {
            return MutationResult::Skipped;
        }
        proof {
            use_type_invariant(&*self);
        }
        // The scratch space is filled outside of `self`, which holds an
        // empty one at every moment, and goes back once it is drained.
        let mut buf: Vec<T> = Vec::new();
        core::mem::swap(&mut self.buf, &mut buf);

        let token_nr = draw_below(rand, INSERT_TOKEN_MAX) as usize;
        while buf.len() < token_nr
            invariant
                buf@.len() <= token_nr,
                fresh_within(buf@, 0, buf@.len() as int),
            decreases token_nr - buf@.len(),
        {
            let token = T::new_rand(rand);
            assert(may_be_fresh(token));
            buf.push(token);
        }
        let idx = index_below(rand, input.len());
        let ghost fresh = buf@;
        input.insert_span(idx, &mut buf);
        assert(span_inserted(old(input)@, input@, idx as int, fresh));

        core::mem::swap(&mut self.buf, &mut buf);
        MutationResult::Mutated
    }
}

/// Replaces a region of the input with a region of another input.
///
/// No limit on the size of the input is enforced here: the input grows where
/// the other region is the longer one.
#[derive(Debug, Default)]
pub struct TokenSpliceRegionMutator<T> {
    /// Scratch space for the copied region; empty between calls.
    buf: Vec<T>,
}

impl<T> TokenSpliceRegionMutator<T> {
    #[verifier::type_invariant]
    spec fn buf_is_drained(self) -> bool {
        self.buf@.len() == 0
    }

    /// Creates a new [`TokenSpliceRegionMutator`], with nothing in its
    /// scratch space.
    #[must_use]
    pub fn new() -> (created: Self)
        ensures
            created.scratch() == Seq::<T>::empty(),
    {
        Self { buf: Vec::new() }
    }

    /// The tokens that the scratch space holds.
    pub closed spec fn scratch(&self) -> Seq<T> {
        self.buf@
    }

    /// The name of this mutator.
    pub fn name(&self) -> (name: &'static str)
        ensures
            name@ == "TokenSpliceRegionMutator"@,
    {
        "TokenSpliceRegionMutator"
    }
}

impl<T: Token> TokenSpliceRegionMutator<T> {
    /// Draws a region of `input` and a region of `other`, and puts a copy of
    /// the second in the place of the first; `other` is only read. Skips, and
    /// leaves `input` as it was, when either draw gave no region.
    pub fn mutate(
        &mut self,
        rand: &mut StdRand,
        input: &mut TokenInput<T>,
        other: &TokenInput<T>,
    ) -> (result: MutationResult)
        ensures
            old(input)@.len() == 0 || other@.len() == 0 ==> result == MutationResult::Skipped,
            !may_lack_region(old(input)@) && !may_lack_region(other@) ==> result
                == MutationResult::Mutated,
            result == MutationResult::Skipped ==> final(input)@ == old(input)@,
            result == MutationResult::Mutated ==> exists|
                local: (int, int),
                remote: (int, int),
                copies: Seq<T>,
            |
                #![trigger span_spliced(old(input)@, final(input)@, local, other@, remote, copies)]
                is_region(old(input)@, local.0, local.1) && span_spliced(
                    old(input)@,
                    final(input)@,
                    local,
                    other@,
                    remote,
                    copies,
                ),
    {
        let Some(region) = rand_region(rand, input.tokens()) else {
            return MutationResult::Skipped;
        };
        self.splice(rand, input, region, other)
    }

    /// The second half of [`Self::mutate`], for a caller that has to fetch
    /// `other` between the two draws: takes the span of `input` that is to be
    /// replaced, draws a region of `other`, and puts a copy of it in the
    /// place of `span`. Skips, and leaves `input` as it was, when `span` does
    /// not lie within `input` or when the draw gave no region of `other`.
    pub fn splice(
        &mut self,
        rand: &mut StdRand,
        input: &mut TokenInput<T>,
        span: Range<usize>,
        other: &TokenInput<T>,
    ) -> (result: MutationResult)
        ensures
            !(span.start <= span.end <= old(input)@.len()) ==> result == MutationResult::Skipped,
            span.start <= span.end <= old(input)@.len() && !may_lack_region(other@) ==> result
                == MutationResult::Mutated,
            result == MutationResult::Skipped ==> final(input)@ == old(input)@,
            result == MutationResult::Mutated ==> exists|remote: (int, int), copies: Seq<T>|
                #[trigger] span_spliced(
                    old(input)@,
                    final(input)@,
                    (span.start as int, span.end as int),
                    other@,
                    remote,
                    copies,
                ),
    {
        proof {
            use_type_invariant(&*self);
        }
        if span.start > span.end || span.end > input.len() {
            return MutationResult::Skipped;
        }
        let other_tokens = other.tokens();
        let Some(other_region) = rand_region(rand, other_tokens) else {
            return MutationResult::Skipped;
        };
        let ghost local = (span.start as int, span.end as int);
        let ghost remote = (other_region.start as int, other_region.end as int);

        // The scratch space is filled outside of `self`, which holds an
        // empty one at every moment, and goes back once it is drained.
        let mut buf: Vec<T> = Vec::new();
        core::mem::swap(&mut self.buf, &mut buf);
        buf.extend_from_slice(slice_subrange(other_tokens, other_region.start, other_region.end));
        let ghost copies = buf@;
        assert(cloned_from(other@.subrange(remote.0, remote.1), copies));

        let start = span.start;
        input.remove_span(span);
        input.insert_span(start, &mut buf);
        proof {
            assert(input@ =~= with_span_replaced(old(input)@, local.0, local.1, copies));
            assert(span_spliced(old(input)@, input@, local, other@, remote, copies));
        }
        core::mem::swap(&mut self.buf, &mut buf);
        MutationResult::Mutated
    }
}

} // verus!
