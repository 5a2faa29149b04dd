//! What the rewrites of a token sequence keep, stated index by index.
//!
//! The contracts of the container and of the mutators speak of a sequence
//! `without_span` or `with_span_replaced`. The laws below say what that means
//! for the length of the sequence and for each token in it.

use vstd::prelude::*;
use crate::input::{lowers_to, same_outside, with_span_replaced, without_span};
use crate::region::{first_match_at, is_region, no_opener};
use crate::token::{compares, Lexer, Token};

verus! {

/// Putting a token in the place of another changes that one place and
/// nothing else: the length stays, and so does every other token.
pub proof fn lemma_update_rewrites_one<T>(tokens: Seq<T>, index: int, token: T)
    requires
        0 <= index < tokens.len(),
    ensures
        same_outside(tokens, tokens.update(index, token), index, index + 1),
        tokens.update(index, token).len() == tokens.len(),
        tokens.update(index, token)[index] == token,
{
}

/// Removing one token makes the sequence one shorter. The tokens before it
/// stay where they were, and each token after it moves one place to the
/// left: the order of the remaining tokens is kept.
pub proof fn lemma_remove_keeps_order<T>(tokens: Seq<T>, index: int)
    requires
        0 <= index < tokens.len(),
    ensures
        tokens.remove(index).len() == tokens.len() - 1,
        forall|i: int| 0 <= i < index ==> tokens.remove(index)[i] == tokens[i],
        forall|i: int| index <= i < tokens.len() - 1 ==> tokens.remove(index)[i] == tokens[i + 1],
        tokens.remove(index) == without_span(tokens, index, index + 1),
{
    assert(tokens.remove(index) =~= without_span(tokens, index, index + 1));
}

/// Deleting the span `[start, end)` makes the sequence shorter by
/// `end - start`. The tokens before the span stay where they were, and each
/// token from `end` on moves `end - start` places to the left: the result is
/// what stood before `start` followed by what stood from `end` on.
pub proof fn lemma_span_deletion<T>(tokens: Seq<T>, start: int, end: int)
    requires
        0 <= start <= end <= tokens.len(),
    ensures
        without_span(tokens, start, end).len() == tokens.len() - (end - start),
        forall|i: int| 0 <= i < start ==> without_span(tokens, start, end)[i] == tokens[i],
        forall|i: int|
            start <= i < tokens.len() - (end - start) ==> without_span(tokens, start, end)[i]
                == tokens[i + (end - start)],
{
}

/// Deleting an empty span changes nothing.
pub proof fn lemma_empty_span_deletion<T>(tokens: Seq<T>, at: int)
    requires
        0 <= at <= tokens.len(),
    ensures
        without_span(tokens, at, at) == tokens,
{
    assert(without_span(tokens, at, at) =~= tokens);
}

/// Replacing the span `[start, end)` by `inserted` keeps the tokens before
/// the span where they were, puts `inserted` at `start`, and lets the tokens
/// from `end` on follow in their order. With `start == end` this is an
/// insertion: no token is lost.
pub proof fn lemma_span_replacement<T>(tokens: Seq<T>, start: int, end: int, inserted: Seq<T>)
    requires
        0 <= start <= end <= tokens.len(),
    ensures
        with_span_replaced(tokens, start, end, inserted).len() == tokens.len() - (end - start)
            + inserted.len(),
        forall|i: int|
            0 <= i < start ==> with_span_replaced(tokens, start, end, inserted)[i] == tokens[i],
        forall|i: int|
            0 <= i < inserted.len() ==> with_span_replaced(tokens, start, end, inserted)[start + i]
                == inserted[i],
        forall|i: int|
            end <= i < tokens.len() ==> with_span_replaced(tokens, start, end, inserted)[i - (end
                - start) + inserted.len()] == tokens[i],
{
}

/// Replacing a span by nothing is deleting it.
pub proof fn lemma_replacement_by_nothing<T>(tokens: Seq<T>, start: int, end: int)
    requires
        0 <= start <= end <= tokens.len(),
    ensures
        with_span_replaced(tokens, start, end, Seq::empty()) == without_span(tokens, start, end),
{
    assert(with_span_replaced(tokens, start, end, Seq::empty()) =~= without_span(
        tokens,
        start,
        end,
    ));
}

/// A region lies within its sequence: it starts at a token of the sequence
/// and ends at or after its start, before the end of the sequence, where the
/// closing token stands.
pub proof fn lemma_region_bounds<T: Token>(tokens: Seq<T>, start: int, end: int)
    requires
        is_region(tokens, start, end),
    ensures
        0 <= start <= end < tokens.len(),
{
}

/// An empty sequence has no region, and no token that could open one.
pub proof fn lemma_empty_sequence_has_no_region<T: Token>(tokens: Seq<T>)
    requires
        tokens.len() == 0,
    ensures
        no_opener(tokens),
        forall|start: int, end: int| !is_region(tokens, start, end),
{
}

/// The first match from a position is at most one: two positions that both
/// are the first match for the same target are the same position, provided
/// `==` never answers both ways for the same pair of tokens.
pub proof fn lemma_first_match_is_unique<T: Token>(
    tokens: Seq<T>,
    target: T,
    from: int,
    pos1: int,
    pos2: int,
)
    requires
        first_match_at(tokens, target, from, pos1),
        first_match_at(tokens, target, from, pos2),
        forall|left: T, right: T|
            !(compares(left, right, true) && compares(left, right, false)),
    ensures
        pos1 == pos2,
{
    if pos1 < pos2 {
        assert(compares(tokens[pos1], target, false));
    } else if pos2 < pos1 {
        assert(compares(tokens[pos2], target, false));
    }
}

/// The lexer `L` reads `tokens` back: whatever bytes `tokens` may lower to,
/// `L` lexes them into `tokens` again.
pub open spec fn reads_back<L: Lexer>(tokens: Seq<L::Token>) -> bool {
    forall|encodings: Seq<Seq<u8>>, raw: &[u8], lexed: Vec<L::Token>|
        #![trigger lowers_to(tokens, encodings), call_ensures(L::lex, (raw,), lexed)]
        lowers_to(tokens, encodings) && raw@ == encodings.flatten() && call_ensures(
            L::lex,
            (raw,),
            lexed,
        ) ==> lexed@ == tokens
}

/// Lexing, lowering and lexing again is stable where the lexer reads back
/// what it produced: if `first` came of lexing some raw bytes and `L` reads
/// `first` back, then lexing the bytes that `first` lowers to gives `first`
/// again. A lexer that skips bytes need not read back every sequence; for
/// such a lexer the law holds from the second round on at the earliest.
pub proof fn lemma_lex_lower_lex_is_stable<L: Lexer>(
    first: Seq<L::Token>,
    encodings: Seq<Seq<u8>>,
    lowered: &[u8],
    second: Vec<L::Token>,
)
    requires
        reads_back::<L>(first),
        lowers_to(first, encodings),
        lowered@ == encodings.flatten(),
        call_ensures(L::lex, (lowered,), second),
    ensures
        second@ == first,
{
}

} // verus!
