//! Regions: spans of a token sequence delimited by a token and its closer.

use vstd::prelude::*;
use vstd::slice::slice_subrange;
use core::ops::Range;
use crate::random::{draw_choice, StdRand};
use crate::token::{closes_with, compares, opens_nothing, Token};

verus! {

/// `pos` is the first index at or after `from` whose token was found equal
/// to `target`: the tokens from `from` up to it were found unequal.
pub open spec fn first_match_at<T: Token>(tokens: Seq<T>, target: T, from: int, pos: int) -> bool {
    &&& 0 <= from <= pos < tokens.len()
    &&& compares(tokens[pos], target, true)
    &&& forall|k: int| from <= k < pos ==> compares(#[trigger] tokens[k], target, false)
}

/// Every token at or after `from` was found unequal to `target`.
pub open spec fn no_match_from<T: Token>(tokens: Seq<T>, target: T, from: int) -> bool {
    forall|k: int| 0 <= from <= k < tokens.len() ==> compares(#[trigger] tokens[k], target, false)
}

/// `[start, end)` is a region: the token at `start` names a closer, and
/// `end` is the first index at or after `start` whose token equals that
/// closer. The closing token itself is not part of the region. An opener
/// that equals its own closer opens the empty region `[start, start)`.
pub open spec fn is_region<T: Token>(tokens: Seq<T>, start: int, end: int) -> bool {
    &&& 0 <= start < tokens.len()
    &&& exists|closing: T| #[trigger]
        closes_with(tokens[start], closing) && first_match_at(tokens, closing, start, end)
}

/// The token at `start` names a closer that no token at or after it equals.
pub open spec fn unmatched_at<T: Token>(tokens: Seq<T>, start: int) -> bool {
    &&& 0 <= start < tokens.len()
    &&& exists|closing: T| #[trigger]
        closes_with(tokens[start], closing) && no_match_from(tokens, closing, start)
}

/// No token of the sequence names a closer.
pub open spec fn no_opener<T: Token>(tokens: Seq<T>) -> bool {
    forall|i: int| 0 <= i < tokens.len() ==> opens_nothing(#[trigger] tokens[i])
}

/// Some token of the sequence names a closer that nothing after it equals.
pub open spec fn has_unmatched_opener<T: Token>(tokens: Seq<T>) -> bool {
    exists|i: int| unmatched_at(tokens, i)
}

/// The position of the first token of `buf` that equals `cl_br`.
#[inline]
pub fn locate_cl_br<T: Token>(cl_br: &T, buf: &[T]) -> (found: Option<usize>)
    ensures
        found matches Some(pos) ==> first_match_at(buf@, *cl_br, 0, pos as int),
        found is None ==> no_match_from(buf@, *cl_br, 0),
{
    let mut pos: usize = 0;
    while pos < buf.len()
        invariant
            pos <= buf@.len(),
            forall|k: int| 0 <= k < pos ==> compares(#[trigger] buf@[k], *cl_br, false),
        decreases buf@.len() - pos,
    {
        if buf[pos] == *cl_br {
            return Some(pos);
        }
        pos += 1;
    }
    None
}

/// The tokens that name a closer, each as the closer it names and its own
/// index, in the order of the sequence.
pub fn opening_brackets<T: Token>(input: &[T]) -> (op_brs: Vec<(&T, usize)>)
    ensures
        forall|k: int|
            0 <= k < op_brs@.len() ==> (#[trigger] op_brs@[k]).1 < input@.len() && closes_with(
                input@[op_brs@[k].1 as int],
                *op_brs@[k].0,
            ),
        forall|j: int, k: int| 0 <= j < k < op_brs@.len() ==> op_brs@[j].1 < op_brs@[k].1,
        forall|i: int|
            0 <= i < input@.len() ==> opens_nothing(#[trigger] input@[i]) || exists|k: int|
                0 <= k < op_brs@.len() && (#[trigger] op_brs@[k]).1 == i,
{
    let mut op_brs: Vec<(&T, usize)> = Vec::new();
    let mut idx: usize = 0;
    while idx < input.len()
        invariant
            idx <= input@.len(),
            forall|k: int|
                0 <= k < op_brs@.len() ==> (#[trigger] op_brs@[k]).1 < idx && closes_with(
                    input@[op_brs@[k].1 as int],
                    *op_brs@[k].0,
                ),
            forall|j: int, k: int| 0 <= j < k < op_brs@.len() ==> op_brs@[j].1 < op_brs@[k].1,
            forall|i: int|
                0 <= i < idx ==> opens_nothing(#[trigger] input@[i]) || exists|k: int|
                    0 <= k < op_brs@.len() && (#[trigger] op_brs@[k]).1 == i,
        decreases input@.len() - idx,
    {
        match input[idx].closing_bracket() {
            None => {},
            Some(tok) => {
                let ghost before = op_brs@;
                op_brs.push((tok, idx));
                proof {
                    assert forall|i: int| 0 <= i < idx + 1 implies opens_nothing(
                        #[trigger] input@[i],
                    ) || exists|k: int| 0 <= k < op_brs@.len() && (#[trigger] op_brs@[k]).1 == i by {
                        if i == idx {
                            assert(op_brs@[before.len() as int].1 == i);
                        } else if !opens_nothing(input@[i]) {
                            let k = choose|k: int|
                                0 <= k < before.len() && (#[trigger] before[k]).1 == i;
                            assert(op_brs@[k].1 == i);
                        }
                    }
                }
            },
        }
        idx += 1;
    }
    op_brs
}

/// The span from `op_br_idx` up to the first token at or after it that
/// equals `cl_br`, if there is such a token. Past the end of the input there
/// is none.
pub fn close_region<T: Token>(input: &[T], cl_br: &T, op_br_idx: usize) -> (region: Option<
    Range<usize>,
>)
    ensures
        region matches Some(r) ==> r.start == op_br_idx && first_match_at(
            input@,
            *cl_br,
            op_br_idx as int,
            r.end as int,
        ),
        region is None ==> no_match_from(input@, *cl_br, op_br_idx as int),
{
    if op_br_idx > input.len() {
        return None;
    }
    let rest = slice_subrange(input, op_br_idx, input.len());
    match locate_cl_br(cl_br, rest) {
        None => {
            proof {
                assert forall|k: int| op_br_idx <= k < input@.len() implies compares(
                    #[trigger] input@[k],
                    *cl_br,
                    false,
                ) by {
                    assert(rest@[k - op_br_idx] == input@[k]);
                }
            }
            None
        },
        Some(offset) => {
            proof {
                assert(rest@[offset as int] == input@[op_br_idx + offset]);
                assert forall|k: int| op_br_idx <= k < op_br_idx + offset implies compares(
                    #[trigger] input@[k],
                    *cl_br,
                    false,
                ) by {
                    assert(rest@[k - op_br_idx] == input@[k]);
                }
            }
            Some(op_br_idx..op_br_idx + offset)
        },
    }
}

/// Picks one of the opening tokens at random and returns the region it
/// opens.
///
/// Every opener is as likely as any other. `None` comes back when no token
/// names a closer, or when the opener that was drawn is never closed
/// (an unmatched opener is no error). So a sequence that has an opener, and
/// whose openers are all closed, always yields a region.
pub fn rand_region<T: Token>(rand: &mut StdRand, input: &[T]) -> (region: Option<Range<usize>>)
    ensures
        region matches Some(r) ==> is_region(input@, r.start as int, r.end as int),
        region is None ==> no_opener(input@) || has_unmatched_opener(input@),
{
    let op_brs = opening_brackets(input);
    if op_brs.len() == 0 {
        return None;
    }
    let (cl_br, op_br_idx) = op_brs[draw_choice(rand, op_brs.len())];
    let region = close_region(input, cl_br, op_br_idx);
    proof {
        assert(closes_with(input@[op_br_idx as int], *cl_br));
        if region is None {
            assert(unmatched_at(input@, op_br_idx as int));
        }
    }
    region
}

} // verus!
