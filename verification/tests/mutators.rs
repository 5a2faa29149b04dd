use libafl_bolts::rands::Rand;
use token_mutators::input::TokenInput;
use token_mutators::mutators::{
    MutationResult, Mutator, TokenDeleteManyMutator, TokenDeleteMutator, TokenDeleteRegionMutator,
    TokenInsertMutator, TokenOverrideMutator, TokenRandMutator, TokenRandSimilarMutator,
    TokenReplaceRegionRandMutator, TokenReplaceRegionSimilarMutator, TokenSimilarOverrideMutator,
    TokenSpliceRegionMutator, INSERT_TOKEN_MAX,
};
use token_mutators::random::StdRand;
use token_mutators::token::Token;

/// A token is its text. `(` opens what `)` closes, `[` what `]` closes, and
/// `;` closes itself. An opener carries its closer along, so that it can hand
/// out a reference to it; two tokens are equal when their texts are. Fresh
/// random tokens are lower-case letters; the similar token of a token is its
/// text with a `~` in front.
#[derive(Clone, Debug)]
struct Tok {
    text: Vec<u8>,
    closer: Option<Box<Tok>>,
}

impl PartialEq for Tok {
    fn eq(&self, other: &Self) -> bool {
        self.text == other.text
    }
}

impl std::hash::Hash for Tok {
    fn hash<H: std::hash::Hasher>(&self, state: &mut H) {
        self.text.hash(state);
    }
}

impl Token for Tok {
    fn new_rand(rand: &mut StdRand) -> Self {
        Tok { text: vec![b'a' + rand.below(26) as u8], closer: None }
    }

    fn replace_rand_similar(&mut self, _rand: &mut StdRand) {
        self.text.insert(0, b'~');
    }

    fn as_bytes(&self) -> &[u8] {
        &self.text
    }

    fn closing_bracket(&self) -> Option<&Self> {
        if self.text == b";" {
            Some(self)
        } else {
            self.closer.as_deref()
        }
    }
}

fn plain(text: &str) -> Tok {
    Tok { text: text.as_bytes().to_vec(), closer: None }
}

fn tok(text: &str) -> Tok {
    let closing = match text {
        "(" => Some(plain(")")),
        "[" => Some(plain("]")),
        _ => None,
    };
    Tok { text: text.as_bytes().to_vec(), closer: closing.map(Box::new) }
}

fn toks(texts: &[&str]) -> Vec<Tok> {
    texts.iter().map(|t| tok(t)).collect()
}

fn input(texts: &[&str]) -> TokenInput<Tok> {
    TokenInput::new(toks(texts))
}

fn is_fresh(token: &Tok) -> bool {
    token.text.len() == 1 && token.text[0].is_ascii_lowercase() && token.closer.is_none()
}

fn similar_of(token: &Tok) -> Tok {
    let mut similar = token.clone();
    similar.text.insert(0, b'~');
    similar
}

/// The indices at which two sequences of one length differ.
fn differing(before: &[Tok], after: &[Tok]) -> Vec<usize> {
    assert_eq!(before.len(), after.len());
    (0..before.len()).filter(|i| before[*i] != after[*i]).collect()
}

const UPPER: [&str; 6] = ["A", "B", "C", "D", "E", "F"];

#[test]
fn the_mutators_bear_their_names() {
    assert_eq!(TokenRandMutator::new().name(), "TokenRandMutator");
    assert_eq!(TokenDeleteMutator::new().name(), "TokenDeleteMutator");
    assert_eq!(TokenRandSimilarMutator::new().name(), "TokenRandSimilarMutator");
    assert_eq!(
        TokenReplaceRegionSimilarMutator::new().name(),
        "TokenReplaceRegionSimilarMutator"
    );
    assert_eq!(TokenReplaceRegionRandMutator::new().name(), "TokenReplaceRegionRandMutator");
    assert_eq!(TokenOverrideMutator::new().name(), "TokenOverrideMutator");
    assert_eq!(TokenSimilarOverrideMutator::new().name(), "TokenSimilarOverrideMutator");
    assert_eq!(TokenDeleteManyMutator::new().name(), "TokenDeleteManyMutator");
    assert_eq!(TokenDeleteRegionMutator::new().name(), "TokenDeleteRegionMutator");
    assert_eq!(TokenInsertMutator::<Tok>::new().name(), "TokenInsertMutator");
    assert_eq!(TokenSpliceRegionMutator::<Tok>::new().name(), "TokenSpliceRegionMutator");
}

#[test]
fn an_empty_input_is_skipped_by_the_single_token_mutators() {
    let mut rand = StdRand::with_seed(5);
    let mut empty = input(&[]);
    assert_eq!(TokenRandMutator::new().mutate(&mut rand, &mut empty), MutationResult::Skipped);
    assert_eq!(TokenDeleteMutator::new().mutate(&mut rand, &mut empty), MutationResult::Skipped);
    assert_eq!(
        TokenRandSimilarMutator::new().mutate(&mut rand, &mut empty),
        MutationResult::Skipped
    );
    assert!(empty.is_empty());
}

#[test]
fn an_empty_input_is_skipped_by_the_region_mutators() {
    let mut rand = StdRand::with_seed(5);
    let mut empty = input(&[]);
    assert_eq!(
        TokenReplaceRegionSimilarMutator::new().mutate(&mut rand, &mut empty),
        MutationResult::Skipped
    );
    assert_eq!(
        TokenReplaceRegionRandMutator::new().mutate(&mut rand, &mut empty),
        MutationResult::Skipped
    );
    assert_eq!(
        TokenDeleteRegionMutator::new().mutate(&mut rand, &mut empty),
        MutationResult::Skipped
    );
    let other = input(&["(", "a", ")"]);
    assert_eq!(
        TokenSpliceRegionMutator::new().mutate(&mut rand, &mut empty, &other),
        MutationResult::Skipped
    );
    assert!(empty.is_empty());
}

#[test]
fn an_empty_input_is_skipped_by_the_override_mutators() {
    let mut rand = StdRand::with_seed(5);
    let mut empty = input(&[]);
    assert_eq!(TokenOverrideMutator::new().mutate(&mut rand, &mut empty), MutationResult::Skipped);
    assert_eq!(
        TokenSimilarOverrideMutator::new().mutate(&mut rand, &mut empty),
        MutationResult::Skipped
    );
    assert!(empty.is_empty());
}

#[test]
fn random_replace_changes_one_token_at_most() {
    let before = toks(&UPPER);
    let mut touched = [false; 6];
    for seed in 0..200 {
        let mut rand = StdRand::with_seed(seed);
        let mut held = TokenInput::new(before.clone());
        assert_eq!(TokenRandMutator::new().mutate(&mut rand, &mut held), MutationResult::Mutated);
        let changed = differing(&before, held.tokens());
        assert_eq!(changed.len(), 1);
        assert!(is_fresh(&held.tokens()[changed[0]]));
        touched[changed[0]] = true;
    }
    assert_eq!(touched, [true; 6]);
}

#[test]
fn random_replace_of_a_single_token() {
    let mut rand = StdRand::with_seed(9);
    let mut held = input(&["A"]);
    assert_eq!(TokenRandMutator::new().mutate(&mut rand, &mut held), MutationResult::Mutated);
    assert_eq!(held.len(), 1);
    assert!(is_fresh(&held.tokens()[0]));
}

#[test]
fn similar_replace_changes_one_token_into_its_similar() {
    let before = toks(&UPPER);
    for seed in 0..200 {
        let mut rand = StdRand::with_seed(seed);
        let mut held = TokenInput::new(before.clone());
        assert_eq!(
            TokenRandSimilarMutator::new().mutate(&mut rand, &mut held),
            MutationResult::Mutated
        );
        let changed = differing(&before, held.tokens());
        assert_eq!(changed.len(), 1);
        assert_eq!(held.tokens()[changed[0]], similar_of(&before[changed[0]]));
    }
}

#[test]
fn delete_one_removes_one_token_and_keeps_the_order() {
    let before = toks(&UPPER);
    let mut removed_at = [false; 6];
    for seed in 0..200 {
        let mut rand = StdRand::with_seed(seed);
        let mut held = TokenInput::new(before.clone());
        assert_eq!(TokenDeleteMutator::new().mutate(&mut rand, &mut held), MutationResult::Mutated);
        assert_eq!(held.len(), before.len() - 1);
        let index = (0..before.len())
            .find(|i| {
                let mut expected = before.clone();
                expected.remove(*i);
                expected.as_slice() == held.tokens()
            })
            .unwrap();
        removed_at[index] = true;
    }
    assert_eq!(removed_at, [true; 6]);
}

#[test]
fn delete_one_of_a_single_token_leaves_nothing() {
    let mut rand = StdRand::with_seed(9);
    let mut held = input(&["A"]);
    assert_eq!(TokenDeleteMutator::new().mutate(&mut rand, &mut held), MutationResult::Mutated);
    assert!(held.is_empty());
}

#[test]
fn region_random_replace_leaves_the_outside_untouched() {
    // A ( B C ) D: the region is "(", B, C. A, ")" and D stay.
    let before = toks(&["A", "(", "B", "C", ")", "D"]);
    for seed in 0..100 {
        let mut rand = StdRand::with_seed(seed);
        let mut held = TokenInput::new(before.clone());
        assert_eq!(
            TokenReplaceRegionRandMutator::new().mutate(&mut rand, &mut held),
            MutationResult::Mutated
        );
        assert_eq!(held.len(), 6);
        assert_eq!(held.tokens()[0], tok("A"));
        assert_eq!(held.tokens()[4], tok(")"));
        assert_eq!(held.tokens()[5], tok("D"));
        assert!(held.tokens()[1..4].iter().all(is_fresh));
    }
}

#[test]
fn region_similar_replace_rewrites_the_region_only() {
    let before = toks(&["A", "(", "B", "C", ")", "D"]);
    for seed in 0..100 {
        let mut rand = StdRand::with_seed(seed);
        let mut held = TokenInput::new(before.clone());
        assert_eq!(
            TokenReplaceRegionSimilarMutator::new().mutate(&mut rand, &mut held),
            MutationResult::Mutated
        );
        let expected = vec![
            tok("A"),
            similar_of(&tok("(")),
            similar_of(&tok("B")),
            similar_of(&tok("C")),
            tok(")"),
            tok("D"),
        ];
        assert_eq!(held.tokens(), expected.as_slice());
    }
}

#[test]
fn region_mutators_skip_where_there_is_no_region() {
    for texts in [vec!["A", "B"], vec!["A", "(", "B"], vec![")", "("]] {
        for seed in 0..20 {
            let mut rand = StdRand::with_seed(seed);
            let mut held = input(&texts);
            assert_eq!(
                TokenReplaceRegionRandMutator::new().mutate(&mut rand, &mut held),
                MutationResult::Skipped
            );
            assert_eq!(
                TokenReplaceRegionSimilarMutator::new().mutate(&mut rand, &mut held),
                MutationResult::Skipped
            );
            assert_eq!(
                TokenDeleteRegionMutator::new().mutate(&mut rand, &mut held),
                MutationResult::Skipped
            );
            assert_eq!(held.tokens(), toks(&texts).as_slice());
        }
    }
}

#[test]
fn region_mutators_leave_an_empty_region_as_it_is() {
    // ";" closes itself: its region is empty.
    let before = toks(&["A", ";", "B"]);
    let mut rand = StdRand::with_seed(4);
    let mut held = TokenInput::new(before.clone());
    assert_eq!(
        TokenReplaceRegionRandMutator::new().mutate(&mut rand, &mut held),
        MutationResult::Mutated
    );
    assert_eq!(
        TokenReplaceRegionSimilarMutator::new().mutate(&mut rand, &mut held),
        MutationResult::Mutated
    );
    assert_eq!(
        TokenDeleteRegionMutator::new().mutate(&mut rand, &mut held),
        MutationResult::Mutated
    );
    assert_eq!(held.tokens(), before.as_slice());
}

#[test]
fn override_rewrites_a_run_that_stops_before_the_last_token() {
    let before = toks(&UPPER);
    let mut longest = 0;
    for seed in 0..300 {
        let mut rand = StdRand::with_seed(seed);
        let mut held = TokenInput::new(before.clone());
        assert_eq!(
            TokenOverrideMutator::new().mutate(&mut rand, &mut held),
            MutationResult::Mutated
        );
        let changed = differing(&before, held.tokens());
        if let (Some(first), Some(last)) = (changed.first(), changed.last()) {
            assert_eq!(changed.len(), last - first + 1);
            assert!(*last < before.len() - 1);
            assert!(changed.iter().all(|i| is_fresh(&held.tokens()[*i])));
        }
        longest = longest.max(changed.len());
    }
    assert_eq!(longest, before.len() - 1);
}

#[test]
fn similar_override_rewrites_a_run_into_similar_tokens() {
    let before = toks(&UPPER);
    let mut longest = 0;
    for seed in 0..300 {
        let mut rand = StdRand::with_seed(seed);
        let mut held = TokenInput::new(before.clone());
        assert_eq!(
            TokenSimilarOverrideMutator::new().mutate(&mut rand, &mut held),
            MutationResult::Mutated
        );
        let changed = differing(&before, held.tokens());
        if let (Some(first), Some(last)) = (changed.first(), changed.last()) {
            assert_eq!(changed.len(), last - first + 1);
            assert!(*last < before.len() - 1);
            assert!(changed.iter().all(|i| held.tokens()[*i] == similar_of(&before[*i])));
        }
        longest = longest.max(changed.len());
    }
    assert_eq!(longest, before.len() - 1);
}

#[test]
fn override_of_a_single_token_rewrites_nothing() {
    let mut rand = StdRand::with_seed(9);
    let mut held = input(&["A"]);
    assert_eq!(TokenOverrideMutator::new().mutate(&mut rand, &mut held), MutationResult::Mutated);
    assert_eq!(
        TokenSimilarOverrideMutator::new().mutate(&mut rand, &mut held),
        MutationResult::Mutated
    );
    assert_eq!(held.tokens(), toks(&["A"]).as_slice());
}

#[test]
fn delete_span_removes_a_run_and_closes_the_gap() {
    let before = toks(&UPPER);
    let mut shortest = before.len();
    let mut away_from_front = false;
    for seed in 0..300 {
        let mut rand = StdRand::with_seed(seed);
        let mut held = TokenInput::new(before.clone());
        assert_eq!(
            TokenDeleteManyMutator::new().mutate(&mut rand, &mut held),
            MutationResult::Mutated
        );
        let gone = before.len() - held.len();
        let start = (0..=held.len())
            .find(|start| {
                let mut expected = before[..*start].to_vec();
                expected.extend_from_slice(&before[start + gone..]);
                expected.as_slice() == held.tokens()
            })
            .unwrap();
        away_from_front |= start > 0 && gone > 0;
        shortest = shortest.min(held.len());
    }
    assert!(away_from_front);
    assert_eq!(shortest, 1);
}

#[test]
fn delete_span_skips_an_empty_input() {
    let mut rand = StdRand::with_seed(9);
    let mut empty = input(&[]);
    assert_eq!(
        TokenDeleteManyMutator::new().mutate(&mut rand, &mut empty),
        MutationResult::Skipped
    );
    assert!(empty.is_empty());
}

#[test]
fn delete_span_of_a_single_token_removes_nothing() {
    for seed in 0..20 {
        let mut rand = StdRand::with_seed(seed);
        let mut held = input(&["A"]);
        assert_eq!(
            TokenDeleteManyMutator::new().mutate(&mut rand, &mut held),
            MutationResult::Mutated
        );
        assert_eq!(held.tokens(), toks(&["A"]).as_slice());
    }
}

#[test]
fn delete_span_keeps_the_last_token() {
    let before = toks(&UPPER);
    for seed in 0..300 {
        let mut rand = StdRand::with_seed(seed);
        let mut held = TokenInput::new(before.clone());
        assert_eq!(
            TokenDeleteManyMutator::new().mutate(&mut rand, &mut held),
            MutationResult::Mutated
        );
        assert_eq!(held.tokens().last(), before.last());
    }
}

#[test]
fn delete_region_removes_opener_and_contents_and_keeps_the_closer() {
    let before = toks(&["A", "(", "B", "C", ")", "D"]);
    for seed in 0..50 {
        let mut rand = StdRand::with_seed(seed);
        let mut held = TokenInput::new(before.clone());
        assert_eq!(
            TokenDeleteRegionMutator::new().mutate(&mut rand, &mut held),
            MutationResult::Mutated
        );
        assert_eq!(held.tokens(), toks(&["A", ")", "D"]).as_slice());
    }
}

#[test]
fn delete_region_at_the_front() {
    let mut rand = StdRand::with_seed(1);
    let mut held = input(&["(", "B", ")", "D", "E"]);
    assert_eq!(
        TokenDeleteRegionMutator::new().mutate(&mut rand, &mut held),
        MutationResult::Mutated
    );
    assert_eq!(held.tokens(), toks(&[")", "D", "E"]).as_slice());
}

#[test]
fn insert_adds_fewer_than_the_maximum_and_keeps_the_order() {
    let before = toks(&UPPER);
    let mut mutator = TokenInsertMutator::new();
    let mut most = 0;
    for seed in 0..400 {
        let mut rand = StdRand::with_seed(seed);
        let mut held = TokenInput::new(before.clone());
        assert_eq!(mutator.mutate(&mut rand, &mut held), MutationResult::Mutated);
        let added = held.len() - before.len();
        assert!((added as u64) < INSERT_TOKEN_MAX);
        let at = (0..before.len())
            .find(|at| {
                held.tokens()[..*at] == before[..*at]
                    && held.tokens()[at + added..] == before[*at..]
                    && held.tokens()[*at..at + added].iter().all(is_fresh)
            })
            .unwrap();
        assert!(at < before.len());
        most = most.max(added);
    }
    assert_eq!(most as u64, INSERT_TOKEN_MAX - 1);
}

#[test]
fn insert_skips_an_empty_input() {
    let mut mutator = TokenInsertMutator::new();
    for seed in 0..20 {
        let mut rand = StdRand::with_seed(seed);
        let mut held: TokenInput<Tok> = input(&[]);
        assert_eq!(mutator.mutate(&mut rand, &mut held), MutationResult::Skipped);
        assert!(held.is_empty());
    }
}

#[test]
fn insert_into_a_single_token_puts_the_fresh_tokens_in_front() {
    let mut mutator = TokenInsertMutator::new();
    for seed in 0..50 {
        let mut rand = StdRand::with_seed(seed);
        let mut held = input(&["A"]);
        assert_eq!(mutator.mutate(&mut rand, &mut held), MutationResult::Mutated);
        let (last, fresh) = held.tokens().split_last().unwrap();
        assert_eq!(*last, tok("A"));
        assert!((fresh.len() as u64) < INSERT_TOKEN_MAX);
        assert!(fresh.iter().all(is_fresh));
    }
}

#[test]
fn splice_puts_the_other_region_in_the_place_of_the_local_one() {
    let before = toks(&["A", "(", "B", "C", ")", "D"]);
    let other = input(&["x", "[", "y", "]", "z"]);
    let mut mutator = TokenSpliceRegionMutator::new();
    for seed in 0..50 {
        let mut rand = StdRand::with_seed(seed);
        let mut held = TokenInput::new(before.clone());
        assert_eq!(mutator.mutate(&mut rand, &mut held, &other), MutationResult::Mutated);
        assert_eq!(held.tokens(), toks(&["A", "[", "y", ")", "D"]).as_slice());
        assert_eq!(other.tokens(), toks(&["x", "[", "y", "]", "z"]).as_slice());
    }
}

#[test]
fn splice_with_regions_of_different_lengths() {
    let mut rand = StdRand::with_seed(2);
    let mut mutator = TokenSpliceRegionMutator::new();

    let mut grown = input(&["A", ";", "B"]);
    let long = input(&["(", "p", "q", "r", ")"]);
    assert_eq!(mutator.mutate(&mut rand, &mut grown, &long), MutationResult::Mutated);
    assert_eq!(grown.tokens(), toks(&["A", "(", "p", "q", "r", ";", "B"]).as_slice());

    let mut shrunk = input(&["A", "(", "p", "q", "r", ")", "B"]);
    let short = input(&[";"]);
    assert_eq!(mutator.mutate(&mut rand, &mut shrunk, &short), MutationResult::Mutated);
    assert_eq!(shrunk.tokens(), toks(&["A", ")", "B"]).as_slice());
}

#[test]
fn splice_skips_where_either_side_has_no_region() {
    let mut mutator = TokenSpliceRegionMutator::new();
    for seed in 0..20 {
        let mut rand = StdRand::with_seed(seed);

        let mut bare = input(&["A", "B"]);
        let other = input(&["(", "x", ")"]);
        assert_eq!(mutator.mutate(&mut rand, &mut bare, &other), MutationResult::Skipped);
        assert_eq!(bare.tokens(), toks(&["A", "B"]).as_slice());

        let mut held = input(&["(", "x", ")"]);
        for other in [input(&[]), input(&["A", "B"]), input(&["A", "("])] {
            assert_eq!(mutator.mutate(&mut rand, &mut held, &other), MutationResult::Skipped);
            assert_eq!(held.tokens(), toks(&["(", "x", ")"]).as_slice());
        }
    }
}

#[test]
fn splice_into_a_given_span() {
    let mut rand = StdRand::with_seed(2);
    let mut mutator = TokenSpliceRegionMutator::new();
    let other = input(&["(", "x", ")"]);

    let mut held = input(&["A", "B", "C", "D"]);
    assert_eq!(mutator.splice(&mut rand, &mut held, 1..3, &other), MutationResult::Mutated);
    assert_eq!(held.tokens(), toks(&["A", "(", "x", "D"]).as_slice());

    let mut at_end = input(&["A", "B"]);
    assert_eq!(mutator.splice(&mut rand, &mut at_end, 2..2, &other), MutationResult::Mutated);
    assert_eq!(at_end.tokens(), toks(&["A", "B", "(", "x"]).as_slice());
}

#[test]
fn splice_skips_a_span_that_does_not_lie_within_the_input() {
    let mut rand = StdRand::with_seed(2);
    let mut mutator = TokenSpliceRegionMutator::new();
    let other = input(&["(", "x", ")"]);
    let mut held = input(&["A", "B"]);
    assert_eq!(mutator.splice(&mut rand, &mut held, 1..3, &other), MutationResult::Skipped);
    #[allow(clippy::reversed_empty_ranges)]
    let reversed = 2..1;
    assert_eq!(mutator.splice(&mut rand, &mut held, reversed, &other), MutationResult::Skipped);
    assert_eq!(held.tokens(), toks(&["A", "B"]).as_slice());
}

#[test]
fn a_mutator_can_be_used_again_after_a_skip_and_after_a_mutation() {
    let mut rand = StdRand::with_seed(8);
    let mut splicer = TokenSpliceRegionMutator::new();
    let mut inserter = TokenInsertMutator::new();
    let other = input(&["[", "y", "]"]);
    let mut held = input(&["(", "x", ")"]);
    for _ in 0..10 {
        assert_eq!(splicer.mutate(&mut rand, &mut held, &input(&[])), MutationResult::Skipped);
        assert_eq!(splicer.mutate(&mut rand, &mut held, &other), MutationResult::Mutated);
        assert_eq!(held.tokens(), toks(&["[", "y", ")"]).as_slice());
        held = input(&["(", "x", ")"]);
        let mut grown = input(&["A"]);
        assert_eq!(inserter.mutate(&mut rand, &mut grown), MutationResult::Mutated);
        assert_eq!(grown.tokens().last(), Some(&tok("A")));
    }
}
