//! Structure-aware mutation of token sequences.
//!
//! A test input is an ordered sequence of tokens rather than a flat byte
//! buffer. The mutators in this crate rewrite such sequences along token
//! boundaries and along regions delimited by paired tokens.
//!
//! - [`token`]: what an embedder supplies, a token type and a lexer.
//! - [`input`]: the token sequence and the rewrites of it, each with an exact
//!   contract.
//! - [`region`]: finding the span between an opening token and its closer.
//! - [`mutators`]: the operators, which draw what to rewrite and where.
//! - [`laws`]: what the rewrites keep, index by index.
//! - [`random`], [`naming`], [`raw`]: the few calls into `libafl_bolts` and
//!   `ahash`, which are believed and not proved.

pub mod input;
pub mod laws;
pub mod mutators;
pub mod naming;
pub mod random;
pub mod raw;
pub mod region;
pub mod token;

pub use crate::input::TokenInput;
pub use crate::mutators::{
    MutationResult, Mutator, TokenDeleteManyMutator, TokenDeleteMutator, TokenDeleteRegionMutator,
    TokenInsertMutator, TokenOverrideMutator, TokenRandMutator, TokenRandSimilarMutator,
    TokenReplaceRegionRandMutator, TokenReplaceRegionSimilarMutator, TokenSimilarOverrideMutator,
    TokenSpliceRegionMutator,
};
pub use crate::random::StdRand;
pub use crate::token::{Lexer, Token};
