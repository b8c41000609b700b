//! Semantic tokens for an HTTP-request scripting language.
//!
//! The library walks an already-parsed document tree and flattens it into a
//! document-ordered sequence of classified source ranges ("semantic tokens")
//! for an editor's syntax highlighting. The tree itself is plain data (see
//! [`ast`]); the walk and the per-node classification rules live in
//! [`scanner`]; the ordering and non-overlap guarantees of the produced
//! stream are stated and proved in [`order`].

pub mod ast;
pub mod order;
pub mod scanner;
pub mod token;
