//! Verified core of a Solidity static-analysis front end.
//!
//! The crate resolves a source position to the most specific syntax-tree
//! node containing it, and runs diagnostic rules over parsed files while
//! honouring inline enable/disable suppression directives.

pub mod ast;
pub mod diag;
pub mod finder;
pub mod linter;
pub mod pos;
pub mod rules;
pub mod suppress;
pub mod text;
