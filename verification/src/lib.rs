//! Non-destructive editing of org-mode outline documents.
//!
//! The library models a parsed outline as a tree of sections carrying
//! byte spans into the original text, classifies headlines against a
//! workflow-keyword configuration, and rewrites documents by splicing
//! verbatim byte ranges of the input around synthesized text. Everything
//! outside the tokenizer itself is verified: the tokenizer's tree is
//! re-checked span by span while the section tree is built.

pub mod builder;
pub mod config;
pub mod insert;
pub mod org;
pub mod parse;
pub mod prune;
pub mod sexp;
pub mod utils;
