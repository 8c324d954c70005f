//! Resolution of a parsed configuration tree into named redirection rules.
//!
//! The crate consumes an already-tokenized document tree (nodes with named or
//! positional entries, optional children, and byte spans into the original
//! source) and resolves it into a manifest: a mapping from rule name to a
//! [`rules::Rule`].  Malformed input is reported as a structured diagnostic
//! that carries the offending span, so a renderer can underline the exact
//! place in the source text.

pub mod errors;
pub mod laws;
pub mod manifest;
pub mod resolve;
pub mod rules;
pub mod tree;
pub mod unescape;
