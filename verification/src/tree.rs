//! The generic document tree that resolution consumes.
//!
//! An outside parser turns raw text into this tree; resolution only reads it.
//! Every node and entry carries a [`Span`], a byte range into the original
//! source text, so failures can point at the exact offending place.

use vstd::prelude::*;

verus! {

/// A byte range into the original source text: `start` is the offset of the
/// first byte, `len` the number of bytes covered.
#[derive(Debug, Clone, Copy, PartialEq, Eq, Structural)]
pub struct Span {
    pub start: usize,
    pub len: usize,
}

/// A scalar value attached to an entry.  Only string values can supply a URL
/// or an option; the other kinds exist so that a resolver can report a
/// precise type error instead of probing.
#[derive(Debug, Clone, PartialEq, Eq)]
pub enum Value {
    /// A raw (still escaped) string value.
    Str(String),
    /// A numeric value; resolution never reads the number itself.
    Number,
    /// A boolean value.
    Bool(bool),
    /// The null value.
    Null,
}

/// A single value attached to a node: keyword-named (a property) when `name`
/// is `Some`, positional (an argument) otherwise.
#[derive(Debug, Clone, PartialEq, Eq)]
pub struct Entry {
    pub name: Option<String>,
    pub value: Value,
    pub span: Span,
}

/// A named element of the document tree, carrying its entries in document
/// order and, when written with a block, its child nodes.
#[derive(Debug, PartialEq, Eq)]
pub struct Node {
    pub name: String,
    pub entries: Vec<Entry>,
    pub children: Option<Vec<Node>>,
    pub span: Span,
}

/// A document: the ordered sequence of top-level nodes.
#[derive(Debug, PartialEq, Eq)]
pub struct Document {
    pub nodes: Vec<Node>,
}

} // verus!
