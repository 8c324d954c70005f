//! Resolution failures and the diagnostic that wraps them.
//!
//! Every failure carries the spans a renderer needs to underline the
//! offending place in the source text; a [`Diagnostic`] adds the source text
//! itself, so nothing has to be re-parsed to display the error.

use vstd::prelude::*;
use crate::tree::Span;

verus! {

/// Why a document failed to resolve.
#[derive(Debug)]
pub enum ResolutionFailure {
    /// The required target is entirely absent: a shorthand node without a
    /// positional entry, or an explicit-shape node without a correctly named
    /// child (or whose target child has no entries).  `insert_at` is a
    /// zero-width offset where corrective text could be inserted.
    MissingTarget { broken_at: Span, insert_at: usize },
    /// A value that should have been a string is a different scalar kind.
    ExpectedString { at: Span },
    /// Escape decoding rejected the raw string.
    InvalidEscape { at: Span, cause: snailquote::UnescapeError },
    /// The backing manifest resource could not be loaded; surfaced here only
    /// as a terminal variant for callers that do the loading.
    ManifestUnreadable,
}

/// Mathematical view of [`ResolutionFailure`]: the variant and its spans.
/// The decoding failure's cause is outside data and is not modelled.
pub enum FailureV {
    MissingTarget { broken_at: Span, insert_at: usize },
    ExpectedString { at: Span },
    InvalidEscape { at: Span },
    ManifestUnreadable,
}

impl View for ResolutionFailure {
    type V = FailureV;

    open spec fn view(&self) -> FailureV {
        match *self {
            ResolutionFailure::MissingTarget { broken_at, insert_at } => FailureV::MissingTarget {
                broken_at,
                insert_at,
            },
            ResolutionFailure::ExpectedString { at } => FailureV::ExpectedString { at },
            ResolutionFailure::InvalidEscape { at, cause: _ } => FailureV::InvalidEscape { at },
            ResolutionFailure::ManifestUnreadable => FailureV::ManifestUnreadable,
        }
    }
}

/// A source document handed to resolution: its full text, plus a label under
/// which failures will be reported.
#[derive(Debug, Clone, PartialEq, Eq)]
pub struct SourceText {
    /// A label for the source (a file name, or a caller-chosen tag).
    pub name: String,
    /// The full original source text.
    pub text: String,
}

/// A renderable resolution failure: the failure together with the name and
/// full text of the source it came from, enough to print an underlined
/// snippet without re-parsing.
#[derive(Debug)]
pub struct Diagnostic {
    /// A label for the source (a file name, or a caller-chosen tag).
    pub source_name: String,
    /// The full original source text.
    pub source_text: String,
    /// The failure itself, with its spans.
    pub failure: ResolutionFailure,
}

} // verus!
