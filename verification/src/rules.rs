//! The resolved rule records and their mathematical views.

use vstd::prelude::*;

verus! {

/// Whether a redirect is meant to be permanent or temporary.  No document
/// syntax sets this yet; every resolved rule carries `Temporary`.
#[derive(Debug, Clone, Copy, PartialEq, Eq, Structural)]
pub enum RedirectionMode {
    Permanent,
    Temporary,
}

/// Ancillary, non-required settings of a rule.
#[derive(Debug, Clone, PartialEq, Eq)]
pub struct RuleOptions {
    /// Decoded value of a keyword-named `description` entry, if present.
    pub description: Option<String>,
    /// Reserved for future use; no syntax populates it yet.
    pub tags: Vec<String>,
    /// Reserved; always `Temporary` until syntax sets it.
    pub redirect: RedirectionMode,
}

/// A named redirection target: the result of resolving one document node.
#[derive(Debug, Clone, PartialEq, Eq)]
pub struct Rule {
    /// The node's identifier; the key in the resolved manifest.
    pub name: String,
    /// The fully decoded destination string.
    pub url: String,
    /// Optional metadata.
    pub opts: RuleOptions,
}

/// Mathematical view of [`RuleOptions`].
pub struct RuleOptionsV {
    pub description: Option<Seq<char>>,
    pub tags: Seq<Seq<char>>,
    pub redirect: RedirectionMode,
}

/// Mathematical view of [`Rule`].
pub struct RuleV {
    pub name: Seq<char>,
    pub url: Seq<char>,
    pub opts: RuleOptionsV,
}

/// The options every rule gets when no recognized option entry is present.
pub open spec fn default_options() -> RuleOptionsV {
    RuleOptionsV { description: None, tags: Seq::empty(), redirect: RedirectionMode::Temporary }
}

impl View for RuleOptions {
    type V = RuleOptionsV;

    open spec fn view(&self) -> RuleOptionsV {
        RuleOptionsV {
            description: match self.description {
                Some(d) => Some(d@),
                None => None,
            },
            tags: self.tags.deep_view(),
            redirect: self.redirect,
        }
    }
}

impl View for Rule {
    type V = RuleV;

    open spec fn view(&self) -> RuleV {
        RuleV { name: self.name@, url: self.url@, opts: self.opts@ }
    }
}

impl Default for RuleOptions {
    /// No description, no tags, a temporary redirect.
    fn default() -> (r: RuleOptions)
        ensures
            r@ == default_options(),
    {
        let r = RuleOptions { description: None, tags: Vec::new(), redirect: RedirectionMode::Temporary };
        proof {
            assert(r@.tags =~= default_options().tags);
        }
        r
    }
}

} // verus!
