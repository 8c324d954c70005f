//! Resolution of a single document node into a [`Rule`].
//!
//! A node is resolved in one of two mutually exclusive shapes, selected by
//! whether it owns child nodes.  In the explicit shape the node's block must
//! contain a child named after the target keyword (`target`), whose first
//! entry supplies the URL; options are never parsed in this shape.  In the
//! shorthand shape the node's first positional entry supplies the URL and a
//! keyword-named `description` entry, if any, fills the options.

use vstd::prelude::*;
use crate::errors::{FailureV, ResolutionFailure};
use crate::rules::{default_options, RedirectionMode, Rule, RuleOptions, RuleOptionsV, RuleV};
use crate::tree::{Entry, Node, Span, Value};
use crate::unescape::{unescape, unescape_spec};

verus! {

/// The designated name of the child node that holds the URL in the explicit
/// shape.  One fixed keyword for the whole format.
pub open spec fn target_keyword() -> Seq<char> {
    "target"@
}

/// Whether `e` is keyword-named `key`.
pub open spec fn entry_named(e: Entry, key: Seq<char>) -> bool {
    e.name matches Some(n) && n@ == key
}

/// The first entry of `entries` that is keyword-named `key`, if any.
pub open spec fn first_named(entries: Seq<Entry>, key: Seq<char>) -> Option<Entry>
    decreases entries.len(),
{
    if entries.len() == 0 {
        None
    } else if entry_named(entries[0], key) {
        Some(entries[0])
    } else {
        first_named(entries.skip(1), key)
    }
}

/// The first positional (unnamed) entry of `entries`, if any.
pub open spec fn first_positional(entries: Seq<Entry>) -> Option<Entry>
    decreases entries.len(),
{
    if entries.len() == 0 {
        None
    } else if entries[0].name is None {
        Some(entries[0])
    } else {
        first_positional(entries.skip(1))
    }
}

/// The first node of `children` whose name is `key`, if any.
pub open spec fn first_child_named(children: Seq<Node>, key: Seq<char>) -> Option<Node>
    decreases children.len(),
{
    if children.len() == 0 {
        None
    } else if children[0].name@ == key {
        Some(children[0])
    } else {
        first_child_named(children.skip(1), key)
    }
}

/// What extracting a string from value `v` yields, with failures attributed
/// to `at`, the span of the enclosing node: the decoded text if `v` is a
/// string whose escapes decode, and the exact failure otherwise.
pub open spec fn extract_string_spec(v: Value, at: Span) -> Result<Seq<char>, FailureV> {
    match v {
        Value::Str(s) => match unescape_spec(s@) {
            Some(decoded) => Ok(decoded),
            None => Err(FailureV::InvalidEscape { at }),
        },
        _ => Err(FailureV::ExpectedString { at }),
    }
}

/// What option parsing yields for a shorthand node: default options, except
/// that a keyword-named `description` entry, when present, supplies the
/// decoded description (or fails like any string extraction).
pub open spec fn resolve_opts_spec(node: Node) -> Result<RuleOptionsV, FailureV> {
    match first_named(node.entries@, "description"@) {
        Some(e) => match extract_string_spec(e.value, node.span) {
            Ok(d) => Ok(
                RuleOptionsV {
                    description: Some(d),
                    tags: Seq::empty(),
                    redirect: RedirectionMode::Temporary,
                },
            ),
            Err(f) => Err(f),
        },
        None => Ok(default_options()),
    }
}

/// What resolving an explicit-shape node yields: the first child named after
/// the target keyword must exist and have at least one entry, whose value
/// supplies the URL; options are always the default in this shape.
pub open spec fn resolve_explicit_spec(node: Node, children: Seq<Node>) -> Result<RuleV, FailureV> {
    match first_child_named(children, target_keyword()) {
        None => Err(
            FailureV::MissingTarget { broken_at: node.span, insert_at: node.span.start },
        ),
        Some(t) => if t.entries@.len() == 0 {
            Err(FailureV::MissingTarget { broken_at: t.span, insert_at: t.span.start })
        } else {
            match extract_string_spec(t.entries@[0].value, node.span) {
                Ok(url) => Ok(RuleV { name: node.name@, url, opts: default_options() }),
                Err(f) => Err(f),
            }
        },
    }
}

/// What resolving a shorthand node yields: the first positional entry must
/// exist and supplies the URL; a `description` entry fills the options.  The
/// URL is extracted before the options, so its failure takes precedence.
pub open spec fn resolve_shorthand_spec(node: Node) -> Result<RuleV, FailureV> {
    if node.entries@.len() == 0 {
        Err(FailureV::MissingTarget { broken_at: node.span, insert_at: node.span.start })
    } else {
        match first_positional(node.entries@) {
            None => Err(
                FailureV::MissingTarget { broken_at: node.span, insert_at: node.span.start },
            ),
            Some(e) => match extract_string_spec(e.value, node.span) {
                Ok(url) => match resolve_opts_spec(node) {
                    Ok(opts) => Ok(RuleV { name: node.name@, url, opts }),
                    Err(f) => Err(f),
                },
                Err(f) => Err(f),
            },
        }
    }
}

/// What resolving one top-level node yields: the explicit shape when the
/// node owns children, the shorthand shape otherwise.
pub open spec fn resolve_rule_spec(node: Node) -> Result<RuleV, FailureV> {
    match node.children {
        Some(children) => resolve_explicit_spec(node, children@),
        None => resolve_shorthand_spec(node),
    }
}

/// A forward scan that has not yet hit a `key`-named entry agrees with
/// [`first_named`] on the rest of the sequence.
pub(crate) proof fn lemma_first_named_skip(entries: Seq<Entry>, key: Seq<char>, i: int)
    requires
        0 <= i <= entries.len(),
        forall|j: int| 0 <= j < i ==> !entry_named(#[trigger] entries[j], key),
    ensures
        first_named(entries, key) == first_named(entries.skip(i), key),
    decreases i,
{
    if i == 0 {
        assert(entries.skip(0) =~= entries);
    } else {
        lemma_first_named_skip(entries, key, i - 1);
        assert(!entry_named(entries[i - 1], key));
        assert(entries.skip(i - 1)[0] == entries[i - 1]);
        assert(entries.skip(i - 1).skip(1) =~= entries.skip(i));
    }
}

/// A forward scan that has not yet hit a positional entry agrees with
/// [`first_positional`] on the rest of the sequence.
pub(crate) proof fn lemma_first_positional_skip(entries: Seq<Entry>, i: int)
    requires
        0 <= i <= entries.len(),
        forall|j: int| 0 <= j < i ==> (#[trigger] entries[j]).name is Some,
    ensures
        first_positional(entries) == first_positional(entries.skip(i)),
    decreases i,
{
    if i == 0 {
        assert(entries.skip(0) =~= entries);
    } else {
        lemma_first_positional_skip(entries, i - 1);
        assert(entries[i - 1].name is Some);
        assert(entries.skip(i - 1)[0] == entries[i - 1]);
        assert(entries.skip(i - 1).skip(1) =~= entries.skip(i));
    }
}

/// A forward scan that has not yet hit a `key`-named child agrees with
/// [`first_child_named`] on the rest of the sequence.
pub(crate) proof fn lemma_first_child_named_skip(children: Seq<Node>, key: Seq<char>, i: int)
    requires
        0 <= i <= children.len(),
        forall|j: int| 0 <= j < i ==> (#[trigger] children[j]).name@ != key,
    ensures
        first_child_named(children, key) == first_child_named(children.skip(i), key),
    decreases i,
{
    if i == 0 {
        assert(children.skip(0) =~= children);
    } else {
        lemma_first_child_named_skip(children, key, i - 1);
        assert(children[i - 1].name@ != key);
        assert(children.skip(i - 1)[0] == children[i - 1]);
        assert(children.skip(i - 1).skip(1) =~= children.skip(i));
    }
}

/// Extracts the decoded string out of `value`, attributing any failure to
/// the span of `parent`, the node the value conceptually belongs to.
pub fn parse_string(value: &Value, parent: &Node) -> (r: Result<String, ResolutionFailure>)
    ensures
        r is Ok <==> extract_string_spec(*value, parent.span) is Ok,
        r is Ok ==> r->Ok_0@ == extract_string_spec(*value, parent.span)->Ok_0,
        r is Err ==> r->Err_0@ == extract_string_spec(*value, parent.span)->Err_0,
{
    match value {
        Value::Str(s) => match unescape(s.as_str()) {
            Ok(decoded) => Ok(decoded),
            Err(cause) => Err(ResolutionFailure::InvalidEscape { at: parent.span, cause }),
        },
        _ => Err(ResolutionFailure::ExpectedString { at: parent.span }),
    }
}

/// Parses the recognized option entries of a shorthand node: the first
/// keyword-named `description` entry, if any, supplies the description.
pub fn try_parse_opts(node: &Node) -> (r: Result<RuleOptions, ResolutionFailure>)
    ensures
        r is Ok <==> resolve_opts_spec(*node) is Ok,
        r is Ok ==> r->Ok_0@ == resolve_opts_spec(*node)->Ok_0,
        r is Err ==> r->Err_0@ == resolve_opts_spec(*node)->Err_0,
{
    let mut opts = RuleOptions::default();
    let key: String = "description".to_owned();
    let n: usize = node.entries.len();
    for i in 0..n
        invariant
            n == node.entries@.len(),
            key@ == "description"@,
            forall|j: int| 0 <= j < i ==> !entry_named(#[trigger] node.entries@[j], "description"@),
            opts@ == default_options(),
    {
        let e = &node.entries[i];
        match &e.name {
            Some(name) => {
                if *name == key {
                    proof {
                        lemma_first_named_skip(node.entries@, "description"@, i as int);
                        assert(first_named(node.entries@, "description"@) == Some(
                            node.entries@[i as int],
                        ));
                    }
                    match parse_string(&e.value, node) {
                        Ok(d) => {
                            opts.description = Some(d);
                            return Ok(opts);
                        },
                        Err(f) => {
                            return Err(f);
                        },
                    }
                }
            },
            None => {},
        }
    }
    proof {
        lemma_first_named_skip(node.entries@, "description"@, n as int);
    }
    Ok(opts)
}

/// Finds the index of the first child whose name is the target keyword.
fn find_target_child(children: &Vec<Node>) -> (r: Option<usize>)
    ensures
        r matches Some(i) ==> i < children@.len() && first_child_named(
            children@,
            target_keyword(),
        ) == Some(children@[i as int]),
        r is None ==> first_child_named(children@, target_keyword()) is None,
{
    let key: String = "target".to_owned();
    let n: usize = children.len();
    for i in 0..n
        invariant
            n == children@.len(),
            key@ == target_keyword(),
            forall|j: int| 0 <= j < i ==> (#[trigger] children@[j]).name@ != target_keyword(),
    {
        if children[i].name == key {
            proof {
                lemma_first_child_named_skip(children@, target_keyword(), i as int);
            }
            return Some(i);
        }
    }
    proof {
        lemma_first_child_named_skip(children@, target_keyword(), n as int);
    }
    None
}

/// Finds the index of the first positional (unnamed) entry.
fn find_positional_entry(entries: &Vec<Entry>) -> (r: Option<usize>)
    ensures
        r matches Some(i) ==> i < entries@.len() && first_positional(entries@) == Some(
            entries@[i as int],
        ),
        r is None ==> first_positional(entries@) is None,
{
    let n: usize = entries.len();
    for i in 0..n
        invariant
            n == entries@.len(),
            forall|j: int| 0 <= j < i ==> (#[trigger] entries@[j]).name is Some,
    {
        if entries[i].name.is_none() {
            proof {
                lemma_first_positional_skip(entries@, i as int);
            }
            return Some(i);
        }
    }
    proof {
        lemma_first_positional_skip(entries@, n as int);
    }
    None
}

/// Resolves one top-level node into a [`Rule`], classifying its shape by
/// whether it owns child nodes.
pub fn try_parse_rule(node: &Node) -> (r: Result<Rule, ResolutionFailure>)
    ensures
        r is Ok <==> resolve_rule_spec(*node) is Ok,
        r is Ok ==> r->Ok_0@ == resolve_rule_spec(*node)->Ok_0,
        r is Err ==> r->Err_0@ == resolve_rule_spec(*node)->Err_0,
{
    match &node.children {
        Some(children) => {
            match find_target_child(children) {
                None => Err(
                    ResolutionFailure::MissingTarget {
                        broken_at: node.span,
                        insert_at: node.span.start,
                    },
                ),
                Some(i) => {
                    let t = &children[i];
                    if t.entries.len() == 0 {
                        Err(
                            ResolutionFailure::MissingTarget {
                                broken_at: t.span,
                                insert_at: t.span.start,
                            },
                        )
                    } else {
                        match parse_string(&t.entries[0].value, node) {
                            Ok(url) => Ok(
                                Rule { name: node.name.clone(), url, opts: RuleOptions::default() },
                            ),
                            Err(f) => Err(f),
                        }
                    }
                },
            }
        },
        None => {
            if node.entries.len() == 0 {
                return Err(
                    ResolutionFailure::MissingTarget {
                        broken_at: node.span,
                        insert_at: node.span.start,
                    },
                );
            }
            match find_positional_entry(&node.entries) {
                None => Err(
                    ResolutionFailure::MissingTarget {
                        broken_at: node.span,
                        insert_at: node.span.start,
                    },
                ),
                Some(i) => {
                    match parse_string(&node.entries[i].value, node) {
                        Ok(url) => match try_parse_opts(node) {
                            Ok(opts) => Ok(Rule { name: node.name.clone(), url, opts }),
                            Err(f) => Err(f),
                        },
                        Err(f) => Err(f),
                    }
                },
            }
        },
    }
}

} // verus!
