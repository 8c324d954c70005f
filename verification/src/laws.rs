//! The format-level guarantees of resolution, stated and proved once.
//!
//! Each proof function here states a fact about whole classes of documents:
//! which documents are guaranteed to resolve, what the resulting mapping
//! holds, which failure a malformed node produces, and that resolution is a
//! function of the document alone.

use vstd::prelude::*;
use crate::errors::FailureV;
use crate::manifest::resolve_doc_spec;
use crate::resolve::{
    entry_named, first_child_named, first_positional, lemma_first_child_named_skip,
    lemma_first_named_skip, resolve_rule_spec, target_keyword,
};
use crate::rules::{default_options, RuleV};
use crate::tree::{Node, Value};
use crate::unescape::unescape_spec;

verus! {

/// A shorthand node holding exactly one entry, positional and string-typed,
/// whose escapes decode.
pub open spec fn shorthand_single_string(n: Node) -> bool {
    &&& n.children is None
    &&& n.entries@.len() == 1
    &&& n.entries@[0].name is None
    &&& n.entries@[0].value is Str
    &&& unescape_spec(n.entries@[0].value->Str_0@) is Some
}

/// An explicit-shape node whose designated target child (the first child
/// named after the target keyword) exists and carries a string entry whose
/// escapes decode.
pub open spec fn explicit_good_target(n: Node) -> bool {
    &&& n.children is Some
    &&& first_child_named(n.children->Some_0@, target_keyword()) matches Some(t)
        && t.entries@.len() >= 1 && t.entries@[0].value is Str && unescape_spec(
        t.entries@[0].value->Str_0@,
    ) is Some
}

/// Whether no later node of `nodes` carries the same name as `nodes[i]`, so
/// that node `i` is the one that survives last-write-wins.
pub open spec fn last_with_name(nodes: Seq<Node>, i: int) -> bool {
    &&& 0 <= i < nodes.len()
    &&& forall|j: int| i < j < nodes.len() ==> (#[trigger] nodes[j]).name@ != nodes[i].name@
}

/// A resolved rule is always keyed by its node's own name, in either shape.
pub proof fn lemma_rule_keeps_name(node: Node)
    ensures
        resolve_rule_spec(node) is Ok ==> resolve_rule_spec(node)->Ok_0.name == node.name@,
{
}

/// A shorthand node of one decodable positional string entry resolves to a
/// rule named after the node, whose URL is the decoded entry value, with
/// default options.
pub proof fn lemma_shorthand_single_resolves(node: Node)
    requires
        shorthand_single_string(node),
    ensures
        resolve_rule_spec(node) is Ok,
        resolve_rule_spec(node)->Ok_0.name == node.name@,
        resolve_rule_spec(node)->Ok_0.url == unescape_spec(
            node.entries@[0].value->Str_0@,
        )->Some_0,
        resolve_rule_spec(node)->Ok_0.opts == default_options(),
{
    assert(!entry_named(node.entries@[0], "description"@));
    lemma_first_named_skip(node.entries@, "description"@, 1);
    assert(node.entries@.skip(1).len() == 0);
}

/// An explicit-shape node whose target child holds a decodable string entry
/// resolves to a rule named after the node, whose URL is the decoded entry
/// value; options are always the default in this shape.
pub proof fn lemma_explicit_single_resolves(node: Node)
    requires
        explicit_good_target(node),
    ensures
        resolve_rule_spec(node) is Ok,
        resolve_rule_spec(node)->Ok_0.name == node.name@,
        resolve_rule_spec(node)->Ok_0.url == unescape_spec(
            first_child_named(
                node.children->Some_0@,
                target_keyword(),
            )->Some_0.entries@[0].value->Str_0@,
        )->Some_0,
        resolve_rule_spec(node)->Ok_0.opts == default_options(),
{
}

/// Any rule resolved from a node that owns children carries the default
/// options: the explicit shape never parses options.  Together with
/// [`lemma_shorthand_single_resolves`] this pins the shape asymmetry down.
pub proof fn lemma_explicit_ignores_options(node: Node)
    requires
        node.children is Some,
        resolve_rule_spec(node) is Ok,
    ensures
        resolve_rule_spec(node)->Ok_0.opts == default_options(),
{
}

/// A shorthand node with no entries at all fails with a missing target,
/// anchored at the node's full span and suggesting an insertion at the
/// node's start.
pub proof fn lemma_shorthand_empty_missing_target(node: Node)
    requires
        node.children is None,
        node.entries@.len() == 0,
    ensures
        resolve_rule_spec(node) == Err::<RuleV, FailureV>(
            FailureV::MissingTarget { broken_at: node.span, insert_at: node.span.start },
        ),
{
}

/// An explicit-shape node none of whose children carries the target keyword
/// fails with a missing target anchored at the outer node's span.
pub proof fn lemma_explicit_no_target_missing_target(node: Node)
    requires
        node.children is Some,
        forall|i: int|
            0 <= i < node.children->Some_0@.len() ==> (#[trigger] node.children->Some_0@[i]).name@
                != target_keyword(),
    ensures
        resolve_rule_spec(node) == Err::<RuleV, FailureV>(
            FailureV::MissingTarget { broken_at: node.span, insert_at: node.span.start },
        ),
{
    let children = node.children->Some_0@;
    lemma_first_child_named_skip(children, target_keyword(), children.len() as int);
    assert(children.skip(children.len() as int).len() == 0);
}

/// A shorthand node whose URL-supplying entry holds a string that escape
/// decoding rejects fails with an invalid escape anchored at the span of the
/// node actually holding that value.
pub proof fn lemma_invalid_escape_at_owner(node: Node)
    requires
        node.children is None,
        first_positional(node.entries@) matches Some(e) && e.value matches Value::Str(s)
            && unescape_spec(s@) is None,
    ensures
        resolve_rule_spec(node) == Err::<RuleV, FailureV>(
            FailureV::InvalidEscape { at: node.span },
        ),
{
}

/// Resolution is a function of the document alone: two successful
/// resolutions of the same node sequence denote the same mapping, so
/// resolving a document twice yields structurally equal results.
pub proof fn lemma_resolution_idempotent(
    nodes: Seq<Node>,
    m1: Map<Seq<char>, RuleV>,
    m2: Map<Seq<char>, RuleV>,
)
    requires
        resolve_doc_spec(nodes) == Ok::<Map<Seq<char>, RuleV>, FailureV>(m1),
        resolve_doc_spec(nodes) == Ok::<Map<Seq<char>, RuleV>, FailureV>(m2),
    ensures
        m1 == m2,
{
}

/// A document every node of which resolves, resolves as a whole: the mapping
/// holds exactly the node names, and each name maps to the rule of the last
/// node carrying it (last write wins).
pub proof fn lemma_doc_resolves(nodes: Seq<Node>)
    requires
        forall|i: int| 0 <= i < nodes.len() ==> resolve_rule_spec(#[trigger] nodes[i]) is Ok,
    ensures
        resolve_doc_spec(nodes) is Ok,
        forall|k: Seq<char>|
            #[trigger] resolve_doc_spec(nodes)->Ok_0.contains_key(k) <==> exists|i: int|
                0 <= i < nodes.len() && (#[trigger] nodes[i]).name@ == k,
        forall|i: int|
            #[trigger] last_with_name(nodes, i) ==> resolve_doc_spec(
                nodes,
            )->Ok_0[nodes[i].name@] == resolve_rule_spec(nodes[i])->Ok_0,
    decreases nodes.len(),
{
    if nodes.len() > 0 {
        let prefix = nodes.drop_last();
        assert(forall|i: int| 0 <= i < prefix.len() ==> #[trigger] prefix[i] == nodes[i]);
        lemma_doc_resolves(prefix);
        let m0 = resolve_doc_spec(prefix)->Ok_0;
        let last = nodes.last();
        let n = nodes.len() - 1;
        assert(resolve_rule_spec(nodes[n]) is Ok);
        lemma_rule_keeps_name(last);
        let r = resolve_rule_spec(last)->Ok_0;
        let m = resolve_doc_spec(nodes)->Ok_0;
        assert(m == m0.insert(last.name@, r));
        assert forall|k: Seq<char>| #[trigger] m.contains_key(k) implies exists|i: int|
            0 <= i < nodes.len() && (#[trigger] nodes[i]).name@ == k by {
            if k == last.name@ {
                assert(nodes[n].name@ == k);
            } else {
                let i = choose|i: int|
                    0 <= i < prefix.len() && (#[trigger] prefix[i]).name@ == k;
                assert(nodes[i].name@ == k);
            }
        }
        assert forall|k: Seq<char>|
            (exists|i: int|
                0 <= i < nodes.len() && (#[trigger] nodes[i]).name@
                    == k) implies #[trigger] m.contains_key(k) by {
            let i = choose|i: int| 0 <= i < nodes.len() && (#[trigger] nodes[i]).name@ == k;
            if i < n {
                assert(prefix[i].name@ == k);
                assert(m0.contains_key(k));
            }
        }
        assert forall|i: int| #[trigger] last_with_name(nodes, i) implies m[nodes[i].name@]
            == resolve_rule_spec(nodes[i])->Ok_0 by {
            if i == n {
                assert(m[last.name@] == r);
            } else {
                assert(nodes[n].name@ != nodes[i].name@);
                assert(last_with_name(prefix, i));
                assert(m[nodes[i].name@] == m0[nodes[i].name@]);
            }
        }
    }
}

/// Every document of shorthand nodes each holding a single decodable string
/// entry resolves, and each surviving name maps to the decoded entry value
/// of its node.
pub proof fn lemma_shorthand_doc_resolves(nodes: Seq<Node>)
    requires
        forall|i: int| 0 <= i < nodes.len() ==> shorthand_single_string(#[trigger] nodes[i]),
    ensures
        resolve_doc_spec(nodes) is Ok,
        forall|i: int|
            0 <= i < nodes.len() ==> resolve_doc_spec(nodes)->Ok_0.contains_key(
                (#[trigger] nodes[i]).name@,
            ),
        forall|i: int|
            #[trigger] last_with_name(nodes, i) ==> resolve_doc_spec(
                nodes,
            )->Ok_0[nodes[i].name@].url == unescape_spec(
                nodes[i].entries@[0].value->Str_0@,
            )->Some_0,
{
    assert forall|i: int| 0 <= i < nodes.len() implies resolve_rule_spec(
        #[trigger] nodes[i],
    ) is Ok by {
        lemma_shorthand_single_resolves(nodes[i]);
    }
    lemma_doc_resolves(nodes);
    assert forall|i: int| 0 <= i < nodes.len() implies resolve_doc_spec(
        nodes,
    )->Ok_0.contains_key((#[trigger] nodes[i]).name@) by {
        assert(nodes[i].name@ == nodes[i].name@);
    }
    assert forall|i: int| #[trigger] last_with_name(nodes, i) implies resolve_doc_spec(
        nodes,
    )->Ok_0[nodes[i].name@].url == unescape_spec(nodes[i].entries@[0].value->Str_0@)->Some_0 by {
        lemma_shorthand_single_resolves(nodes[i]);
    }
}

/// Every document of explicit-shape nodes each owning a well-formed target
/// child resolves, and each surviving name maps to the decoded entry value
/// of its node's target child.
pub proof fn lemma_explicit_doc_resolves(nodes: Seq<Node>)
    requires
        forall|i: int| 0 <= i < nodes.len() ==> explicit_good_target(#[trigger] nodes[i]),
    ensures
        resolve_doc_spec(nodes) is Ok,
        forall|i: int|
            0 <= i < nodes.len() ==> resolve_doc_spec(nodes)->Ok_0.contains_key(
                (#[trigger] nodes[i]).name@,
            ),
        forall|i: int|
            #[trigger] last_with_name(nodes, i) ==> resolve_doc_spec(
                nodes,
            )->Ok_0[nodes[i].name@].url == unescape_spec(
                first_child_named(
                    nodes[i].children->Some_0@,
                    target_keyword(),
                )->Some_0.entries@[0].value->Str_0@,
            )->Some_0,
{
    assert forall|i: int| 0 <= i < nodes.len() implies resolve_rule_spec(
        #[trigger] nodes[i],
    ) is Ok by {
        lemma_explicit_single_resolves(nodes[i]);
    }
    lemma_doc_resolves(nodes);
    assert forall|i: int| 0 <= i < nodes.len() implies resolve_doc_spec(
        nodes,
    )->Ok_0.contains_key((#[trigger] nodes[i]).name@) by {
        assert(nodes[i].name@ == nodes[i].name@);
    }
    assert forall|i: int| #[trigger] last_with_name(nodes, i) implies resolve_doc_spec(
        nodes,
    )->Ok_0[nodes[i].name@].url == unescape_spec(
        first_child_named(
            nodes[i].children->Some_0@,
            target_keyword(),
        )->Some_0.entries@[0].value->Str_0@,
    )->Some_0 by {
        lemma_explicit_single_resolves(nodes[i]);
    }
}

} // verus!
