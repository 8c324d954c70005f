//! The resolved manifest and the resolver that assembles it.
//!
//! A [`Manifest`] maps each rule name to exactly one [`Rule`].  Resolution
//! walks the top-level nodes in document order, aborts on the first failure
//! (no partial manifest), and lets a later node overwrite an earlier one with
//! the same name.

use vstd::prelude::*;
use crate::errors::{Diagnostic, FailureV, ResolutionFailure, SourceText};
use crate::resolve::{resolve_rule_spec, try_parse_rule};
use crate::rules::{Rule, RuleV};
use crate::tree::{Document, Node};

verus! {

/// The mapping that a sequence of rules denotes: each rule keyed by its
/// name, a later rule overwriting an earlier one with the same name.
pub open spec fn map_of(rules: Seq<Rule>) -> Map<Seq<char>, RuleV>
    decreases rules.len(),
{
    if rules.len() == 0 {
        Map::empty()
    } else {
        map_of(rules.drop_last()).insert(rules.last().name@, rules.last()@)
    }
}

/// Whether the rule names are pairwise distinct.
pub open spec fn names_unique(rules: Seq<Rule>) -> bool {
    forall|i: int, j: int|
        0 <= i < j < rules.len() ==> (#[trigger] rules[i]).name@ != (#[trigger] rules[j]).name@
}

/// The domain of [`map_of`] is finite and holds exactly the rule names.
proof fn lemma_map_of_dom(rules: Seq<Rule>)
    ensures
        map_of(rules).dom().finite(),
        forall|k: Seq<char>|
            #[trigger] map_of(rules).contains_key(k) <==> exists|i: int|
                0 <= i < rules.len() && (#[trigger] rules[i]).name@ == k,
    decreases rules.len(),
{
    if rules.len() > 0 {
        lemma_map_of_dom(rules.drop_last());
        assert forall|k: Seq<char>| #[trigger] map_of(rules).contains_key(k) implies exists|i: int|
            0 <= i < rules.len() && (#[trigger] rules[i]).name@ == k by {
            if k == rules.last().name@ {
                assert(rules[rules.len() - 1].name@ == k);
            } else {
                let i = choose|i: int|
                    0 <= i < rules.drop_last().len() && (#[trigger] rules.drop_last()[i]).name@
                        == k;
                assert(rules[i].name@ == k);
            }
        }
        assert forall|k: Seq<char>|
            (exists|i: int|
                0 <= i < rules.len() && (#[trigger] rules[i]).name@ == k) implies #[trigger] map_of(
            rules,
        ).contains_key(k) by {
            let i = choose|i: int| 0 <= i < rules.len() && (#[trigger] rules[i]).name@ == k;
            if i < rules.len() - 1 {
                assert(rules.drop_last()[i].name@ == k);
            }
        }
    }
}

/// With pairwise distinct names the mapping has exactly one key per rule.
proof fn lemma_map_of_len(rules: Seq<Rule>)
    requires
        names_unique(rules),
    ensures
        map_of(rules).dom().len() == rules.len(),
    decreases rules.len(),
{
    broadcast use vstd::set::axiom_set_insert_len;

    if rules.len() > 0 {
        let prefix = rules.drop_last();
        assert(names_unique(prefix));
        lemma_map_of_len(prefix);
        lemma_map_of_dom(prefix);
        if map_of(prefix).contains_key(rules.last().name@) {
            let i = choose|i: int|
                0 <= i < prefix.len() && (#[trigger] prefix[i]).name@ == rules.last().name@;
            assert(rules[i].name@ == rules[rules.len() - 1].name@);
            assert(false);
        }
    }
}

/// With pairwise distinct names, every rule is found under its own name.
proof fn lemma_map_of_get(rules: Seq<Rule>, i: int)
    requires
        names_unique(rules),
        0 <= i < rules.len(),
    ensures
        map_of(rules).contains_key(rules[i].name@),
        map_of(rules)[rules[i].name@] == rules[i]@,
    decreases rules.len(),
{
    if i < rules.len() - 1 {
        let prefix = rules.drop_last();
        assert(names_unique(prefix));
        assert(prefix[i] == rules[i]);
        lemma_map_of_get(prefix, i);
        assert(rules[i].name@ != rules[rules.len() - 1].name@);
    }
}

/// Replacing the one rule that carries a name denotes the same mapping as
/// inserting the replacement under that name.
proof fn lemma_map_of_update(rules: Seq<Rule>, j: int, r: Rule)
    requires
        names_unique(rules),
        0 <= j < rules.len(),
        rules[j].name@ == r.name@,
    ensures
        map_of(rules.update(j, r)) == map_of(rules).insert(r.name@, r@),
    decreases rules.len(),
{
    let u = rules.update(j, r);
    if j == rules.len() - 1 {
        assert(u.drop_last() =~= rules.drop_last());
        assert(u.last() == r);
        assert(map_of(rules.drop_last()).insert(rules.last().name@, rules.last()@).insert(
            r.name@,
            r@,
        ) =~= map_of(rules.drop_last()).insert(r.name@, r@));
    } else {
        let prefix = rules.drop_last();
        assert(names_unique(prefix));
        assert(prefix[j] == rules[j]);
        lemma_map_of_update(prefix, j, r);
        assert(u.drop_last() =~= prefix.update(j, r));
        assert(u.last() == rules.last());
        assert(rules[j].name@ != rules[rules.len() - 1].name@);
        assert(map_of(prefix).insert(r.name@, r@).insert(rules.last().name@, rules.last()@)
            =~= map_of(prefix).insert(rules.last().name@, rules.last()@).insert(r.name@, r@));
    }
}

/// The resolved manifest: exactly one [`Rule`] per distinct name.  Viewed as
/// the mapping from rule name to rule.
#[derive(Debug, PartialEq, Eq)]
pub struct Manifest {
    rules: Vec<Rule>,
}

impl View for Manifest {
    type V = Map<Seq<char>, RuleV>;

    closed spec fn view(&self) -> Map<Seq<char>, RuleV> {
        map_of(self.rules@)
    }
}

impl Manifest {
    /// The stored rules carry pairwise distinct names, so the vector and the
    /// mapping it denotes agree entry for entry.
    pub closed spec fn wf(self) -> bool {
        names_unique(self.rules@)
    }

    /// An empty manifest.
    pub fn new() -> (m: Manifest)
        ensures
            m.wf(),
            m@ == Map::<Seq<char>, RuleV>::empty(),
    {
        Manifest { rules: Vec::new() }
    }

    /// Inserts `rule` under its name, replacing any rule already there.
    pub fn insert(&mut self, rule: Rule)
        requires
            old(self).wf(),
        ensures
            final(self).wf(),
            final(self)@ == old(self)@.insert(rule.name@, rule@),
    {
        let ghost orig = self.rules@;
        let n: usize = self.rules.len();
        for j in 0..n
            invariant
                n == orig.len(),
                orig == old(self).rules@,
                self.rules@ == orig,
                names_unique(orig),
                forall|k: int| 0 <= k < j ==> (#[trigger] orig[k]).name@ != rule.name@,
        {
            if self.rules[j].name == rule.name {
                proof {
                    lemma_map_of_update(orig, j as int, rule);
                }
                self.rules[j] = rule;
                proof {
                    assert(self.rules@ =~= orig.update(j as int, rule));
                    assert forall|a: int, b: int| 0 <= a < b < self.rules@.len() implies (
                    #[trigger] self.rules@[a]).name@ != (#[trigger] self.rules@[b]).name@ by {
                        assert(orig[a].name@ != orig[b].name@);
                        assert(orig[j as int].name@ == rule.name@);
                    }
                }
                return ;
            }
        }
        self.rules.push(rule);
        proof {
            assert(self.rules@.drop_last() =~= orig);
            assert(self.rules@.last() == rule);
            assert forall|a: int, b: int| 0 <= a < b < self.rules@.len() implies (
            #[trigger] self.rules@[a]).name@ != (#[trigger] self.rules@[b]).name@ by {
                if b < self.rules@.len() - 1 {
                    assert(orig[a].name@ != orig[b].name@);
                } else {
                    assert(orig[a].name@ != rule.name@);
                }
            }
        }
    }

    /// Looks a rule up by name.
    pub fn get(&self, name: &str) -> (r: Option<&Rule>)
        requires
            self.wf(),
        ensures
            r matches Some(rule) ==> self@.contains_key(name@) && rule@ == self@[name@],
            r is None ==> !self@.contains_key(name@),
    {
        let key: String = name.to_owned();
        let n: usize = self.rules.len();
        for j in 0..n
            invariant
                self.wf(),
                key@ == name@,
                n == self.rules@.len(),
                forall|k: int| 0 <= k < j ==> (#[trigger] self.rules@[k]).name@ != name@,
        {
            if self.rules[j].name == key {
                proof {
                    lemma_map_of_get(self.rules@, j as int);
                }
                return Some(&self.rules[j]);
            }
        }
        proof {
            lemma_map_of_dom(self.rules@);
        }
        None
    }

    /// How many rules the manifest holds.
    pub fn len(&self) -> (n: usize)
        requires
            self.wf(),
        ensures
            n == self@.dom().len(),
    {
        proof {
            lemma_map_of_len(self.rules@);
        }
        self.rules.len()
    }

    /// The rules as stored: one per distinct name, each found in the mapping
    /// under its own name.
    pub fn rules(&self) -> (v: &Vec<Rule>)
        requires
            self.wf(),
        ensures
            names_unique(v@),
            map_of(v@) == self@,
    {
        &self.rules
    }

    /// Whether the manifest holds no rule at all.
    pub fn is_empty(&self) -> (b: bool)
        requires
            self.wf(),
        ensures
            b <==> self@ == Map::<Seq<char>, RuleV>::empty(),
    {
        let n: usize = self.rules.len();
        proof {
            if n > 0 {
                lemma_map_of_get(self.rules@, n - 1);
            } else {
                assert(self@ =~= Map::<Seq<char>, RuleV>::empty());
            }
        }
        n == 0
    }
}

/// What resolving a whole document yields: the mapping denoted by resolving
/// each node in order with a later name overwriting an earlier one, or the
/// failure of the first node that does not resolve.
pub open spec fn resolve_doc_spec(nodes: Seq<Node>) -> Result<Map<Seq<char>, RuleV>, FailureV>
    decreases nodes.len(),
{
    if nodes.len() == 0 {
        Ok(Map::empty())
    } else {
        match resolve_doc_spec(nodes.drop_last()) {
            Ok(m) => match resolve_rule_spec(nodes.last()) {
                Ok(r) => Ok(m.insert(r.name, r)),
                Err(f) => Err(f),
            },
            Err(f) => Err(f),
        }
    }
}

/// Once a node fails, the whole document resolves to that node's failure,
/// whatever follows it: resolution is fail-fast.
proof fn lemma_resolve_doc_err(nodes: Seq<Node>, i: int)
    requires
        0 <= i < nodes.len(),
        resolve_doc_spec(nodes.take(i)) is Ok,
        resolve_rule_spec(nodes[i]) is Err,
    ensures
        resolve_doc_spec(nodes) is Err,
        resolve_doc_spec(nodes)->Err_0 == resolve_rule_spec(nodes[i])->Err_0,
    decreases nodes.len(),
{
    if i == nodes.len() - 1 {
        assert(nodes.take(i) =~= nodes.drop_last());
    } else {
        assert(nodes.drop_last().take(i) =~= nodes.take(i));
        assert(nodes.drop_last()[i] == nodes[i]);
        lemma_resolve_doc_err(nodes.drop_last(), i);
    }
}

/// Resolves every top-level node of `doc` in document order, aborting on the
/// first failure; duplicate names are resolved by last write wins.
pub fn try_parse(doc: &Document) -> (r: Result<Manifest, ResolutionFailure>)
    ensures
        r matches Ok(m) ==> resolve_doc_spec(doc.nodes@) is Ok && m.wf() && m@ == resolve_doc_spec(
            doc.nodes@,
        )->Ok_0,
        r matches Err(f) ==> resolve_doc_spec(doc.nodes@) is Err && f@ == resolve_doc_spec(
            doc.nodes@,
        )->Err_0,
{
    let mut targets = Manifest::new();
    let n: usize = doc.nodes.len();
    for idx in 0..n
        invariant
            n == doc.nodes@.len(),
            targets.wf(),
            resolve_doc_spec(doc.nodes@.take(idx as int)) is Ok,
            targets@ == resolve_doc_spec(doc.nodes@.take(idx as int))->Ok_0,
    {
        match try_parse_rule(&doc.nodes[idx]) {
            Ok(rule) => {
                proof {
                    assert(doc.nodes@.take(idx as int + 1).drop_last() =~= doc.nodes@.take(
                        idx as int,
                    ));
                    assert(doc.nodes@.take(idx as int + 1).last() == doc.nodes@[idx as int]);
                }
                targets.insert(rule);
            },
            Err(f) => {
                proof {
                    lemma_resolve_doc_err(doc.nodes@, idx as int);
                }
                return Err(f);
            },
        }
    }
    proof {
        assert(doc.nodes@.take(n as int) =~= doc.nodes@);
    }
    Ok(targets)
}

/// Resolves `doc` like [`try_parse`], wrapping any failure with the source
/// it came from, so that a renderer can underline the offending span.
pub fn parse_doc(source: SourceText, doc: Document) -> (r: Result<Manifest, Diagnostic>)
    ensures
        r matches Ok(m) ==> resolve_doc_spec(doc.nodes@) is Ok && m.wf() && m@ == resolve_doc_spec(
            doc.nodes@,
        )->Ok_0,
        r matches Err(d) ==> resolve_doc_spec(doc.nodes@) is Err && d.failure@ == resolve_doc_spec(
            doc.nodes@,
        )->Err_0 && d.source_name@ == source.name@ && d.source_text@ == source.text@,
{
    match try_parse(&doc) {
        Ok(m) => Ok(m),
        Err(f) => Err(
            Diagnostic { source_name: source.name, source_text: source.text, failure: f },
        ),
    }
}

} // verus!
