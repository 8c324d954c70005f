//! End-to-end resolution tests: KDL text is parsed by the outside parser,
//! converted into the crate's document tree, and resolved.

use blank_parse::errors::{Diagnostic, ResolutionFailure, SourceText};
use blank_parse::rules::{RedirectionMode, RuleOptions};
use blank_parse::manifest::{parse_doc, Manifest};
use blank_parse::tree::{Document, Entry, Node, Span, Value};
use kdl::{KdlDocument, KdlNode, KdlValue};

fn convert_span(s: miette::SourceSpan) -> Span {
    Span { start: s.offset(), len: s.len() }
}

fn convert_value(v: &KdlValue) -> Value {
    match v {
        KdlValue::String(s) => Value::Str(s.clone()),
        KdlValue::Integer(_) => Value::Number,
        KdlValue::Float(_) => Value::Number,
        KdlValue::Bool(b) => Value::Bool(*b),
        KdlValue::Null => Value::Null,
    }
}

fn convert_node(n: &KdlNode) -> Node {
    Node {
        name: n.name().value().to_string(),
        entries: n
            .entries()
            .iter()
            .map(|e| Entry {
                name: e.name().map(|id| id.value().to_string()),
                value: convert_value(e.value()),
                span: convert_span(e.span()),
            })
            .collect(),
        children: n.children().map(|d| d.nodes().iter().map(convert_node).collect()),
        span: convert_span(n.span()),
    }
}

fn convert_document(doc: &KdlDocument) -> Document {
    Document { nodes: doc.nodes().iter().map(convert_node).collect() }
}

fn test_helper_tree(text: &str) -> Document {
    let doc: KdlDocument = text.parse().expect("Could not parse KDL document");
    convert_document(&doc)
}

fn test_helper_parse_doc(text: &str) -> Result<Manifest, Diagnostic> {
    let src = SourceText { name: "test_doc".to_string(), text: text.to_string() };
    parse_doc(src, test_helper_tree(text))
}

#[test]
fn test_parse_simple_targets() {
    let doc_string = r#"
    target1 "https://example.com/target1"
    target2 "https://example.com/target2"
    "#;
    let targets = test_helper_parse_doc(doc_string).unwrap();
    assert_eq!(targets.len(), 2);
    assert_eq!(targets.get("target1").unwrap().url, "https://example.com/target1");
    assert_eq!(targets.get("target2").unwrap().url, "https://example.com/target2");
}

#[test]
fn test_parse_explicit_targets() {
    let doc_string = r#"
    target1_exp {
        target "https://example.com/target1_exp"
    }
    target2_exp {
        target "https://example.com/target2_exp"
    }
    "#;
    let targets = test_helper_parse_doc(doc_string).unwrap();
    assert_eq!(targets.len(), 2);
    assert_eq!(targets.get("target1_exp").unwrap().url, "https://example.com/target1_exp");
    assert_eq!(targets.get("target2_exp").unwrap().url, "https://example.com/target2_exp");
}

#[test]
fn parse_fails_on_missing_target_url() {
    let doc_string = r#"
    target1_exp {
    }
    "#;
    let result = test_helper_parse_doc(doc_string);
    assert!(result.is_err());
}

#[test]
fn parse_handles_empty_document() {
    let doc_string = r#""#;
    let targets = test_helper_parse_doc(doc_string).unwrap();
    assert!(targets.is_empty());
}

#[test]
fn parse_handles_duplicate_target_names() {
    let doc_string = r#"
    target1 "https://example.com/target1"
    target1 "https://example.com/target1_duplicate"
    "#;
    let targets = test_helper_parse_doc(doc_string).unwrap();
    assert_eq!(targets.len(), 1);
    assert_eq!(targets.get("target1").unwrap().url, "https://example.com/target1_duplicate");
}

#[test]
fn parse_doesnt_destroy_html_chars() {
    let doc_string = r#"
    target1 "https://example.com/target1%20with%20space"
    "#;
    let targets = test_helper_parse_doc(doc_string).unwrap();
    assert_eq!(targets.len(), 1);
    assert_eq!(targets.get("target1").unwrap().url, "https://example.com/target1%20with%20space");
}

#[test]
fn resolving_twice_gives_equal_results() {
    let doc_string = r#"
    a "https://example.com/a" description="first"
    b {
        target "https://example.com/b"
    }
    a "https://example.com/a2"
    "#;
    let first = test_helper_parse_doc(doc_string).unwrap();
    let second = test_helper_parse_doc(doc_string).unwrap();
    assert_eq!(first, second);
}

#[test]
fn shorthand_without_entries_reports_missing_target_at_node_span() {
    let doc_string = "bare_rule";
    let tree = test_helper_tree(doc_string);
    let node_span = tree.nodes[0].span;
    let diagnostic = test_helper_parse_doc(doc_string).unwrap_err();
    match diagnostic.failure {
        ResolutionFailure::MissingTarget { broken_at, insert_at } => {
            assert_eq!(broken_at, node_span);
            assert_eq!(insert_at, node_span.start);
        },
        other => panic!("expected MissingTarget, got {:?}", other),
    }
}

#[test]
fn explicit_without_target_child_reports_missing_target_at_outer_span() {
    let doc_string = r#"
    broken_exp {
        not_the_keyword "https://example.com/x"
    }
    "#;
    let tree = test_helper_tree(doc_string);
    let node_span = tree.nodes[0].span;
    let diagnostic = test_helper_parse_doc(doc_string).unwrap_err();
    match diagnostic.failure {
        ResolutionFailure::MissingTarget { broken_at, insert_at } => {
            assert_eq!(broken_at, node_span);
            assert_eq!(insert_at, node_span.start);
        },
        other => panic!("expected MissingTarget, got {:?}", other),
    }
}

#[test]
fn explicit_target_child_without_entries_reports_tighter_span() {
    let doc_string = r#"
    broken_exp {
        target
    }
    "#;
    let tree = test_helper_tree(doc_string);
    let child_span = match &tree.nodes[0].children {
        Some(children) => children[0].span,
        None => panic!("expected children"),
    };
    let diagnostic = test_helper_parse_doc(doc_string).unwrap_err();
    match diagnostic.failure {
        ResolutionFailure::MissingTarget { broken_at, insert_at } => {
            assert_eq!(broken_at, child_span);
            assert_eq!(insert_at, child_span.start);
        },
        other => panic!("expected MissingTarget, got {:?}", other),
    }
}

#[test]
fn invalid_escape_reported_at_owning_node() {
    let doc_string = r#"
    fine "https://example.com/ok"
    broken "\"bad\\qescape\""
    "#;
    let tree = test_helper_tree(doc_string);
    let bad_node_span = tree.nodes[1].span;
    let diagnostic = test_helper_parse_doc(doc_string).unwrap_err();
    match diagnostic.failure {
        ResolutionFailure::InvalidEscape { at, cause: _ } => {
            assert_eq!(at, bad_node_span);
        },
        other => panic!("expected InvalidEscape, got {:?}", other),
    }
}

#[test]
fn non_string_value_reports_expected_string() {
    let doc_string = r#"
    numeric 12345
    "#;
    let tree = test_helper_tree(doc_string);
    let node_span = tree.nodes[0].span;
    let diagnostic = test_helper_parse_doc(doc_string).unwrap_err();
    match diagnostic.failure {
        ResolutionFailure::ExpectedString { at } => {
            assert_eq!(at, node_span);
        },
        other => panic!("expected ExpectedString, got {:?}", other),
    }
}

#[test]
fn escapes_are_decoded_not_passed_through() {
    let doc_string = r#"
    esc "\"a\\nb\""
    "#;
    let targets = test_helper_parse_doc(doc_string).unwrap();
    assert_eq!(targets.get("esc").unwrap().url, "a\nb");
}

#[test]
fn shorthand_description_is_parsed_and_explicit_description_is_not() {
    let doc_string = r#"
    short "https://example.com/s" description="a short rule"
    exp description="ignored" {
        target "https://example.com/e"
    }
    "#;
    let targets = test_helper_parse_doc(doc_string).unwrap();
    let short = targets.get("short").unwrap();
    assert_eq!(short.url, "https://example.com/s");
    assert_eq!(short.opts.description, Some("a short rule".to_string()));
    let exp = targets.get("exp").unwrap();
    assert_eq!(exp.url, "https://example.com/e");
    assert_eq!(exp.opts.description, None);
}

#[test]
fn failure_diagnostic_carries_source_text_and_name() {
    let doc_string = "bare_rule";
    let diagnostic = test_helper_parse_doc(doc_string).unwrap_err();
    assert_eq!(diagnostic.source_name, "test_doc");
    assert_eq!(diagnostic.source_text, doc_string);
}

#[test]
fn first_failing_node_wins() {
    let doc_string = r#"
    numeric 12345
    bare_rule
    "#;
    let tree = test_helper_tree(doc_string);
    let first_span = tree.nodes[0].span;
    let diagnostic = test_helper_parse_doc(doc_string).unwrap_err();
    match diagnostic.failure {
        ResolutionFailure::ExpectedString { at } => {
            assert_eq!(at, first_span);
        },
        other => panic!("expected ExpectedString, got {:?}", other),
    }
}

#[test]
fn url_comes_from_first_positional_entry() {
    let doc_string = r#"
    mixed description="desc first" "https://example.com/positional"
    "#;
    let targets = test_helper_parse_doc(doc_string).unwrap();
    let rule = targets.get("mixed").unwrap();
    assert_eq!(rule.url, "https://example.com/positional");
    assert_eq!(rule.opts.description, Some("desc first".to_string()));
}

#[test]
fn default_options_are_empty() {
    let opts = RuleOptions::default();
    assert_eq!(opts.description, None);
    assert!(opts.tags.is_empty());
    assert!(matches!(opts.redirect, RedirectionMode::Temporary));
}
