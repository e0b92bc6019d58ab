use std::sync::Arc;

use sutra::ast::{AstNode, Expr, Spanned};
use sutra::errors::SourceContext;
use sutra::eval_error::SutraErrorKind;
use sutra::parser::parse;
use sutra::span::Span;
use sutra::std_macros::canonicalize_path;

/// A whole program as one form: `(do form...)`, with an unspanned `do`.
fn parse_unwrap(s: &str) -> AstNode {
    let zero = Span { start: 0, end: 0 };
    let mut items: Vec<AstNode> = vec![Spanned { value: Arc::new(Expr::Symbol("do".to_string(), zero)), span: zero }];
    items.extend(parse(s, SourceContext::from_file("test", s)).unwrap());
    Spanned { value: Arc::new(Expr::List(items, zero)), span: zero }
}

/// The structure of a node, spans left out.
fn shape(n: &AstNode) -> String {
    match &*n.value {
        Expr::List(items, _) => format!("({})", items.iter().map(shape).collect::<Vec<_>>().join(" ")),
        Expr::Symbol(s, _) => s.clone(),
        Expr::String(s, _) => format!("{:?}", s),
        other => format!("{:?}", other),
    }
}

#[test]
fn test_canonicalize_path_simple_symbol() {
    let input = parse_unwrap("score");
    let actual = canonicalize_path(&input).unwrap();
    assert_eq!(shape(&actual), "(list \"score\")");
}

#[test]
fn test_canonicalize_path_dotted_symbol() {
    let input = parse_unwrap("player.score.value");
    let actual = canonicalize_path(&input).unwrap();
    assert_eq!(shape(&actual), "(list \"player\" \"score\" \"value\")");
}

#[test]
fn test_canonicalize_path_list_of_symbols() {
    let input = parse_unwrap("(player score)");
    let actual = canonicalize_path(&input).unwrap();
    assert_eq!(shape(&actual), "(list \"player\" \"score\")");
}

#[test]
fn test_canonicalize_path_list_of_strings() {
    let input = parse_unwrap(r#"("player" "score")"#);
    let actual = canonicalize_path(&input).unwrap();
    assert_eq!(shape(&actual), "(list \"player\" \"score\")");
}

#[test]
fn test_canonicalize_path_invalid_list_mixed_types() {
    let input = parse_unwrap(r#"(player "score" 123)"#);
    let result = canonicalize_path(&input);
    assert!(result.is_err());
    if let Err(e) = result {
        assert!(matches!(e.kind, SutraErrorKind::Macro(_)));
        if let SutraErrorKind::Macro(msg) = e.kind {
            assert!(msg.contains("list must contain only symbols or strings"));
        }
    }
}

#[test]
fn test_canonicalize_path_invalid_type_number() {
    let input = parse_unwrap("123");
    let result = canonicalize_path(&input);
    assert!(result.is_err());
    if let Err(e) = result {
        assert!(matches!(e.kind, SutraErrorKind::Macro(_)));
        if let SutraErrorKind::Macro(msg) = e.kind {
            assert!(msg.contains("expected a symbol or a list"));
        }
    }
}

#[test]
fn a_form_outside_a_program_is_read_as_it_is() {
    let input = parse("(a b.c)", SourceContext::from_file("t", "(a b.c)")).unwrap().pop().unwrap();
    let actual = canonicalize_path(&input).unwrap();
    assert_eq!(shape(&actual), "(list \"a\" \"b.c\")");
}

#[test]
fn macro_errors_read_as_macro_errors() {
    let input = parse_unwrap("123");
    let e = canonicalize_path(&input).unwrap_err();
    assert_eq!(e.message(), "Macro Error: Invalid path format: expected a symbol or a list.");
    assert_eq!(e.span, Some(Span { start: 0, end: 3 }));
}
