use sutra::ast::{AstNode, Expr};
use sutra::errors::{ErrorKind, SourceContext};
use sutra::parser::{parse, unescape_string, wrap_in_do};
use sutra::span::Span;

fn read(s: &str) -> Vec<AstNode> {
    parse(s, SourceContext::from_file("test", s)).unwrap()
}

#[test]
fn test_empty_input() {
    let result = parse("", SourceContext::from_file("test", ""));
    assert!(result.unwrap().is_empty());
}

#[test]
fn test_simple_number() {
    let result = parse("42", SourceContext::from_file("test", "42"));
    assert!(result.is_ok());
    let nodes = result.unwrap();
    assert_eq!(nodes.len(), 1);
}

#[test]
fn test_unmatched_paren() {
    let result = parse("(a b", SourceContext::from_file("test", "(a b"));
    assert!(result.is_err());
}

#[test]
fn atoms_read_with_byte_spans() {
    let nodes = read("42 true foo \"hi\"");
    assert_eq!(nodes.len(), 4);
    match &*nodes[0].value {
        Expr::Number(text, span) => {
            assert_eq!(text, "42");
            assert_eq!(*span, Span { start: 0, end: 2 });
        }
        other => panic!("unexpected {:?}", other),
    }
    assert!(matches!(&*nodes[1].value, Expr::Bool(true, _)));
    match &*nodes[2].value {
        Expr::Symbol(name, span) => {
            assert_eq!(name, "foo");
            assert_eq!(*span, Span { start: 8, end: 11 });
        }
        other => panic!("unexpected {:?}", other),
    }
    match &*nodes[3].value {
        Expr::String(s, span) => {
            assert_eq!(s, "hi");
            assert_eq!(*span, Span { start: 12, end: 16 });
        }
        other => panic!("unexpected {:?}", other),
    }
}

#[test]
fn spans_count_bytes_of_multibyte_text() {
    let nodes = read("\"é\" x");
    assert_eq!(nodes[0].span, Span { start: 0, end: 4 });
    assert_eq!(nodes[1].span, Span { start: 5, end: 6 });
}

#[test]
fn numbers_and_negative_numbers() {
    let nodes = read("-3 1.5 - 7up");
    assert!(matches!(&*nodes[0].value, Expr::Number(t, _) if t == "-3"));
    assert!(matches!(&*nodes[1].value, Expr::Number(t, _) if t == "1.5"));
    assert!(matches!(&*nodes[2].value, Expr::Symbol(t, _) if t == "-"));
    assert!(matches!(&*nodes[3].value, Expr::Symbol(t, _) if t == "7up"));
    assert!(parse("1.", SourceContext::from_file("t", "1.")).is_err());
}

#[test]
fn lists_blocks_and_quotes() {
    let nodes = read("(a (b) {c d}) 'x");
    assert_eq!(nodes.len(), 2);
    match &*nodes[0].value {
        Expr::List(items, span) => {
            assert_eq!(items.len(), 3);
            assert_eq!(*span, Span { start: 0, end: 13 });
            assert!(matches!(&*items[2].value, Expr::List(inner, _) if inner.len() == 2));
        }
        other => panic!("unexpected {:?}", other),
    }
    match &*nodes[1].value {
        Expr::Quote(inner, span) => {
            assert!(matches!(&*inner.value, Expr::Symbol(s, _) if s == "x"));
            assert_eq!(*span, Span { start: 14, end: 16 });
        }
        other => panic!("unexpected {:?}", other),
    }
}

#[test]
fn dotted_names_are_paths_and_spreads_wrap_names() {
    let nodes = read("player.score ...rest");
    match &*nodes[0].value {
        Expr::Path(p, _) => assert_eq!(p.0, vec!["player".to_string(), "score".to_string()]),
        other => panic!("unexpected {:?}", other),
    }
    match &*nodes[1].value {
        Expr::Spread(inner) => {
            assert!(matches!(&*inner.value, Expr::Symbol(s, _) if s == "rest"));
            assert_eq!(inner.span, Span { start: 16, end: 20 });
            assert_eq!(nodes[1].span, Span { start: 13, end: 20 });
        }
        other => panic!("unexpected {:?}", other),
    }
}

#[test]
fn empty_path_piece_is_an_invalid_literal() {
    let e = parse("a..b", SourceContext::from_file("t", "a..b")).unwrap_err();
    match &e.kind {
        ErrorKind::InvalidLiteral { literal_type, value } => {
            assert_eq!(literal_type, "path");
            assert_eq!(value, "a..b");
        }
        other => panic!("unexpected {:?}", other),
    }
    assert_eq!(e.source_info.primary_span, Span { start: 0, end: 4 });
    assert_eq!(e.diagnostic_info.error_code, "sutra::parse");
}

#[test]
fn define_and_lambda_read_with_parameter_lists() {
    let nodes = read("(define (f x ...more) (g x)) (lambda (a) a)");
    match &*nodes[0].value {
        Expr::List(items, _) => {
            assert_eq!(items.len(), 3);
            assert!(matches!(&*items[0].value, Expr::Symbol(s, _) if s == "define"));
            match &*items[1].value {
                Expr::ParamList(p) => {
                    assert_eq!(p.required, vec!["f".to_string(), "x".to_string()]);
                    assert_eq!(p.rest, Some("more".to_string()));
                    assert_eq!(p.span, Span { start: 8, end: 21 });
                }
                other => panic!("unexpected {:?}", other),
            }
        }
        other => panic!("unexpected {:?}", other),
    }
    match &*nodes[1].value {
        Expr::List(items, _) => assert!(matches!(&*items[1].value, Expr::ParamList(p) if p.required.len() == 1)),
        other => panic!("unexpected {:?}", other),
    }
}

#[test]
fn define_of_a_value_is_an_ordinary_list() {
    let nodes = read("(define x 5)");
    match &*nodes[0].value {
        Expr::List(items, _) => {
            assert_eq!(items.len(), 3);
            assert!(matches!(&*items[1].value, Expr::Symbol(s, _) if s == "x"));
        }
        other => panic!("unexpected {:?}", other),
    }
}

#[test]
fn parameter_after_rest_is_an_order_violation() {
    let src = "(define (f ...r x) x)";
    let e = parse(src, SourceContext::from_file("t", src)).unwrap_err();
    match &e.kind {
        ErrorKind::ParameterOrderViolation { rest_span } => assert_eq!(*rest_span, Span { start: 16, end: 17 }),
        other => panic!("unexpected {:?}", other),
    }
}

#[test]
fn second_rest_parameter_is_invalid() {
    let src = "(lambda (...a ...b) a)";
    let e = parse(src, SourceContext::from_file("t", src)).unwrap_err();
    assert!(matches!(&e.kind, ErrorKind::InvalidLiteral { literal_type, value } if literal_type == "parameter" && value == "spread_arg"));
}

#[test]
fn delimiter_errors_name_what_is_missing() {
    let cases = [
        ("(a b", "Missing closing parenthesis", Span { start: 4, end: 4 }),
        ("{a", "Missing closing brace", Span { start: 2, end: 2 }),
        ("(a }", "Missing closing parenthesis", Span { start: 3, end: 3 }),
        ("\"abc", "Missing closing quote", Span { start: 4, end: 4 }),
        (")", "Syntax error", Span { start: 0, end: 0 }),
        ("'", "Syntax error", Span { start: 1, end: 1 }),
    ];
    for (src, msg, span) in cases {
        let e = parse(src, SourceContext::from_file("t", src)).unwrap_err();
        match &e.kind {
            ErrorKind::MalformedConstruct { construct } => assert_eq!(construct, msg, "source {:?}", src),
            other => panic!("unexpected {:?} for {:?}", other, src),
        }
        assert_eq!(e.source_info.primary_span, span, "source {:?}", src);
        assert_eq!(e.source_info.phase, "parsing");
        assert_eq!(e.source_info.source.content, src);
    }
}

#[test]
fn comments_and_whitespace_separate_tokens() {
    let nodes = read("; a comment\n(a ; inner\n b)\n");
    assert_eq!(nodes.len(), 1);
    assert!(matches!(&*nodes[0].value, Expr::List(items, _) if items.len() == 2));
}

#[test]
fn string_escapes_are_resolved() {
    let nodes = read(r#""a\nb\t\\\"\q""#);
    assert!(matches!(&*nodes[0].value, Expr::String(s, _) if s == "a\nb\t\\\"\\q"));
}

#[test]
fn unescape_string_drops_the_quotes() {
    assert_eq!(unescape_string("\"x\\ny\"").unwrap(), "x\ny");
    assert_eq!(unescape_string("\"\"").unwrap(), "");
    assert_eq!(unescape_string("\"tail\\\"").unwrap(), "tail\\");
}

#[test]
fn wrap_in_do_wraps_several_nodes() {
    assert!(matches!(&*wrap_in_do(vec![]).value, Expr::List(items, _) if items.is_empty()));
    let one = read("x");
    assert!(matches!(&*wrap_in_do(one).value, Expr::Symbol(s, _) if s == "x"));
    let many = read("a (b)");
    let w = wrap_in_do(many);
    assert_eq!(w.span, Span { start: 0, end: 5 });
    match &*w.value {
        Expr::List(items, _) => {
            assert_eq!(items.len(), 3);
            assert!(matches!(&*items[0].value, Expr::Symbol(s, _) if s == "do"));
        }
        other => panic!("unexpected {:?}", other),
    }
}
