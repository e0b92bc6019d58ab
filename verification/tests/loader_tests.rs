use sutra::ast::ParamList;
use sutra::errors::SourceContext;
use sutra::loader::{filter_comment_lines, parse_macros_from_source};
use sutra::macros::{check_arity, MacroDefinition, MacroSystem};
use sutra::span::Span;

#[test]
fn test_parse_simple_macro() {
    let source = "(define (double x) (* x 2))";
    let result = parse_macros_from_source(source).unwrap();

    assert_eq!(result.len(), 1);
    assert_eq!(result[0].0, "double");
    assert_eq!(result[0].1.params.required.len(), 1);
    assert_eq!(result[0].1.params.required[0], "x");
    assert!(result[0].1.params.rest.is_none());
}

#[test]
fn test_parse_variadic_macro() {
    let source = "(define (sum x ...rest) (+ x (apply + rest)))";
    let result = parse_macros_from_source(source).unwrap();

    assert_eq!(result.len(), 1);
    assert_eq!(result[0].0, "sum");
    assert_eq!(result[0].1.params.required.len(), 1);
    assert_eq!(result[0].1.params.required[0], "x");
    assert_eq!(result[0].1.params.rest, Some("rest".to_string()));
}

#[test]
fn test_parse_multiple_macros() {
    let source = r#"
            (define (macro1 x) (+ x 1))
            (define (macro2 y) (- y 1))
        "#;
    let result = parse_macros_from_source(source).unwrap();

    assert_eq!(result.len(), 2);
    assert_eq!(result[0].0, "macro1");
    assert_eq!(result[1].0, "macro2");
}

#[test]
fn test_duplicate_macro_names() {
    let source = r#"
            (define (test x) (+ x 1))
            (define (test y) (- y 1))
        "#;
    let result = parse_macros_from_source(source);

    assert!(result.is_err());
    let error = result.unwrap_err();
    assert!(error.message().contains("duplicate macro definition"));
}

#[test]
fn test_check_arity_exact_match() {
    let params = ParamList {
        required: vec!["x".to_string(), "y".to_string()],
        rest: None,
        span: Span::default(),
    };
    let span = Span::default();
    let source = SourceContext::from_file("test", "test");

    assert!(check_arity(2, &params, "test", &span, &source).is_ok());
}

#[test]
fn test_check_arity_too_few() {
    let params = ParamList {
        required: vec!["x".to_string(), "y".to_string()],
        rest: None,
        span: Span::default(),
    };
    let span = Span::default();
    let source = SourceContext::from_file("test", "test");

    assert!(check_arity(1, &params, "test", &span, &source).is_err());
}

#[test]
fn test_check_arity_too_many_non_variadic() {
    let params = ParamList {
        required: vec!["x".to_string()],
        rest: None,
        span: Span::default(),
    };
    let span = Span::default();
    let source = SourceContext::from_file("test", "test");

    assert!(check_arity(2, &params, "test", &span, &source).is_err());
}

#[test]
fn test_check_arity_variadic_ok() {
    let params = ParamList {
        required: vec!["x".to_string()],
        rest: Some("rest".to_string()),
        span: Span::default(),
    };
    let span = Span::default();
    let source = SourceContext::from_file("test", "test");

    assert!(check_arity(1, &params, "test", &span, &source).is_ok());
    assert!(check_arity(3, &params, "test", &span, &source).is_ok());
}

#[test]
fn test_check_arity_variadic_too_few() {
    let params = ParamList {
        required: vec!["x".to_string(), "y".to_string()],
        rest: Some("rest".to_string()),
        span: Span::default(),
    };
    let span = Span::default();
    let source = SourceContext::from_file("test", "test");

    assert!(check_arity(1, &params, "test", &span, &source).is_err());
}

#[test]
fn check_arity_error_messages_name_the_expected_count() {
    let params = ParamList { required: vec!["x".to_string(), "y".to_string()], rest: None, span: Span::default() };
    let source = SourceContext::from_file("test", "test");
    let e = check_arity(1, &params, "m", &Span::default(), &source).unwrap_err();
    assert_eq!(e.message(), "Runtime error: incorrect arity, expected at least 2, got 1");
    let e = check_arity(3, &params, "m", &Span::default(), &source).unwrap_err();
    assert_eq!(e.message(), "Runtime error: incorrect arity, expected 2, got 3");
}

#[test]
fn comment_lines_are_dropped_before_reading() {
    assert_eq!(filter_comment_lines(";; note\n(a)\n  ;; more\n(b)\n"), "(a)\n(b)");
    assert_eq!(filter_comment_lines("(a) ;; trailing\r\n"), "(a) ;; trailing");
    assert_eq!(filter_comment_lines(""), "");
    let result = parse_macros_from_source(";; a comment\n(define (one) 1)").unwrap();
    assert_eq!(result.len(), 1);
    assert_eq!(result[0].0, "one");
}

#[test]
fn non_definitions_are_skipped() {
    let result = parse_macros_from_source("(print 1) (define (f a) a) 42").unwrap();
    assert_eq!(result.len(), 1);
    assert_eq!(result[0].0, "f");
}

#[test]
fn definition_without_name_is_an_error() {
    let result = parse_macros_from_source("(define () 1)");
    let e = result.unwrap_err();
    assert!(e.message().contains("Macro name missing from parameter list"));
}

#[test]
fn unreadable_macro_source_is_a_parse_error() {
    let e = parse_macros_from_source("(define (f x) x").unwrap_err();
    assert_eq!(e.source_info.phase, "parsing");
    assert_eq!(e.source_info.source.name, "macro source");
}

#[test]
fn load_from_source_registers_each_definition() {
    let mut system = MacroSystem::new();
    system.load_from_source("(define (twice x) (* 2 x)) (define (id y) y)").unwrap();
    assert!(system.has_macro("twice"));
    assert!(system.has_macro("id"));
    assert!(!system.has_macro("define"));
    match system.get_macro("twice") {
        Some(MacroDefinition::Template(t)) => {
            assert_eq!(t.params.required, vec!["x".to_string()]);
        }
        _ => panic!("expected a template"),
    }
}

#[test]
fn load_from_source_later_definition_replaces_earlier() {
    let mut system = MacroSystem::new();
    system.load_from_source("(define (f a) a) (define (f a b) b)").unwrap();
    match system.get_macro("f") {
        Some(MacroDefinition::Template(t)) => assert_eq!(t.params.required.len(), 2),
        _ => panic!("expected a template"),
    }
}

#[test]
fn load_from_source_parse_error_leaves_system_unchanged() {
    let mut system = MacroSystem::new();
    assert!(system.load_from_source("(define (f a) a").is_err());
    assert!(system.macro_names().is_empty());
}
