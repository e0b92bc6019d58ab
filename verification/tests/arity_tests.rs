use std::sync::Arc;
use sutra::arity::{
    validate_arity, validate_binary_arity, validate_even_arity, validate_min_arity, validate_sequence_arity,
    validate_special_form_arity, validate_special_form_min_arity, validate_unary_arity, validate_zero_arity,
    EvaluationContext,
};
use sutra::ast::{AstNode, Expr};
use sutra::errors::{ErrorKind, SourceContext};
use sutra::span::Span;

fn dummy_context() -> EvaluationContext {
    let source = SourceContext::from_file("test.sutra", "()");
    EvaluationContext::new(source, Span::default())
}

#[test]
fn test_validate_arity() {
    let args = vec![1.0_f64, 2.0];
    let ctx = dummy_context();

    assert!(validate_arity(&args, 2, "test", &ctx).is_ok());

    assert!(validate_arity(&args, 1, "test", &ctx).is_err());
    assert!(validate_arity(&args, 3, "test", &ctx).is_err());
}

#[test]
fn test_validate_unary_arity() {
    let args = vec![1.0_f64];
    let ctx = dummy_context();

    assert!(validate_unary_arity(&args, "test", &ctx).is_ok());

    assert!(validate_unary_arity::<f64>(&[], "test", &ctx).is_err());
    assert!(validate_unary_arity(&[1.0_f64, 2.0], "test", &ctx).is_err());
}

#[test]
fn test_validate_binary_arity() {
    let args = vec![1.0_f64, 2.0];
    let ctx = dummy_context();

    assert!(validate_binary_arity(&args, "test", &ctx).is_ok());

    assert!(validate_binary_arity(&[1.0_f64], "test", &ctx).is_err());
    assert!(validate_binary_arity(&[1.0_f64, 2.0, 3.0], "test", &ctx).is_err());
}

#[test]
fn test_validate_min_arity() {
    let args = vec![1.0_f64, 2.0];
    let ctx = dummy_context();

    assert!(validate_min_arity(&args, 1, "test", &ctx).is_ok());
    assert!(validate_min_arity(&args, 2, "test", &ctx).is_ok());

    assert!(validate_min_arity(&args, 3, "test", &ctx).is_err());
}

#[test]
fn test_validate_sequence_arity() {
    let args = vec![1.0_f64, 2.0];
    let ctx = dummy_context();

    assert!(validate_sequence_arity(&args, "test", &ctx).is_ok());
    assert!(validate_sequence_arity(&[1.0_f64, 2.0, 3.0], "test", &ctx).is_ok());

    assert!(validate_sequence_arity::<f64>(&[], "test", &ctx).is_err());
    assert!(validate_sequence_arity(&[1.0_f64], "test", &ctx).is_err());
}

#[test]
fn test_validate_even_arity() {
    let args = vec![1.0_f64, 2.0];
    let ctx = dummy_context();

    assert!(validate_even_arity::<f64>(&[], "test", &ctx).is_ok());
    assert!(validate_even_arity(&args, "test", &ctx).is_ok());
    assert!(validate_even_arity(&[1.0_f64, 2.0, 3.0, 4.0], "test", &ctx).is_ok());

    assert!(validate_even_arity(&[1.0_f64], "test", &ctx).is_err());
    assert!(validate_even_arity(&[1.0_f64, 2.0, 3.0], "test", &ctx).is_err());
}

#[test]
fn test_error_messages() {
    let args = vec![1.0_f64];
    let ctx = dummy_context();

    let err = validate_arity(&args, 2, "my_atom", &ctx).unwrap_err();
    assert!(err.message().contains("expected 2, got 1"));

    let err = validate_min_arity(&args, 3, "my_atom", &ctx).unwrap_err();
    assert!(err.message().contains("expected at least 3, got 1"));

    let err = validate_even_arity(&args, "my_atom", &ctx).unwrap_err();
    assert!(err.message().contains("expected an even number of arguments, got 1"));
}

#[test]
fn test_validate_zero_arity() {
    let args = vec![1.0_f64];
    let ctx = dummy_context();

    assert!(validate_zero_arity(&args, "test", &ctx).is_err());
    assert!(validate_zero_arity(&[1.0_f64, 2.0], "test", &ctx).is_err());

    assert!(validate_zero_arity::<f64>(&[], "test", &ctx).is_ok());
}

#[test]
fn test_validate_special_form_arity() {
    let span = Span { start: 0, end: 1 };
    let args = vec![AstNode { value: Arc::new(Expr::Number("1.0".to_string(), span)), span }];
    let ctx = dummy_context();

    assert!(validate_special_form_arity(&args, 1, "test", &ctx).is_ok());

    assert!(validate_special_form_arity(&args, 2, "test", &ctx).is_err());
    assert!(validate_special_form_arity(&[], 1, "test", &ctx).is_err());
}

#[test]
fn test_validate_special_form_min_arity() {
    let span = Span { start: 0, end: 1 };
    let args = vec![AstNode { value: Arc::new(Expr::Number("1.0".to_string(), span)), span }];
    let ctx = dummy_context();

    assert!(validate_special_form_min_arity(&args, 1, "test", &ctx).is_ok());
    assert!(validate_special_form_min_arity(&args, 0, "test", &ctx).is_ok());

    assert!(validate_special_form_min_arity(&args, 2, "test", &ctx).is_err());
}

#[test]
fn arity_errors_carry_span_help_and_counts() {
    let span = Span { start: 3, end: 9 };
    let ctx = EvaluationContext::new(SourceContext::from_file("f", "(f 1 2 3)"), span);
    let err = validate_binary_arity(&[1, 2, 3], "f", &ctx).unwrap_err();
    assert!(matches!(&err.kind, ErrorKind::ArityMismatch { expected, actual } if expected == "2" && *actual == 3));
    assert_eq!(err.source_info.primary_span, span);
    assert_eq!(err.diagnostic_info.help, Some("f expects 2 arguments".to_string()));
    let err = validate_zero_arity(&[1], "rand", &ctx).unwrap_err();
    assert_eq!(err.diagnostic_info.help, Some("rand expects no arguments".to_string()));
    let err = validate_even_arity(&[1, 2, 3], "map", &ctx).unwrap_err();
    assert_eq!(err.diagnostic_info.help, Some("map expects an even number of arguments, got 3".to_string()));
}
