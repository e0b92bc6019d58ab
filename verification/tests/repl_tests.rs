use sutra::repl::is_complete_expression;

#[test]
fn test_is_complete_expression() {
    assert!(is_complete_expression("42"));
    assert!(is_complete_expression("(+ 1 2)"));
    assert!(is_complete_expression("(do (define x 10) (+ x 5))"));
    assert!(is_complete_expression("\"hello world\""));

    assert!(!is_complete_expression("(+ 1"));
    assert!(!is_complete_expression("(do (define x 10)"));
    assert!(!is_complete_expression("\"unclosed string"));
    assert!(!is_complete_expression(""));
}

#[test]
fn escaped_quote_does_not_close_a_string() {
    assert!(!is_complete_expression("\"a \\\" b"));
    assert!(is_complete_expression("\"a \\\" b\""));
}

#[test]
fn blank_input_is_not_complete() {
    assert!(!is_complete_expression("   \n\t"));
}
