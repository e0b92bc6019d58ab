use sutra::ast::{AstNode, Expr, ParamList};
use sutra::diagnostics::{format_location, generate_code_snippet, pointer_line, ErrorType, VisualLayout, VisualLine};
use sutra::discovery::{register_single_test, TestDiscoverer};
use sutra::engine::MacroProcessor;
use sutra::errors::{ErrorKind, SourceContext, ValidationContext};
use sutra::grammar::{check_grammar_rules, parse_grammar_rules, validate_grammar_str};
use sutra::output::{EngineOutputBuffer, NullSink, OutputBuffer, OutputSink};
use sutra::parser::parse;
use sutra::span::Span;
use sutra::summary::FileTestSummary;

fn read(s: &str) -> Vec<AstNode> {
    parse(s, SourceContext::from_file("t", s)).unwrap()
}

#[test]
fn source_contexts() {
    let s = SourceContext::from_file("a.sutra", "(x)");
    assert_eq!(s.name, "a.sutra");
    assert_eq!(s.content, "(x)");
    let f = SourceContext::fallback("macro expansion");
    assert_eq!(f.name, "fallback");
    assert_eq!(f.content, "// macro expansion");
}

#[test]
fn validation_context_reports_with_phase_codes() {
    let ctx = ValidationContext::new(SourceContext::from_file("f", "x"), "validation".to_string());
    let e = ctx.undefined_symbol("foo", Span { start: 1, end: 4 });
    assert!(matches!(&e.kind, ErrorKind::UndefinedSymbol { symbol } if symbol == "foo"));
    assert_eq!(e.diagnostic_info.error_code, "sutra::validation::undefined_symbol");
    assert_eq!(e.message(), "Runtime error: undefined symbol 'foo'");
    let e = ctx.type_mismatch("Number", "String", Span::default());
    assert_eq!(e.message(), "Type error: expected Number, got String");
}

#[test]
fn output_sinks_collect_text() {
    let mut b = OutputBuffer::new();
    b.emit("one", None);
    b.emit("two", Some(&Span::default()));
    assert_eq!(b.as_str(), "one\ntwo");
    let mut e = EngineOutputBuffer::new();
    e.emit("one", None);
    e.emit("two", None);
    assert_eq!(e.as_str(), "onetwo");
    let mut n = NullSink;
    n.emit("ignored", None);
}

#[test]
fn error_type_names() {
    assert_eq!(ErrorType::Parse.as_str(), "Parse");
    assert_eq!(ErrorType::TypeError.as_str(), "TypeError");
    assert_eq!(ErrorType::TestFailure.as_str(), "TestFailure");
}

#[test]
fn pointer_lines_mark_spans() {
    assert_eq!(pointer_line(2, 2, 2, 3, 6, 10), "  ^--- here\n");
    assert_eq!(pointer_line(2, 2, 4, 3, 1, 10), "  ^------- here\n");
    assert_eq!(pointer_line(4, 2, 4, 3, 5, 10), "----^ here\n");
    assert_eq!(pointer_line(3, 2, 4, 3, 5, 10), "|\n");
    assert_eq!(pointer_line(1, 1, 1, 0, 0, 0), "^ here\n");
}

#[test]
fn visual_lines_expand_tabs() {
    assert_eq!(VisualLine::new("abc\n").visual_len, 3);
    assert_eq!(VisualLine::new("\tx").visual_len, 5);
    assert_eq!(VisualLine::new("ab\tc").visual_len, 5);
    assert_eq!(VisualLine::new("e\u{301}x").visual_len, 2);
    assert_eq!(VisualLine::new("").visual_len, 0);
}

#[test]
fn visual_layout_splits_lines_keeping_newlines() {
    let layout = VisualLayout::new("a\nbc\n\nd");
    assert_eq!(layout.lines.len(), 4);
    assert_eq!(layout.lines[1].text, "bc\n");
    assert_eq!(layout.get_line(4).unwrap().text, "d");
    assert!(layout.get_line(5).is_none());
    assert_eq!(VisualLayout::new("").lines.len(), 1);
}

#[test]
fn grammar_rules_are_read_and_checked() {
    let grammar = "// a grammar\nprogram = { SOI ~ expr* ~ EOI }\nexpr = { list | atom }\n  | symbol\nlist = { \"(\" ~ expr* ~ \")\" }\natom = { symbol | number }\nsymbol = { ASCII_ALPHA+ }\n";
    let rules = parse_grammar_rules(grammar).unwrap();
    assert_eq!(rules.len(), 5);
    assert_eq!(rules[1].name, "expr");
    assert_eq!(rules[1].definition, "expr = { list | atom }\n| symbol");
    assert_eq!(rules[1].references, vec!["expr", "list", "atom", "symbol"]);
    let errors = check_grammar_rules(&rules);
    assert_eq!(errors.len(), 1);
    assert!(matches!(&errors[0].kind, ErrorKind::GeneralValidation { message } if message == "Rule 'atom' references undefined rule 'number'"));
}

#[test]
fn missing_required_rules_are_reported() {
    let errors = validate_grammar_str("program = { expr }\n").unwrap();
    let messages: Vec<String> = errors
        .iter()
        .map(|e| match &e.kind {
            ErrorKind::GeneralValidation { message } => message.clone(),
            _ => String::new(),
        })
        .collect();
    assert_eq!(
        messages,
        vec![
            "Missing required rule: expr",
            "Missing required rule: list",
            "Missing required rule: atom",
            "Missing required rule: symbol",
            "Rule 'program' references undefined rule 'expr'",
        ]
    );
}

#[test]
fn sutra_files_are_recognised_by_extension() {
    assert!(TestDiscoverer::is_sutra_file("tests/basic.sutra"));
    assert!(TestDiscoverer::is_sutra_file("a.b.sutra"));
    assert!(!TestDiscoverer::is_sutra_file("tests/.sutra"));
    assert!(!TestDiscoverer::is_sutra_file("tests/basic.txt"));
    assert!(!TestDiscoverer::is_sutra_file("sutra"));
}

#[test]
fn tests_are_extracted_from_forms() {
    let src = "(test \"adds\" (expect 3) (+ 1 2)) (print 1) (test \"plain\" (do 1) 2)";
    let tests = TestDiscoverer::extract_tests_from_ast(read(src), SourceContext::from_file("f.sutra", src)).unwrap();
    assert_eq!(tests.len(), 2);
    assert_eq!(tests[0].name, "adds");
    assert!(tests[0].expect_form.is_some());
    assert_eq!(tests[0].body.len(), 1);
    assert_eq!(tests[1].name, "plain");
    assert!(tests[1].expect_form.is_none());
    assert_eq!(tests[1].body.len(), 2);
    assert_eq!(tests[1].source_file.name, "f.sutra");
}

#[test]
fn malformed_test_forms_fail() {
    let e = TestDiscoverer::extract_tests_from_ast(read("(test)"), SourceContext::from_file("f", "(test)")).unwrap_err();
    assert!(e.message().contains("expected at least a name"));
    let e = TestDiscoverer::extract_tests_from_ast(read("(test 5 1)"), SourceContext::from_file("f", "")).unwrap_err();
    assert!(e.message().contains("test name must be a string"));
}

#[test]
fn registration_refuses_missing_expect_and_duplicate_names() {
    let src = "(test \"adds\" (expect 3) (+ 1 2)) (test \"plain\" 2) (test \"adds\" (expect 4) 4)";
    let tests = TestDiscoverer::extract_tests_from_ast(read(src), SourceContext::from_file("f.sutra", src)).unwrap();
    let mut registry = Vec::new();
    let mut it = tests.into_iter();
    assert!(register_single_test(&mut registry, it.next().unwrap()).is_ok());
    assert_eq!(registry.len(), 1);
    let e = register_single_test(&mut registry, it.next().unwrap()).unwrap_err();
    assert_eq!(e.message(), "Validation error: Test 'plain' missing (expect ...) form");
    assert_eq!(registry.len(), 1);
    let e = register_single_test(&mut registry, it.next().unwrap()).unwrap_err();
    assert_eq!(e.message(), "Validation error: Duplicate test name 'adds'.");
    assert_eq!(registry.len(), 1);
    assert_eq!(registry[0].name, "adds");
}

#[test]
fn file_summaries_count_outcomes() {
    let mut s = FileTestSummary::new("f.sutra".to_string());
    s.add_result(true);
    s.add_result(false);
    s.add_result(true);
    let t = s.summary();
    assert_eq!(t.passed, 2);
    assert_eq!(t.failed, 1);
}

#[test]
fn macro_processor_settings() {
    let p = MacroProcessor::new(false, 7).with_test_context("f.sutra".to_string(), "t".to_string());
    assert!(!p.validate);
    assert_eq!(p.max_depth, 7);
    assert_eq!(p.test_file, Some("f.sutra".to_string()));
    assert_eq!(p.test_name, Some("t".to_string()));
    let d = MacroProcessor::default();
    assert!(d.validate);
    assert_eq!(d.max_depth, 100);
}

#[test]
fn expressions_name_their_type_and_span() {
    let nodes = read("(a) x \"s\"");
    assert_eq!(nodes[0].type_label(), "List");
    assert_eq!(nodes[1].type_label(), "Symbol");
    assert_eq!(nodes[2].type_label(), "String");
    assert_eq!(nodes[1].value.span(), Span { start: 4, end: 5 });
    let p = ParamList { required: vec![], rest: None, span: Span { start: 2, end: 3 } };
    assert_eq!(Expr::ParamList(p).span(), Span { start: 2, end: 3 });
}

#[test]
fn expressions_print_back_as_text() {
    let nodes = read("(a (b 1.5) \"s\" 'x ...r true) p.q (define (f x ...r) x) (lambda (...all) all)");
    assert_eq!(nodes[0].value.pretty(), "(a (b 1.5) \"s\" 'x ...r true)");
    assert_eq!(nodes[1].value.pretty(), "(path p q)");
    assert_eq!(nodes[2].value.pretty(), "(define (f x . r) x)");
    assert_eq!(nodes[3].value.pretty(), "(lambda (all) all)");
    let def = Expr::Define {
        name: "g".to_string(),
        params: ParamList { required: vec!["a".to_string()], rest: Some("more".to_string()), span: Span::default() },
        body: Box::new(nodes[1].clone()),
        span: Span::default(),
    };
    assert_eq!(def.pretty(), "(define (g a ...more) (path p q))");
}

#[test]
fn snippets_number_lines_and_point_at_the_span() {
    let snippet = generate_code_snippet("a\nbb\n\tc\n", 2, 1, 2, 2);
    assert_eq!(snippet, "1 | a\n2 | bb\n  | ^- here\n3 |     c\n");
}

#[test]
fn snippets_keep_two_lines_of_context() {
    let source = "l1\nl2\nl3\nl4\nl5\nl6\nl7\nl8\nl9\nl10\nl11\n";
    let snippet = generate_code_snippet(source, 9, 1, 10, 2);
    assert_eq!(
        snippet,
        " 7 | l7\n 8 | l8\n 9 | l9\n   | ^- here\n10 | l10\n   | -^ here\n11 | l11\n"
    );
}

#[test]
fn locations_use_lines_when_known() {
    assert_eq!(format_location(3, 7, None), " [at 3-7]");
    assert_eq!(format_location(3, 7, Some(((1, 2), (3, 4)))), " [at line 1, col 2 to line 3, col 4]");
}

#[test]
fn grammar_references_are_identifiers_without_leading_digits() {
    let rules = parse_grammar_rules("x = { 1abc ~ foo_2 ~ \"q\" ~ 99 }").unwrap();
    assert_eq!(rules[0].references, vec!["x", "abc", "foo_2", "q"]);
    assert!(validate_grammar_str("").is_ok());
}

#[test]
fn the_default_source_context_is_a_fallback() {
    let d = SourceContext::default();
    assert_eq!(d.name, "fallback");
    assert_eq!(d.content, "// default context");
}

#[test]
fn sutra_files_may_be_named_with_a_trailing_slash() {
    assert!(TestDiscoverer::is_sutra_file("dir/a.sutra/"));
    assert!(TestDiscoverer::is_sutra_file("dir/a.sutra/."));
    assert!(!TestDiscoverer::is_sutra_file("dir/a.sutra."));
    assert!(!TestDiscoverer::is_sutra_file("dir/.sutra/"));
}

#[test]
fn layout_lines_spell_the_source() {
    let layout = VisualLayout::new("ab\n\ncd");
    let texts: Vec<&str> = layout.lines.iter().map(|l| l.text.as_str()).collect();
    assert_eq!(texts, vec!["ab\n", "\n", "cd"]);
    assert_eq!(texts.concat(), "ab\n\ncd");
    assert_eq!(VisualLayout::new("x\n").lines.len(), 1);
}
