use sutra::ast::{AstNode, Expr};
use sutra::errors::SourceContext;
use sutra::macro_errors::{
    build_arity_context_message, build_arity_suggestion, build_param_info_string, check_macro_recursion_depth,
    check_recursion_depth, macro_recursion_limit_error, pluralize_args, SutraMacroError,
};
use sutra::macros::{check_no_duplicate_params, parse_macro_definition, MacroDefinition, MacroSystem, MacroTemplate};
use sutra::ast::ParamList;
use sutra::parser::parse;
use sutra::span::Span;
use sutra::std_macros::{expand_add, expand_get, expand_inc, expand_set, wrap_in_get, BuiltinMacro};

fn read_one(s: &str) -> AstNode {
    let mut v = parse(s, SourceContext::from_file("t", s)).unwrap();
    assert_eq!(v.len(), 1);
    v.pop().unwrap()
}

fn show(n: &AstNode) -> String {
    match &*n.value {
        Expr::List(items, _) => {
            let parts: Vec<String> = items.iter().map(show).collect();
            format!("({})", parts.join(" "))
        }
        Expr::Symbol(s, _) => s.clone(),
        Expr::Path(p, _) => p.0.join("."),
        Expr::String(s, _) => format!("{:?}", s),
        Expr::Number(t, _) => t.clone(),
        Expr::Bool(b, _) => b.to_string(),
        Expr::Quote(inner, _) => format!("'{}", show(inner)),
        Expr::Spread(inner) => format!("...{}", show(inner)),
        Expr::ParamList(p) => {
            let mut parts = p.required.clone();
            if let Some(r) = &p.rest {
                parts.push(format!("...{}", r));
            }
            format!("({})", parts.join(" "))
        }
        other => format!("{:?}", other),
    }
}

fn system_with(defs: &str) -> MacroSystem {
    let mut sys = MacroSystem::new();
    sys.load_from_source(defs).unwrap();
    sys
}

#[test]
fn template_macro_substitutes_arguments() {
    let sys = system_with("(define (double x) (* x 2))");
    let out = sys.expand(read_one("(double 21)")).unwrap();
    assert_eq!(show(&out), "(* 21 2)");
}

#[test]
fn variadic_macro_spreads_its_rest_arguments() {
    let sys = system_with("(define (sum x ...rest) (+ x ...rest))");
    let out = sys.expand(read_one("(sum 1 2 3)")).unwrap();
    assert_eq!(show(&out), "(+ 1 2 3)");
}

#[test]
fn variadic_parameter_without_spread_is_a_list_form() {
    let sys = system_with("(define (sum x ...rest) (+ x (apply + rest)))");
    let out = sys.expand(read_one("(sum 1 2 3)")).unwrap();
    assert_eq!(show(&out), "(+ 1 (apply + (list 2 3)))");
}

#[test]
fn expansion_recurses_into_results_and_subforms() {
    let sys = system_with("(define (inc1 x) (+ x 1)) (define (twice y) (inc1 (inc1 y)))");
    let out = sys.expand(read_one("(print (twice 5))")).unwrap();
    assert_eq!(show(&out), "(print (+ (+ 5 1) 1))");
}

#[test]
fn wrong_argument_count_is_an_error() {
    let sys = system_with("(define (pair a b) (list a b))");
    assert!(sys.expand(read_one("(pair 1)")).is_err());
    assert!(sys.expand(read_one("(pair 1 2 3)")).is_err());
}

#[test]
fn unknown_heads_are_left_alone() {
    let sys = MacroSystem::new();
    let out = sys.expand(read_one("(frob a (b c))")).unwrap();
    assert_eq!(show(&out), "(frob a (b c))");
}

#[test]
fn runaway_expansion_hits_the_recursion_limit() {
    let sys = system_with("(define (loop x) (loop x))");
    let e = sys.expand(read_one("(loop 1)")).unwrap_err();
    assert!(e.message().contains("recursion"), "{}", e.message());
}

#[test]
fn builtin_macros_expand_paths() {
    let mut sys = MacroSystem::new();
    sys.register("set!".to_string(), MacroDefinition::Function(BuiltinMacro::SetPath));
    let out = sys.expand(read_one("(set! player.score 10)")).unwrap();
    assert_eq!(show(&out), "(core/set! player.score 10)");
    assert_eq!(show(&expand_get(&read_one("(get hp)")).unwrap()), "(core/get hp)");
    assert_eq!(show(&expand_set(&read_one("(set! (a \"b\") 1)")).unwrap()), "(core/set! a.b 1)");
}

#[test]
fn compound_assignments_read_then_write() {
    let out = expand_add(&read_one("(add! gold 5)")).unwrap();
    assert_eq!(show(&out), "(core/set! gold (+ (core/get gold) 5))");
    let out = expand_inc(&read_one("(inc! n)")).unwrap();
    assert_eq!(show(&out), "(core/set! n (+ (core/get n) 1))");
}

#[test]
fn builtin_with_too_few_arguments_fails() {
    let e = expand_set(&read_one("(set!)")).unwrap_err();
    assert!(e.message().contains("incorrect arity"), "{}", e.message());
}

#[test]
fn wrap_in_get_reads_a_path() {
    assert_eq!(show(&wrap_in_get(&read_one("hp"))), "(core/get hp)");
    assert_eq!(show(&wrap_in_get(&read_one("42"))), "(core/get 42)");
}

#[test]
fn macro_definition_parses_name_and_params() {
    let (name, template) = parse_macro_definition(&read_one("(define (greet who ...rest) (print who))")).unwrap();
    assert_eq!(name, "greet");
    assert_eq!(template.params.required, vec!["who".to_string()]);
    assert_eq!(template.params.rest, Some("rest".to_string()));
    assert!(parse_macro_definition(&read_one("(define x 1)")).is_err());
}

#[test]
fn duplicate_parameters_are_rejected() {
    assert!(check_no_duplicate_params(&["a".to_string(), "b".to_string()]).is_ok());
    assert!(check_no_duplicate_params(&["a".to_string(), "a".to_string()]).is_err());
    let params = ParamList { required: vec!["a".to_string()], rest: Some("a".to_string()), span: Span::default() };
    assert!(MacroTemplate::new(params, Box::new(read_one("a"))).is_err());
}

#[test]
fn arity_messages() {
    assert_eq!(pluralize_args(1), "");
    assert_eq!(pluralize_args(2), "s");
    let params = ParamList { required: vec!["a".to_string(), "b".to_string()], rest: Some("c".to_string()), span: Span::default() };
    let info = build_param_info_string(&params);
    assert_eq!(info, "Macro parameters: a, b ...c");
    assert_eq!(
        build_arity_context_message(1, 2, true),
        "Expected at least 2 arguments, but received 1. This macro accepts additional arguments via '...' parameter."
    );
    assert_eq!(
        build_arity_suggestion(1, 2, false, &info),
        "Add 1 more argument to match the macro definition: Macro parameters: a, b ...c"
    );
    assert_eq!(
        build_arity_suggestion(5, 2, false, "P"),
        "Remove 3 arguments - this macro only accepts 2 arguments: P"
    );
}

#[test]
fn recursion_depth_checks() {
    let span = Span { start: 1, end: 2 };
    assert!(check_recursion_depth(10, &span, "eval").is_ok());
    assert!(check_recursion_depth(1000, &span, "eval").is_err());
    assert!(check_macro_recursion_depth(10, &span, Some("m")).is_ok());
    match check_macro_recursion_depth(10000, &span, Some("m")) {
        Err(SutraMacroError::RecursionLimit { .. }) => {}
        other => panic!("unexpected {:?}", other),
    }
    match macro_recursion_limit_error(&span, "m") {
        SutraMacroError::RecursionLimit { .. } => {}
        other => panic!("unexpected {:?}", other),
    }
}

fn number_body() -> Box<AstNode> {
    Box::new(read_one("0"))
}

#[test]
fn template_parameters_must_be_identifiers() {
    let ok = ParamList { required: vec!["x".to_string(), "y".to_string()], rest: Some("rest".to_string()), span: Span::default() };
    assert!(MacroTemplate::new(ok, number_body()).is_ok());
    for bad in ["", "a.b", "12", "true", "a b", "(x"] {
        let params = ParamList { required: vec!["x".to_string(), bad.to_string()], rest: None, span: Span::default() };
        let e = MacroTemplate::new(params, number_body()).unwrap_err();
        assert_eq!(e.message(), format!("Validation error: Invalid parameter name '{}': not a valid identifier", bad));
    }
    let rest_bad = ParamList { required: vec![], rest: Some("".to_string()), span: Span::default() };
    assert!(MacroTemplate::new(rest_bad, number_body()).is_err());
    let dup = ParamList { required: vec!["".to_string(), "".to_string()], rest: None, span: Span::default() };
    assert_eq!(MacroTemplate::new(dup, number_body()).unwrap_err().message(), "Validation error: Duplicate parameter name");
}

#[test]
fn definitions_with_dotted_parameters_are_refused() {
    let e = parse_macro_definition(&read_one("(define (f a.b) a.b)")).unwrap_err();
    assert_eq!(e.message(), "Validation error: Invalid parameter name 'a.b': not a valid identifier");
}

#[test]
fn subtraction_expands_with_minus() {
    let out = sutra::std_macros::expand_sub(&read_one("(sub! hp 3)")).unwrap();
    assert_eq!(show(&out), "(core/set! hp (- (core/get hp) 3))");
}

#[test]
fn recursion_limit_errors_are_macro_errors() {
    let span = Span { start: 1, end: 2 };
    assert!(check_recursion_depth(128, &span, "Macro expansion").is_ok());
    let e = check_recursion_depth(129, &span, "Macro expansion").unwrap_err();
    assert!(matches!(&e.kind, sutra::eval_error::SutraErrorKind::Macro(m) if m == "Macro expansion recursion limit (128) exceeded."));
    assert_eq!(e.span, Some(span));
    assert_eq!(e.message(), "Macro Error: Macro expansion recursion limit (128) exceeded.");
    let m = macro_recursion_limit_error(&span, "foo");
    assert_eq!(m.message(), "Macro 'foo' recursion limit (128) exceeded");
}

#[test]
fn arity_errors_carry_the_given_source() {
    let params = ParamList { required: vec!["a".to_string()], rest: None, span: Span::default() };
    let src = SourceContext::from_file("f.sutra", "(m)");
    let e = sutra::macros::check_arity(0, &params, "m", &Span { start: 0, end: 3 }, &src).unwrap_err();
    assert_eq!(e.source_info.source.name, "f.sutra");
    assert_eq!(e.source_info.source.content, "(m)");
    assert_eq!(e.source_info.phase, "validation");
    let e2 = sutra::macros::check_arity(0, &params, "other", &Span { start: 0, end: 3 }, &src).unwrap_err();
    assert_eq!(e.message(), e2.message());
    assert_eq!(e.diagnostic_info.error_code, e2.diagnostic_info.error_code);
}
