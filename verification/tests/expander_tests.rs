use sutra::ast::{AstNode, Expr};
use sutra::errors::SourceContext;
use sutra::expander::{expand_macros_recursively, expand_template, substitute_template, MacroEnv};
use sutra::loader::parse_macros_from_source;
use sutra::macros::{MacroDefinition, MacroProvenance};
use sutra::parser::parse;
use sutra::std_macros::BuiltinMacro;

fn read_one(s: &str) -> AstNode {
    let mut v = parse(s, SourceContext::from_file("t", s)).unwrap();
    v.pop().unwrap()
}

fn show(n: &AstNode) -> String {
    match &*n.value {
        Expr::List(items, _) => format!("({})", items.iter().map(show).collect::<Vec<_>>().join(" ")),
        Expr::Symbol(s, _) => s.clone(),
        Expr::Path(p, _) => p.0.join("."),
        Expr::String(s, _) => format!("{:?}", s),
        Expr::Number(t, _) => t.clone(),
        Expr::Bool(b, _) => b.to_string(),
        Expr::Quote(inner, _) => format!("'{}", show(inner)),
        Expr::Spread(inner) => format!("...{}", show(inner)),
        other => format!("{:?}", other),
    }
}

fn env_with(defs: &str) -> MacroEnv {
    let mut env = MacroEnv::new(SourceContext::from_file("t", defs));
    for (name, template) in parse_macros_from_source(defs).unwrap() {
        env = env.with_user_macro(name, MacroDefinition::Template(template));
    }
    env
}

#[test]
fn each_expansion_step_is_recorded() {
    let mut env = env_with("(define (inc1 x) (+ x 1)) (define (twice y) (inc1 (inc1 y)))");
    let out = expand_macros_recursively(read_one("(twice 5)"), &mut env).unwrap();
    assert_eq!(show(&out), "(+ (+ 5 1) 1)");
    let names: Vec<&str> = env.trace().iter().map(|s| s.macro_name.as_str()).collect();
    assert_eq!(names, vec!["twice", "inc1", "inc1"]);
    assert!(env.trace().iter().all(|s| s.provenance == MacroProvenance::User));
    assert_eq!(show(&env.trace()[0].input), "(twice 5)");
    assert_eq!(show(&env.trace()[0].output), "(inc1 (inc1 5))");
    env.clear_trace();
    assert!(env.trace().is_empty());
}

#[test]
fn user_macros_shadow_core_macros() {
    let mut env = env_with("(define (get x) (mine x))");
    env.core_macros.register("get".to_string(), MacroDefinition::Function(BuiltinMacro::GetPath));
    env.core_macros.register("set!".to_string(), MacroDefinition::Function(BuiltinMacro::SetPath));
    let out = expand_macros_recursively(read_one("(set! a (get b))"), &mut env).unwrap();
    assert_eq!(show(&out), "(core/set! a (mine b))");
    let steps: Vec<(String, MacroProvenance)> =
        env.trace().iter().map(|s| (s.macro_name.clone(), s.provenance)).collect();
    assert_eq!(
        steps,
        vec![("set!".to_string(), MacroProvenance::Core), ("get".to_string(), MacroProvenance::User)]
    );
    match env.lookup_macro("get") {
        Some((MacroProvenance::User, _)) => {}
        other => panic!("unexpected {:?}", other.map(|p| p.0)),
    }
}

#[test]
fn quoted_forms_are_expanded_but_not_substituted() {
    let mut env = env_with("(define (q x) '(x (inc x))) (define (inc v) (+ v 1))");
    let out = expand_macros_recursively(read_one("(q 7)"), &mut env).unwrap();
    assert_eq!(show(&out), "'(x (+ x 1))");
}

#[test]
fn variadic_arguments_are_forwarded_one_by_one() {
    let mut env = env_with("(define (str+ ...args) (core/str+ ...args))");
    let out = expand_macros_recursively(read_one("(str+ \"a\" \"b\" \"c\")"), &mut env).unwrap();
    assert_eq!(show(&out), "(core/str+ \"a\" \"b\" \"c\")");
    let out = expand_macros_recursively(read_one("(str+)"), &mut env).unwrap();
    assert_eq!(show(&out), "(core/str+)");
}

#[test]
fn spread_of_a_bound_list_splices_its_items() {
    let mut env = env_with("(define (fwd x) (g ...x))");
    let out = expand_macros_recursively(read_one("(fwd (h 1 2))"), &mut env).unwrap();
    assert_eq!(show(&out), "(g h 1 2)");
}

#[test]
fn spread_of_a_non_list_is_a_type_error() {
    let mut env = env_with("(define (bad x) (f ...x))");
    let e = expand_macros_recursively(read_one("(bad 1)"), &mut env).unwrap_err();
    assert_eq!(e.message(), "Type error: expected list, got Number");
}

#[test]
fn too_many_expansions_fail_at_the_limit() {
    let mut env = env_with("(define (spin x) (spin x))");
    let e = expand_macros_recursively(read_one("(spin 1)"), &mut env).unwrap_err();
    assert_eq!(e.message(), "Validation error: Macro recursion limit of 128 exceeded (in substitution)");
    // The template body is a list, so its items are substituted one level
    // deeper than the call: the last expansion that succeeds is the 127th.
    assert_eq!(env.trace().len(), 127);
}

#[test]
fn arity_is_checked_before_substitution() {
    let mut env = env_with("(define (pair a b) (list a b))");
    let e = expand_macros_recursively(read_one("(pair 1)"), &mut env).unwrap_err();
    assert_eq!(e.message(), "Runtime error: incorrect arity, expected at least 2, got 1");
    let e = expand_macros_recursively(read_one("(pair 1 2 3)"), &mut env).unwrap_err();
    assert_eq!(e.message(), "Runtime error: incorrect arity, expected 2, got 3");
}

#[test]
fn expand_template_substitutes_directly() {
    let defs = parse_macros_from_source("(define (swap a b) (list b a))").unwrap();
    let out = expand_template(&defs[0].1, &read_one("(swap 1 2)"), &SourceContext::from_file("t", ""), 0).unwrap();
    assert_eq!(show(&out), "(list 2 1)");
    let e = expand_template(&defs[0].1, &read_one("x"), &SourceContext::from_file("t", ""), 0).unwrap_err();
    assert!(e.message().contains("Macro call must be a list expression"));
}

#[test]
fn every_recorded_step_is_a_call_of_its_macro() {
    let mut env = env_with("(define (inc1 x) (+ x 1)) (define (twice y) (inc1 (inc1 y)))");
    let _ = expand_macros_recursively(read_one("(list (twice 5) (inc1 2))"), &mut env).unwrap();
    assert_eq!(env.trace().len(), 4);
    for step in env.trace() {
        match &*step.input.value {
            Expr::List(items, _) => assert_eq!(show(&items[0]), step.macro_name),
            _ => panic!("a step's input is a call"),
        }
    }
}

#[test]
fn a_head_that_expands_to_a_macro_name_is_left_as_a_call() {
    let mut env = env_with("(define (id x) x)");
    env.core_macros.register("get".to_string(), MacroDefinition::Function(BuiltinMacro::GetPath));
    let out = expand_macros_recursively(read_one("((id get) gold)"), &mut env).unwrap();
    assert_eq!(show(&out), "(get gold)");
    assert!(env.trace().iter().any(|s| show(&s.output) == "get"));
    let out = expand_macros_recursively(read_one("(list (id (get gold)))"), &mut env).unwrap();
    assert_eq!(show(&out), "(list (core/get gold))");
}

#[test]
fn substitution_replaces_splices_and_keeps_quotes() {
    let source = SourceContext::from_file("t", "");
    let bindings = vec![
        ("x".to_string(), read_one("7")),
        ("xs".to_string(), read_one("(a b)")),
        ("x".to_string(), read_one("8")),
    ];
    let out = substitute_template(&read_one("(f x ...xs 'x)"), &bindings, &source, 0).unwrap();
    assert_eq!(show(&out), "(f 8 a b 'x)");
    let e = substitute_template(&read_one("(f ...x)"), &bindings, &source, 0).unwrap_err();
    assert_eq!(e.message(), "Type error: expected list, got Number");
    let e = substitute_template(&read_one("x"), &bindings, &source, 129).unwrap_err();
    assert_eq!(e.message(), "Validation error: Macro recursion limit of 128 exceeded (in substitution)");
}
