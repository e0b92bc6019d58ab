use sutra::ast::{AstNode, Expr};
use sutra::errors::SourceContext;
use sutra::engine::MacroProcessor;
use sutra::expander::MacroEnv;
use sutra::macros::MacroSystem;
use sutra::parser::parse;
use sutra::pipeline::{build_macro_environment_and_expand, create_do_wrapper, partition_and_build_user_macros, wrap_in_do_if_needed};
use sutra::span::Span;
use sutra::std_macros::register_std_macros;

fn read(s: &str) -> Vec<AstNode> {
    parse(s, SourceContext::from_file("t", s)).unwrap()
}

fn show(n: &AstNode) -> String {
    match &*n.value {
        Expr::List(items, _) => format!("({})", items.iter().map(show).collect::<Vec<_>>().join(" ")),
        Expr::Symbol(s, _) => s.clone(),
        Expr::Path(p, _) => p.0.join("."),
        Expr::String(s, _) => format!("{:?}", s),
        Expr::Number(t, _) => t.clone(),
        other => format!("{:?}", other),
    }
}

#[test]
fn definitions_are_separated_from_code() {
    let (sys, code) = partition_and_build_user_macros(read("(define (f x) x) (print 1) (define (g) 2) 3")).unwrap();
    assert!(sys.has_macro("f"));
    assert!(sys.has_macro("g"));
    assert_eq!(code.len(), 2);
    assert_eq!(show(&code[0]), "(print 1)");
}

#[test]
fn duplicate_user_macros_fail() {
    let e = partition_and_build_user_macros(read("(define (f x) x) (define (f y) y)")).unwrap_err();
    assert_eq!(e.message(), "Validation error: Duplicate macro name 'f'");
}

#[test]
fn do_wrapper_spans_the_source() {
    let src = "a b";
    let w = create_do_wrapper(read(src), src);
    assert_eq!(w.span, Span { start: 0, end: 3 });
    assert_eq!(show(&w), "(do a b)");
    let single = wrap_in_do_if_needed(read("x"), "x");
    assert_eq!(show(&single), "x");
    assert_eq!(show(&wrap_in_do_if_needed(vec![], "")), "(do)");
}

#[test]
fn programs_expand_with_user_and_core_macros() {
    let src = "(define (bump p) (inc! p)) (bump gold) (print gold)";
    let mut core = MacroSystem::new();
    register_std_macros(&mut core);
    let mut env = MacroEnv::new(SourceContext::from_file("t", src));
    env.core_macros = core;
    let out = build_macro_environment_and_expand(read(src), src, &mut env).unwrap();
    assert_eq!(show(&out), "(do (core/set! gold (+ (core/get gold) 1)) (core/print gold))");
    assert!(env.user_macros.has_macro("bump"));
    assert_eq!(env.trace().len(), 3);
}

#[test]
fn standard_macros_are_registered() {
    let mut sys = MacroSystem::new();
    register_std_macros(&mut sys);
    let mut names = sys.macro_names();
    names.sort();
    assert_eq!(names, vec!["add!", "dec!", "del!", "exists?", "get", "inc!", "print", "set!", "sub!"]);
}

fn std_env(src: &str) -> MacroEnv {
    let mut env = MacroEnv::new(SourceContext::from_file("t", src));
    register_std_macros(&mut env.core_macros);
    env
}

#[test]
fn the_processor_expands_a_whole_program() {
    let src = "(inc! gold) (print gold)";
    let p = MacroProcessor::default();
    let (out, env) = p.partition_and_process_macros(read(src), std_env(src)).unwrap();
    assert_eq!(show(&out), "(do (core/set! gold (+ (core/get gold) 1)) (core/print gold))");
    assert_eq!(env.trace().len(), 2);
}

#[test]
fn the_processor_keeps_steps_in_an_existing_environment() {
    let src = "(get gold)";
    let p = MacroProcessor::new(false, 10);
    let mut env = std_env(src);
    let out = p.process_with_existing_macros(read(src), &mut env).unwrap();
    assert_eq!(show(&out), "(core/get gold)");
    let out = p.expand_with_macros(read("(print hp)").pop().unwrap(), &mut env).unwrap();
    assert_eq!(show(&out), "(core/print hp)");
    assert_eq!(env.trace().len(), 2);
}

#[test]
fn the_processor_reports_expansion_errors() {
    let src = "(add! gold)";
    let p = MacroProcessor::default();
    let e = p.partition_and_process_macros(read(src), std_env(src)).unwrap_err();
    assert_eq!(e.message(), "Runtime error: incorrect arity, expected at least 2, got 1");
}
