use std::sync::Arc;

use sutra::ast::{AstNode, Expr, Spanned};
use sutra::errors::SourceContext;
use sutra::eval_error::SutraErrorKind;
use sutra::evaluator::{eval_expr, eval_resume, EvalAction, Value};
use sutra::parser::parse;
use sutra::span::Span;

fn read_one(s: &str) -> AstNode {
    parse(s, SourceContext::from_file("t", s)).unwrap().pop().unwrap()
}

fn atoms() -> Vec<String> {
    vec!["+".to_string(), "do".to_string()]
}

fn failure(a: EvalAction) -> (String, String, Option<String>, Option<Span>) {
    match a {
        EvalAction::Fail(e) => match e.kind {
            SutraErrorKind::Eval(ev) => (ev.message, ev.expanded_code, ev.suggestion, e.span),
            other => panic!("unexpected kind {:?}", other),
        },
        _ => panic!("expected a failure"),
    }
}

#[test]
fn literals_are_values() {
    assert!(matches!(eval_expr(&read_one("42"), 0, 100, &atoms()), EvalAction::Done(Value::Number(t)) if t == "42"));
    assert!(matches!(eval_expr(&read_one("\"hi\""), 0, 100, &atoms()), EvalAction::Done(Value::String(s)) if s == "hi"));
    assert!(matches!(eval_expr(&read_one("true"), 0, 100, &atoms()), EvalAction::Done(Value::Bool(true))));
    assert!(matches!(eval_expr(&read_one("a.b"), 0, 100, &atoms()), EvalAction::Done(Value::Path(p)) if p.0 == vec!["a", "b"]));
    assert!(matches!(eval_expr(&read_one("()"), 0, 100, &atoms()), EvalAction::Done(Value::List(v)) if v.is_empty()));
}

#[test]
fn a_list_headed_by_an_atom_calls_it() {
    match eval_expr(&read_one("(+ 1 2)"), 3, 100, &atoms()) {
        EvalAction::CallAtom { name, args, span, depth } => {
            assert_eq!(name, "+");
            assert_eq!(args.len(), 2);
            assert_eq!(span, Span { start: 0, end: 7 });
            assert_eq!(depth, 3);
        }
        _ => panic!("expected an atom call"),
    }
}

#[test]
fn unknown_atoms_and_bare_symbols_fail() {
    let (msg, code, sugg, span) = failure(eval_expr(&read_one("(foo 1)"), 0, 100, &atoms()));
    assert_eq!(msg, "Atom 'foo' not found.");
    assert_eq!(code, "(foo 1)");
    assert_eq!(sugg, None);
    assert_eq!(span, Some(Span { start: 1, end: 4 }));
    let (msg, _, sugg, _) = failure(eval_expr(&read_one("hp"), 0, 100, &atoms()));
    assert_eq!(msg, "Unexpected bare symbol 'hp' found during evaluation. All value lookups must be explicit `(get ...)` calls.");
    assert_eq!(sugg, Some("Did you mean to use `(get ...)`?".to_string()));
    let (msg, _, _, _) = failure(eval_expr(&read_one("(1 2)"), 0, 100, &atoms()));
    assert_eq!(msg, "The first element of a list to be evaluated must be a symbol naming an atom.");
}

#[test]
fn evaluation_stops_beyond_the_depth_limit() {
    let (msg, _, _, _) = failure(eval_expr(&read_one("1"), 101, 100, &atoms()));
    assert_eq!(msg, "Recursion depth limit exceeded.");
    assert!(matches!(eval_expr(&read_one("1"), 100, 100, &atoms()), EvalAction::Done(_)));
}

#[test]
fn quoted_forms_become_values() {
    match eval_expr(&read_one("'(a 1 true \"s\" b.c)"), 0, 100, &atoms()) {
        EvalAction::Done(Value::List(vs)) => {
            assert_eq!(vs.len(), 5);
            assert!(matches!(&vs[0], Value::String(s) if s == "a"));
            assert!(matches!(&vs[1], Value::Number(t) if t == "1"));
            assert!(matches!(&vs[2], Value::Bool(true)));
            assert!(matches!(&vs[3], Value::String(s) if s == "s"));
            assert!(matches!(&vs[4], Value::Nil));
        }
        _ => panic!("expected a list"),
    }
    assert!(matches!(eval_expr(&read_one("'x"), 0, 100, &atoms()), EvalAction::Done(Value::String(s)) if s == "x"));
}

fn if_node(c: &str, t: &str, e: &str) -> AstNode {
    let span = Span { start: 0, end: 9 };
    Spanned {
        value: Arc::new(Expr::If {
            condition: Box::new(read_one(c)),
            then_branch: Box::new(read_one(t)),
            else_branch: Box::new(read_one(e)),
            span,
        }),
        span,
    }
}

#[test]
fn an_if_evaluates_its_condition_then_one_branch() {
    match eval_expr(&if_node("true", "1", "2"), 4, 100, &atoms()) {
        EvalAction::Eval { frame, expr, depth } => {
            assert_eq!(depth, 5);
            assert!(matches!(&*expr.value, Expr::Bool(true, _)));
            assert_eq!(frame.depth, 4);
            assert!(matches!(eval_resume(frame, &Value::Bool(false), 100, &atoms()), EvalAction::Done(Value::Number(t)) if t == "2"));
        }
        _ => panic!("expected the condition to be evaluated first"),
    }
    match eval_expr(&if_node("true", "1", "2"), 0, 100, &atoms()) {
        EvalAction::Eval { frame, .. } => {
            let (msg, code, _, _) = failure(eval_resume(frame, &Value::Nil, 100, &atoms()));
            assert_eq!(msg, "The condition for an `if` expression must evaluate to a Boolean.");
            assert_eq!(code, "true");
        }
        _ => panic!("expected the condition to be evaluated first"),
    }
}
