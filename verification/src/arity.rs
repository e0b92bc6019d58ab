//! Argument-count checks shared by atoms and special forms.
use vstd::prelude::*;
use crate::span::Span;
use crate::ast::AstNode;
use crate::errors::{SourceContext, SutraError, ErrorKind, ValidationContext};
use crate::text::{push_str, push_decimal, decimal, decimal_string};

verus! {

/// What an argument-count check needs of the evaluation in progress: the
/// source being evaluated and the span of the form being checked.
pub struct EvaluationContext {
    pub source: SourceContext,
    pub current_span: Span,
}

/// Whether `e` reports that `expected` arguments were expected and `actual`
/// given, at `span`, in the evaluation phase, with the help text `help`.
pub open spec fn is_arity_error(e: SutraError, expected: Seq<char>, actual: nat, span: Span, help: Seq<char>) -> bool {
    &&& e.kind matches ErrorKind::ArityMismatch { expected: x, actual: a } && x@ == expected && a == actual
    &&& e.source_info.primary_span == span
    &&& e.source_info.phase@ == "evaluation"@
    &&& e.diagnostic_info.help matches Some(h) && h@ == help
}

impl EvaluationContext {
    /// A context for evaluating `source` at `current_span`.
    pub fn new(source: SourceContext, current_span: Span) -> (r: EvaluationContext)
        ensures
            r.source == source,
            r.current_span == current_span,
    {
        EvaluationContext { source, current_span }
    }

    /// An arity error at the current span: `expected` arguments were
    /// expected and `actual` given, with the help text `help`.
    pub fn arity_mismatch(&self, expected: &str, actual: usize, help: String) -> (r: SutraError)
        ensures
            is_arity_error(r, expected@, actual as nat, self.current_span, help@),
    {
        let ctx = ValidationContext::new(self.source.copy(), "evaluation".to_string());
        ctx.arity_mismatch(expected, actual, self.current_span).with_suggestion(help)
    }
}

fn help_text(atom_name: &str, middle: &str, count: usize, tail: &str) -> (r: String)
    ensures
        r@ == atom_name@ + middle@ + decimal(count as nat) + tail@,
{
    let mut s = String::new();
    push_str(&mut s, atom_name);
    push_str(&mut s, middle);
    push_decimal(&mut s, count);
    push_str(&mut s, tail);
    s
}

/// Checks that there are exactly `expected` arguments.
pub fn validate_arity<T>(args: &[T], expected: usize, atom_name: &str, ctx: &EvaluationContext) -> (r: Result<(), SutraError>)
    ensures
        r is Ok <==> args@.len() == expected,
        r matches Err(e) ==> is_arity_error(e, decimal(expected as nat), args@.len(), ctx.current_span,
            atom_name@ + " expects "@ + decimal(expected as nat) + " arguments"@),
{
    if args.len() != expected {
        let exp = decimal_string(expected);
        let help = help_text(atom_name, " expects ", expected, " arguments");
        return Err(ctx.arity_mismatch(exp.as_str(), args.len(), help));
    }
    Ok(())
}

/// Checks that there are at least `min_expected` arguments.
pub fn validate_min_arity<T>(args: &[T], min_expected: usize, atom_name: &str, ctx: &EvaluationContext) -> (r: Result<(), SutraError>)
    ensures
        r is Ok <==> args@.len() >= min_expected,
        r matches Err(e) ==> is_arity_error(e, "at least "@ + decimal(min_expected as nat), args@.len(), ctx.current_span,
            atom_name@ + " expects at least "@ + decimal(min_expected as nat) + " arguments"@),
{
    if args.len() < min_expected {
        let mut exp = String::new();
        push_str(&mut exp, "at least ");
        push_decimal(&mut exp, min_expected);
        let help = help_text(atom_name, " expects at least ", min_expected, " arguments");
        return Err(ctx.arity_mismatch(exp.as_str(), args.len(), help));
    }
    Ok(())
}

/// Checks that there is exactly one argument.
pub fn validate_unary_arity<T>(args: &[T], atom_name: &str, ctx: &EvaluationContext) -> (r: Result<(), SutraError>)
    ensures
        r is Ok <==> args@.len() == 1,
        r matches Err(e) ==> is_arity_error(e, decimal(1), args@.len(), ctx.current_span,
            atom_name@ + " expects "@ + decimal(1) + " arguments"@),
{
    validate_arity(args, 1, atom_name, ctx)
}

/// Checks that there are exactly two arguments.
pub fn validate_binary_arity<T>(args: &[T], atom_name: &str, ctx: &EvaluationContext) -> (r: Result<(), SutraError>)
    ensures
        r is Ok <==> args@.len() == 2,
        r matches Err(e) ==> is_arity_error(e, decimal(2), args@.len(), ctx.current_span,
            atom_name@ + " expects "@ + decimal(2) + " arguments"@),
{
    validate_arity(args, 2, atom_name, ctx)
}

/// Checks that there are at least two arguments.
pub fn validate_sequence_arity<T>(args: &[T], atom_name: &str, ctx: &EvaluationContext) -> (r: Result<(), SutraError>)
    ensures
        r is Ok <==> args@.len() >= 2,
        r matches Err(e) ==> is_arity_error(e, "at least 2"@, args@.len(), ctx.current_span,
            atom_name@ + " expects at least 2 arguments"@),
{
    if args.len() < 2 {
        let mut help = String::new();
        push_str(&mut help, atom_name);
        push_str(&mut help, " expects at least 2 arguments");
        return Err(ctx.arity_mismatch("at least 2", args.len(), help));
    }
    Ok(())
}

/// Checks that the number of arguments is even.
pub fn validate_even_arity<T>(args: &[T], atom_name: &str, ctx: &EvaluationContext) -> (r: Result<(), SutraError>)
    ensures
        r is Ok <==> args@.len() % 2 == 0,
        r matches Err(e) ==> is_arity_error(e, "an even number of arguments"@, args@.len(), ctx.current_span,
            atom_name@ + " expects an even number of arguments, got "@ + decimal(args@.len())),
{
    if args.len() % 2 != 0 {
        let mut help = String::new();
        push_str(&mut help, atom_name);
        push_str(&mut help, " expects an even number of arguments, got ");
        push_decimal(&mut help, args.len());
        return Err(ctx.arity_mismatch("an even number of arguments", args.len(), help));
    }
    Ok(())
}

/// Checks that there are no arguments.
pub fn validate_zero_arity<T>(args: &[T], atom_name: &str, ctx: &EvaluationContext) -> (r: Result<(), SutraError>)
    ensures
        r is Ok <==> args@.len() == 0,
        r matches Err(e) ==> is_arity_error(e, "0"@, args@.len(), ctx.current_span,
            atom_name@ + " expects no arguments"@),
{
    if args.len() != 0 {
        let mut help = String::new();
        push_str(&mut help, atom_name);
        push_str(&mut help, " expects no arguments");
        return Err(ctx.arity_mismatch("0", args.len(), help));
    }
    Ok(())
}

/// Checks that a special form has exactly `expected` arguments.
pub fn validate_special_form_arity(args: &[AstNode], expected: usize, atom_name: &str, ctx: &EvaluationContext) -> (r: Result<(), SutraError>)
    ensures
        r is Ok <==> args@.len() == expected,
        r matches Err(e) ==> is_arity_error(e, decimal(expected as nat), args@.len(), ctx.current_span,
            atom_name@ + " expects "@ + decimal(expected as nat) + " arguments"@),
{
    validate_arity(args, expected, atom_name, ctx)
}

/// Checks that a special form has at least `min_expected` arguments.
pub fn validate_special_form_min_arity(args: &[AstNode], min_expected: usize, atom_name: &str, ctx: &EvaluationContext) -> (r: Result<(), SutraError>)
    ensures
        r is Ok <==> args@.len() >= min_expected,
        r matches Err(e) ==> is_arity_error(e, "at least "@ + decimal(min_expected as nat), args@.len(), ctx.current_span,
            atom_name@ + " expects at least "@ + decimal(min_expected as nat) + " arguments"@),
{
    validate_min_arity(args, min_expected, atom_name, ctx)
}

} // verus!
