//! Errors of macro expansion: recursion limits, arity mismatches with
//! actionable suggestions, and wrapping of underlying errors.
use vstd::prelude::*;
use crate::span::Span;
use crate::ast::ParamList;
use crate::errors::{SutraError, ErrorKind, SourceContext, SourceInfo, DiagnosticInfo, message_of, general_fault, general_error};
use crate::text::{push_str, push_decimal, decimal};
use crate::eval_error::{SutraError as EngineError, SutraErrorKind};

verus! {

/// The deepest nesting of macro expansions that the expansion checks allow.
pub const MAX_MACRO_RECURSION_DEPTH: usize = 128;

/// A macro expansion error.
#[derive(Debug, Clone)]
pub enum SutraMacroError {
    /// A macro expansion failed because of an underlying error.
    Expansion {
        span: Span,
        macro_name: String,
        message: String,
        source_error_kind: Option<ErrorKind>,
        suggestion: Option<String>,
        source_span: Option<Span>,
    },
    /// Too many nested macro expansions.
    RecursionLimit { span: Span, macro_name: String },
}

/// The names of a parameter list joined by `, `.
pub open spec fn join_names(names: Seq<Seq<char>>) -> Seq<char>
    decreases names.len(),
{
    if names.len() == 0 {
        Seq::empty()
    } else if names.len() == 1 {
        names[0]
    } else {
        join_names(names.drop_last()) + ", "@ + names.last()
    }
}

/// `Macro parameters: a, b ...rest`.
pub open spec fn param_info_spec(required: Seq<Seq<char>>, rest: Option<Seq<char>>) -> Seq<char> {
    "Macro parameters: "@ + join_names(required) + match rest {
        Some(r) => " ..."@ + r,
        None => Seq::empty(),
    }
}

/// The plural suffix for `count` arguments.
pub open spec fn plural_spec(count: nat) -> Seq<char> {
    if count == 1 { Seq::empty() } else { "s"@ }
}

/// The sentence that describes an arity mismatch.
pub open spec fn arity_context_spec(args_len: nat, required_len: nat, has_variadic: bool) -> Seq<char> {
    if has_variadic {
        "Expected at least "@ + decimal(required_len) + " arguments, but received "@ + decimal(args_len)
            + ". This macro accepts additional arguments via '...' parameter."@
    } else {
        "Expected exactly "@ + decimal(required_len) + " arguments, but received "@ + decimal(args_len)
            + ". This macro requires a specific number of arguments."@
    }
}

/// The suggestion for an arity mismatch.
pub open spec fn arity_suggestion_spec(args_len: nat, required_len: nat, has_variadic: bool, param_info: Seq<char>) -> Seq<char> {
    if args_len < required_len {
        let missing = (required_len - args_len) as nat;
        "Add "@ + decimal(missing) + " more argument"@ + plural_spec(missing)
            + " to match the macro definition: "@ + param_info
    } else if args_len > required_len && !has_variadic {
        let extra = (args_len - required_len) as nat;
        "Remove "@ + decimal(extra) + " argument"@ + plural_spec(extra) + " - this macro only accepts "@
            + decimal(required_len) + " arguments: "@ + param_info
    } else {
        "Check the macro definition and ensure arguments match: "@ + param_info
    }
}

/// The text of a macro error: `Macro 'name' expansion failed: message`
/// (then the suggestion on a line of its own, where there is one), or
/// `Macro 'name' recursion limit (128) exceeded`.
pub open spec fn macro_error_text(e: SutraMacroError) -> Seq<char> {
    match e {
        SutraMacroError::Expansion { macro_name, message, suggestion, .. } =>
            "Macro '"@ + macro_name@ + "' expansion failed: "@ + message@ + match suggestion {
                Some(x) => "\nSuggestion: "@ + x@,
                None => Seq::empty(),
            },
        SutraMacroError::RecursionLimit { macro_name, .. } =>
            "Macro '"@ + macro_name@ + "' recursion limit ("@ + decimal(MAX_MACRO_RECURSION_DEPTH as nat) + ") exceeded"@,
    }
}

impl SutraMacroError {
    /// The human-readable text of this error.
    pub fn message(&self) -> (r: String)
        ensures
            r@ == macro_error_text(*self),
    {
        let mut s = String::new();
        match self {
            SutraMacroError::Expansion { macro_name, message, suggestion, .. } => {
                push_str(&mut s, "Macro '");
                push_str(&mut s, macro_name.as_str());
                push_str(&mut s, "' expansion failed: ");
                push_str(&mut s, message.as_str());
                match suggestion {
                    Some(x) => {
                        push_str(&mut s, "\nSuggestion: ");
                        push_str(&mut s, x.as_str());
                    },
                    None => {},
                }
            },
            SutraMacroError::RecursionLimit { macro_name, .. } => {
                push_str(&mut s, "Macro '");
                push_str(&mut s, macro_name.as_str());
                push_str(&mut s, "' recursion limit (");
                push_decimal(&mut s, MAX_MACRO_RECURSION_DEPTH);
                push_str(&mut s, ") exceeded");
            },
        }
        assert(s@ =~= macro_error_text(*self));
        s
    }
}

/// The recursion-limit error for the macro `macro_name` at `span`.
pub fn macro_recursion_limit_error(span: &Span, macro_name: &str) -> (r: SutraMacroError)
    ensures
        r matches SutraMacroError::RecursionLimit { span: s, macro_name: m } && s == *span && m@ == macro_name@,
{
    SutraMacroError::RecursionLimit { span: *span, macro_name: macro_name.to_string() }
}

/// Wraps an error that made the expansion of `macro_name` fail: the message
/// is `Macro expansion failed: <message> (at start:end)`, and the help text
/// of the error becomes the suggestion.
pub fn expansion_error_from_sutra_error(span: &Span, macro_name: &str, error: SutraError) -> (r: SutraMacroError)
    ensures
        r matches SutraMacroError::Expansion { span: s, macro_name: m, message: msg, source_error_kind: k,
            suggestion: sug, source_span: ss } && s == *span && m@ == macro_name@
            && msg@ == "Macro expansion failed: "@ + message_of(error.kind) + " (at "@
                + decimal(error.source_info.primary_span.start as nat) + ":"@
                + decimal(error.source_info.primary_span.end as nat) + ")"@
            && k == Some(error.kind)
            && sug == error.diagnostic_info.help
            && ss == Some(error.source_info.primary_span),
{
    let mut message = String::new();
    push_str(&mut message, "Macro expansion failed: ");
    let inner = error.message();
    push_str(&mut message, inner.as_str());
    push_str(&mut message, " (at ");
    push_decimal(&mut message, error.source_info.primary_span.start);
    push_str(&mut message, ":");
    push_decimal(&mut message, error.source_info.primary_span.end);
    push_str(&mut message, ")");
    let primary = error.source_info.primary_span;
    SutraMacroError::Expansion {
        span: *span,
        macro_name: macro_name.to_string(),
        message,
        source_error_kind: Some(error.kind),
        suggestion: error.diagnostic_info.help,
        source_span: Some(primary),
    }
}

/// The sentence describing an arity mismatch.
pub fn build_arity_context_message(args_len: usize, required_len: usize, has_variadic: bool) -> (r: String)
    ensures
        r@ == arity_context_spec(args_len as nat, required_len as nat, has_variadic),
{
    let mut s = String::new();
    if has_variadic {
        push_str(&mut s, "Expected at least ");
        push_decimal(&mut s, required_len);
        push_str(&mut s, " arguments, but received ");
        push_decimal(&mut s, args_len);
        push_str(&mut s, ". This macro accepts additional arguments via '...' parameter.");
    } else {
        push_str(&mut s, "Expected exactly ");
        push_decimal(&mut s, required_len);
        push_str(&mut s, " arguments, but received ");
        push_decimal(&mut s, args_len);
        push_str(&mut s, ". This macro requires a specific number of arguments.");
    }
    s
}

/// `Macro parameters: ` followed by the parameter names.
pub fn build_param_info_string(params: &ParamList) -> (r: String)
    ensures
        r@ == param_info_spec(params@.required, params@.rest),
{
    let mut s = String::new();
    push_str(&mut s, "Macro parameters: ");
    let mut i: usize = 0;
    while i < params.required.len()
        invariant
            i <= params.required@.len(),
            s@ == "Macro parameters: "@ + join_names(params@.required.subrange(0, i as int)),
        decreases params.required@.len() - i,
    {
        let ghost before = s@;
        if i > 0 {
            push_str(&mut s, ", ");
        }
        push_str(&mut s, params.required[i].as_str());
        proof {
            let sub = params@.required.subrange(0, i + 1);
            assert(sub.drop_last() =~= params@.required.subrange(0, i as int));
            assert(sub.last() == params.required@[i as int]@);
            if i == 0 {
                assert(params@.required.subrange(0, 0) =~= Seq::<Seq<char>>::empty());
                assert(s@ =~= "Macro parameters: "@ + join_names(sub));
            } else {
                assert(s@ =~= "Macro parameters: "@ + join_names(sub));
            }
        }
        i = i + 1;
    }
    proof {
        assert(params@.required.subrange(0, params@.required.len() as int) =~= params@.required);
    }
    let ghost before = s@;
    match &params.rest {
        Some(rest) => {
            push_str(&mut s, " ...");
            push_str(&mut s, rest.as_str());
            proof { assert(s@ =~= before + (" ..."@ + rest@)); }
        },
        None => {
            proof { assert(s@ =~= before + Seq::<char>::empty()); }
        },
    }
    s
}

/// The plural suffix for `count` arguments: empty for one, `s` otherwise.
pub fn pluralize_args(count: usize) -> (r: &'static str)
    ensures
        r@ == plural_spec(count as nat),
{
    proof { reveal_strlit(""); }
    if count == 1 { "" } else { "s" }
}

/// A suggestion for fixing a macro call with the wrong number of arguments.
pub fn build_arity_suggestion(args_len: usize, required_len: usize, has_variadic: bool, param_info: &str) -> (r: String)
    ensures
        r@ == arity_suggestion_spec(args_len as nat, required_len as nat, has_variadic, param_info@),
{
    let mut s = String::new();
    if args_len < required_len {
        let missing = required_len - args_len;
        push_str(&mut s, "Add ");
        push_decimal(&mut s, missing);
        push_str(&mut s, " more argument");
        push_str(&mut s, pluralize_args(missing));
        push_str(&mut s, " to match the macro definition: ");
        push_str(&mut s, param_info);
        return s;
    }
    if args_len > required_len && !has_variadic {
        let extra = args_len - required_len;
        push_str(&mut s, "Remove ");
        push_decimal(&mut s, extra);
        push_str(&mut s, " argument");
        push_str(&mut s, pluralize_args(extra));
        push_str(&mut s, " - this macro only accepts ");
        push_decimal(&mut s, required_len);
        push_str(&mut s, " arguments: ");
        push_str(&mut s, param_info);
        return s;
    }
    push_str(&mut s, "Check the macro definition and ensure arguments match: ");
    push_str(&mut s, param_info);
    s
}

/// A detailed arity error for a macro call: the message holds the mismatch
/// sentence and the parameters, the help text a suggestion.
pub fn enhanced_macro_arity_error(args_len: usize, params: &ParamList, span: &Span) -> (r: SutraError)
    ensures
        r.fault() == general_fault("Macro arity mismatch\n\n"@
            + arity_context_spec(args_len as nat, params@.required.len(), params@.rest is Some)
            + "\n\n"@ + param_info_spec(params@.required, params@.rest), *span),
        r.diagnostic_info.help matches Some(h) && h@ == arity_suggestion_spec(args_len as nat,
            params@.required.len(), params@.rest is Some, param_info_spec(params@.required, params@.rest)),
{
    let required_len = params.required.len();
    let has_variadic = params.rest.is_some();
    let context_message = build_arity_context_message(args_len, required_len, has_variadic);
    let param_info = build_param_info_string(params);
    let suggestion = build_arity_suggestion(args_len, required_len, has_variadic, param_info.as_str());
    let mut full = String::new();
    push_str(&mut full, "Macro arity mismatch\n\n");
    push_str(&mut full, context_message.as_str());
    push_str(&mut full, "\n\n");
    push_str(&mut full, param_info.as_str());
    let e = general_error(full.as_str(), SourceContext::from_file("macro", "arity"), "macro_expansion", *span);
    e.with_suggestion(suggestion)
}

/// Fails with the error `error_fn` builds once `depth` exceeds the limit.
pub fn check_recursion_depth_generic<E, F: FnOnce(&Span) -> E>(depth: usize, span: &Span, error_fn: F) -> (r: Result<(), E>)
    requires
        depth > MAX_MACRO_RECURSION_DEPTH ==> error_fn.requires((span,)),
    ensures
        depth <= MAX_MACRO_RECURSION_DEPTH ==> r is Ok,
        depth > MAX_MACRO_RECURSION_DEPTH ==> (r matches Err(e) && error_fn.ensures((span,), e)),
{
    if depth > MAX_MACRO_RECURSION_DEPTH {
        return Err(error_fn(span));
    }
    Ok(())
}

/// Fails with the macro error `<context> recursion limit (128) exceeded.`
/// at `span` once `depth` exceeds the limit.
pub fn check_recursion_depth(depth: usize, span: &Span, context: &str) -> (r: Result<(), EngineError>)
    ensures
        depth <= MAX_MACRO_RECURSION_DEPTH ==> r is Ok,
        depth > MAX_MACRO_RECURSION_DEPTH ==> (r matches Err(e)
            && e.kind matches SutraErrorKind::Macro(m) && m@ == context@ + " recursion limit (128) exceeded."@
            && e.span == Some(*span)),
{
    if depth > MAX_MACRO_RECURSION_DEPTH {
        let mut msg = String::new();
        push_str(&mut msg, context);
        push_str(&mut msg, " recursion limit (");
        push_decimal(&mut msg, MAX_MACRO_RECURSION_DEPTH);
        push_str(&mut msg, ") exceeded.");
        proof {
            reveal_strlit("128");
            assert(decimal(128) =~= "128"@) by {
                assert(decimal(12) =~= seq!['1', '2']) by { assert(decimal(1) =~= seq!['1']); }
            }
            assert(msg@ =~= context@ + " recursion limit (128) exceeded."@) by {
                reveal_strlit(" recursion limit (");
                reveal_strlit(") exceeded.");
                reveal_strlit(" recursion limit (128) exceeded.");
            }
        }
        return Err(EngineError { kind: SutraErrorKind::Macro(msg), span: Some(*span) });
    }
    Ok(())
}

/// Fails with a recursion-limit macro error, naming the macro (or
/// `<unknown>`), once `depth` exceeds the limit.
pub fn check_macro_recursion_depth(depth: usize, span: &Span, macro_name: Option<&str>) -> (r: Result<(), SutraMacroError>)
    ensures
        depth <= MAX_MACRO_RECURSION_DEPTH ==> r is Ok,
        depth > MAX_MACRO_RECURSION_DEPTH ==> (r matches Err(SutraMacroError::RecursionLimit { span: s, macro_name: m })
            && s == *span && m@ == (match macro_name { Some(n) => n@, None => "<unknown>"@ })),
{
    if depth > MAX_MACRO_RECURSION_DEPTH {
        let name = match macro_name {
            Some(n) => n,
            None => "<unknown>",
        };
        return Err(macro_recursion_limit_error(span, name));
    }
    Ok(())
}

} // verus!
