//! The error record of evaluation, the kinds of engine errors, and the
//! engine error itself: a kind with an optional span.
use vstd::prelude::*;
use crate::span::Span;
use crate::text::push_str;

verus! {

/// An evaluation failure: its message, the expanded code being run, the
/// author's original code where known, and a suggestion where there is one.
#[derive(Debug, Clone)]
pub struct EvalError {
    pub message: String,
    pub expanded_code: String,
    pub original_code: Option<String>,
    pub suggestion: Option<String>,
}

/// The kinds of engine error: user-facing parse, macro, validation,
/// evaluation and I/O errors, and internal parser errors.
#[derive(Debug, Clone)]
pub enum SutraErrorKind {
    Parse(String),
    Macro(String),
    Validation(String),
    Eval(EvalError),
    Io(String),
    MalformedAst(String),
    InternalParse(String),
}

/// An engine error: what kind of failure, with its message, and where.
#[derive(Debug, Clone)]
pub struct SutraError {
    pub kind: SutraErrorKind,
    pub span: Option<Span>,
}

/// The optional part `prefix` + `s` + a newline, when `o` holds `s`.
pub open spec fn optional_line(prefix: Seq<char>, o: Option<String>) -> Seq<char> {
    match o {
        Some(x) => prefix + x@ + "\n"@,
        None => Seq::empty(),
    }
}

/// The text of an engine error of kind `k`.
pub open spec fn engine_message(k: SutraErrorKind) -> Seq<char> {
    match k {
        SutraErrorKind::Parse(s) => "Parse Error: "@ + s@,
        SutraErrorKind::Macro(s) => "Macro Error: "@ + s@,
        SutraErrorKind::Validation(s) => "Validation Error: "@ + s@,
        SutraErrorKind::Io(s) => "IO Error: "@ + s@,
        SutraErrorKind::Eval(e) => "Evaluation Error: "@ + e.message@ + "\n"@
            + optional_line("\nSuggestion: "@, e.suggestion)
            + optional_line("\nOriginal Code:\n  "@, e.original_code)
            + "\nExpanded Code:\n  "@ + e.expanded_code@,
        SutraErrorKind::MalformedAst(s) => "Malformed AST Error: "@ + s@,
        SutraErrorKind::InternalParse(s) => "Internal Parse Error: "@ + s@,
    }
}

impl SutraError {
    /// The human-readable text of this error.
    pub fn message(&self) -> (r: String)
        ensures
            r@ == engine_message(self.kind),
    {
        let mut s = String::new();
        match &self.kind {
            SutraErrorKind::Parse(x) => { push_str(&mut s, "Parse Error: "); push_str(&mut s, x.as_str()); },
            SutraErrorKind::Macro(x) => { push_str(&mut s, "Macro Error: "); push_str(&mut s, x.as_str()); },
            SutraErrorKind::Validation(x) => { push_str(&mut s, "Validation Error: "); push_str(&mut s, x.as_str()); },
            SutraErrorKind::Io(x) => { push_str(&mut s, "IO Error: "); push_str(&mut s, x.as_str()); },
            SutraErrorKind::Eval(e) => {
                push_str(&mut s, "Evaluation Error: ");
                push_str(&mut s, e.message.as_str());
                push_str(&mut s, "\n");
                match &e.suggestion {
                    Some(x) => { push_str(&mut s, "\nSuggestion: "); push_str(&mut s, x.as_str()); push_str(&mut s, "\n"); },
                    None => {},
                }
                match &e.original_code {
                    Some(x) => { push_str(&mut s, "\nOriginal Code:\n  "); push_str(&mut s, x.as_str()); push_str(&mut s, "\n"); },
                    None => {},
                }
                push_str(&mut s, "\nExpanded Code:\n  ");
                push_str(&mut s, e.expanded_code.as_str());
            },
            SutraErrorKind::MalformedAst(x) => { push_str(&mut s, "Malformed AST Error: "); push_str(&mut s, x.as_str()); },
            SutraErrorKind::InternalParse(x) => { push_str(&mut s, "Internal Parse Error: "); push_str(&mut s, x.as_str()); },
        }
        assert(s@ =~= engine_message(self.kind));
        s
    }
}

} // verus!
