//! The error value shared by every phase of the engine.
//!
//! An error carries what went wrong (`ErrorKind`), where it happened
//! (`SourceInfo`: the source text, the primary span and the phase) and how to
//! help (`DiagnosticInfo`: an optional help text and the error code).
use vstd::prelude::*;
use crate::span::Span;
use vstd::string::StringSliceAdditionalSpecFns;
use crate::text::{push_str, push_decimal, decimal};

verus! {

/// A named source text, used to show snippets in diagnostics.
#[derive(Debug, Clone)]
pub struct SourceContext {
    pub name: String,
    pub content: String,
}

impl SourceContext {
    /// A source context for real file content.
    pub fn from_file(name: &str, content: &str) -> (r: SourceContext)
        ensures
            r.name@ == name@,
            r.content@ == content@,
    {
        SourceContext { name: name.to_string(), content: content.to_string() }
    }

    /// A stand-in source context when the real source is not available:
    /// named `fallback`, with the content `// <context>`.
    pub fn fallback(context: &str) -> (r: SourceContext)
        ensures
            r.name@ == "fallback"@,
            r.content@ == "// "@ + context@,
    {
        let mut content = String::new();
        push_str(&mut content, "// ");
        push_str(&mut content, context);
        SourceContext { name: "fallback".to_string(), content }
    }

    /// A deep copy of this context.
    pub fn copy(&self) -> (r: SourceContext)
        ensures
            r.name@ == self.name@,
            r.content@ == self.content@,
    {
        SourceContext { name: self.name.clone(), content: self.content.clone() }
    }
}

impl Default for SourceContext {
    /// The stand-in context `fallback("default context")`.
    fn default() -> (r: SourceContext)
        ensures
            r.name@ == "fallback"@,
            r.content@ == "// "@ + "default context"@,
    {
        SourceContext::fallback("default context")
    }
}

/// What went wrong.
#[derive(Debug, Clone)]
pub enum ErrorKind {
    MissingElement { element: String },
    MalformedConstruct { construct: String },
    InvalidLiteral { literal_type: String, value: String },
    EmptyExpression,
    ParameterOrderViolation { rest_span: Span },
    UnexpectedToken { expected: String, found: String },
    UndefinedSymbol { symbol: String },
    TypeMismatch { expected: String, actual: String },
    ArityMismatch { expected: String, actual: usize },
    InvalidOperation { operation: String, operand_type: String },
    RecursionLimit,
    StackOverflow,
    InvalidMacro { macro_name: String, reason: String },
    InvalidPath { path: String },
    DuplicateDefinition { symbol: String, original_location: Span },
    ScopeViolation { symbol: String, scope: String },
    GeneralValidation { message: String },
    AssertionFailure { message: String, test_name: String },
}

/// The broad class of an error kind.
#[derive(Debug, Clone, Copy, PartialEq, Eq)]
pub enum ErrorCategory {
    Parse,
    Runtime,
    Validation,
    Test,
}

/// The category of each error kind: syntax problems are `Parse`, evaluation
/// failures `Runtime`, semantic problems `Validation`, failed assertions `Test`.
pub open spec fn category_of(k: ErrorKind) -> ErrorCategory {
    match k {
        ErrorKind::MissingElement { .. } | ErrorKind::MalformedConstruct { .. }
        | ErrorKind::InvalidLiteral { .. } | ErrorKind::EmptyExpression
        | ErrorKind::ParameterOrderViolation { .. } | ErrorKind::UnexpectedToken { .. } => ErrorCategory::Parse,
        ErrorKind::UndefinedSymbol { .. } | ErrorKind::TypeMismatch { .. }
        | ErrorKind::ArityMismatch { .. } | ErrorKind::InvalidOperation { .. }
        | ErrorKind::RecursionLimit | ErrorKind::StackOverflow => ErrorCategory::Runtime,
        ErrorKind::InvalidMacro { .. } | ErrorKind::InvalidPath { .. }
        | ErrorKind::DuplicateDefinition { .. } | ErrorKind::ScopeViolation { .. }
        | ErrorKind::GeneralValidation { .. } => ErrorCategory::Validation,
        ErrorKind::AssertionFailure { .. } => ErrorCategory::Test,
    }
}

/// The code suffix of each error kind, used in diagnostic codes.
pub open spec fn code_suffix_of(k: ErrorKind) -> Seq<char> {
    match k {
        ErrorKind::MissingElement { .. } => "missing_element"@,
        ErrorKind::MalformedConstruct { .. } => "malformed_construct"@,
        ErrorKind::InvalidLiteral { .. } => "invalid_literal"@,
        ErrorKind::EmptyExpression => "empty_expression"@,
        ErrorKind::ParameterOrderViolation { .. } => "parameter_order_violation"@,
        ErrorKind::UnexpectedToken { .. } => "unexpected_token"@,
        ErrorKind::UndefinedSymbol { .. } => "undefined_symbol"@,
        ErrorKind::TypeMismatch { .. } => "type_mismatch"@,
        ErrorKind::ArityMismatch { .. } => "arity_mismatch"@,
        ErrorKind::InvalidOperation { .. } => "invalid_operation"@,
        ErrorKind::RecursionLimit => "recursion_limit"@,
        ErrorKind::StackOverflow => "stack_overflow"@,
        ErrorKind::InvalidMacro { .. } => "invalid_macro"@,
        ErrorKind::InvalidPath { .. } => "invalid_path"@,
        ErrorKind::DuplicateDefinition { .. } => "duplicate_definition"@,
        ErrorKind::ScopeViolation { .. } => "scope_violation"@,
        ErrorKind::GeneralValidation { .. } => "general_validation"@,
        ErrorKind::AssertionFailure { .. } => "assertion_failure"@,
    }
}

/// The short label shown under the primary span of each error kind.
pub open spec fn primary_label_of(k: ErrorKind) -> Seq<char> {
    match k {
        ErrorKind::MissingElement { .. } => "missing here"@,
        ErrorKind::MalformedConstruct { .. } => "malformed syntax"@,
        ErrorKind::InvalidLiteral { .. } => "invalid literal"@,
        ErrorKind::EmptyExpression => "empty expression"@,
        ErrorKind::ParameterOrderViolation { .. } => "parameter order error"@,
        ErrorKind::UnexpectedToken { .. } => "unexpected token"@,
        ErrorKind::UndefinedSymbol { .. } => "undefined symbol"@,
        ErrorKind::TypeMismatch { .. } => "type mismatch"@,
        ErrorKind::ArityMismatch { .. } => "arity mismatch"@,
        ErrorKind::InvalidOperation { .. } => "invalid operation"@,
        ErrorKind::RecursionLimit => "recursion limit exceeded"@,
        ErrorKind::StackOverflow => "stack overflow"@,
        ErrorKind::InvalidMacro { .. } => "invalid macro"@,
        ErrorKind::InvalidPath { .. } => "invalid path"@,
        ErrorKind::DuplicateDefinition { .. } => "duplicate definition"@,
        ErrorKind::ScopeViolation { .. } => "scope violation"@,
        ErrorKind::GeneralValidation { .. } => "validation issue"@,
        ErrorKind::AssertionFailure { .. } => "assertion failed here"@,
    }
}

/// The human-readable message of each error kind.
pub open spec fn message_of(k: ErrorKind) -> Seq<char> {
    match k {
        ErrorKind::MissingElement { element } => "Parse error: missing "@ + element@,
        ErrorKind::MalformedConstruct { construct } => "Parse error: malformed "@ + construct@,
        ErrorKind::InvalidLiteral { literal_type, value } =>
            "Parse error: invalid "@ + literal_type@ + " '"@ + value@ + "'"@,
        ErrorKind::EmptyExpression => "Parse error: empty expression"@,
        ErrorKind::ParameterOrderViolation { .. } => "Parse error: parameter order violation"@,
        ErrorKind::UnexpectedToken { expected, found } =>
            "Parse error: expected "@ + expected@ + ", found "@ + found@,
        ErrorKind::UndefinedSymbol { symbol } => "Runtime error: undefined symbol '"@ + symbol@ + "'"@,
        ErrorKind::TypeMismatch { expected, actual } =>
            "Type error: expected "@ + expected@ + ", got "@ + actual@,
        ErrorKind::ArityMismatch { expected, actual } =>
            "Runtime error: incorrect arity, expected "@ + expected@ + ", got "@ + decimal(actual as nat),
        ErrorKind::InvalidOperation { operation, operand_type } =>
            "Runtime error: invalid operation '"@ + operation@ + "' on "@ + operand_type@,
        ErrorKind::RecursionLimit => "Runtime error: recursion limit exceeded"@,
        ErrorKind::StackOverflow => "Runtime error: stack overflow"@,
        ErrorKind::InvalidMacro { macro_name, reason } =>
            "Validation error: invalid macro '"@ + macro_name@ + "': "@ + reason@,
        ErrorKind::InvalidPath { path } => "Validation error: invalid path '"@ + path@ + "'"@,
        ErrorKind::DuplicateDefinition { symbol, .. } =>
            "Validation error: duplicate definition of '"@ + symbol@ + "'"@,
        ErrorKind::ScopeViolation { symbol, scope } =>
            "Validation error: '"@ + symbol@ + "' not accessible in "@ + scope@ + " scope"@,
        ErrorKind::GeneralValidation { message } => "Validation error: "@ + message@,
        ErrorKind::AssertionFailure { message, test_name } =>
            "Test assertion failed in '"@ + test_name@ + "': "@ + message@,
    }
}

impl ErrorKind {
    /// The category of this kind, for test assertions.
    pub fn category(&self) -> (r: ErrorCategory)
        ensures
            r == category_of(*self),
    {
        match self {
            ErrorKind::MissingElement { .. } | ErrorKind::MalformedConstruct { .. }
            | ErrorKind::InvalidLiteral { .. } | ErrorKind::EmptyExpression
            | ErrorKind::ParameterOrderViolation { .. } | ErrorKind::UnexpectedToken { .. } => ErrorCategory::Parse,
            ErrorKind::UndefinedSymbol { .. } | ErrorKind::TypeMismatch { .. }
            | ErrorKind::ArityMismatch { .. } | ErrorKind::InvalidOperation { .. }
            | ErrorKind::RecursionLimit | ErrorKind::StackOverflow => ErrorCategory::Runtime,
            ErrorKind::InvalidMacro { .. } | ErrorKind::InvalidPath { .. }
            | ErrorKind::DuplicateDefinition { .. } | ErrorKind::ScopeViolation { .. }
            | ErrorKind::GeneralValidation { .. } => ErrorCategory::Validation,
            ErrorKind::AssertionFailure { .. } => ErrorCategory::Test,
        }
    }

    /// The suffix of the diagnostic code of this kind.
    pub fn code_suffix(&self) -> (r: &'static str)
        ensures
            r@ == code_suffix_of(*self),
    {
        match self {
            ErrorKind::MissingElement { .. } => "missing_element",
            ErrorKind::MalformedConstruct { .. } => "malformed_construct",
            ErrorKind::InvalidLiteral { .. } => "invalid_literal",
            ErrorKind::EmptyExpression => "empty_expression",
            ErrorKind::ParameterOrderViolation { .. } => "parameter_order_violation",
            ErrorKind::UnexpectedToken { .. } => "unexpected_token",
            ErrorKind::UndefinedSymbol { .. } => "undefined_symbol",
            ErrorKind::TypeMismatch { .. } => "type_mismatch",
            ErrorKind::ArityMismatch { .. } => "arity_mismatch",
            ErrorKind::InvalidOperation { .. } => "invalid_operation",
            ErrorKind::RecursionLimit => "recursion_limit",
            ErrorKind::StackOverflow => "stack_overflow",
            ErrorKind::InvalidMacro { .. } => "invalid_macro",
            ErrorKind::InvalidPath { .. } => "invalid_path",
            ErrorKind::DuplicateDefinition { .. } => "duplicate_definition",
            ErrorKind::ScopeViolation { .. } => "scope_violation",
            ErrorKind::GeneralValidation { .. } => "general_validation",
            ErrorKind::AssertionFailure { .. } => "assertion_failure",
        }
    }
}

/// Where an error happened.
#[derive(Debug, Clone)]
pub struct SourceInfo {
    pub source: SourceContext,
    pub primary_span: Span,
    pub phase: String,
}

/// How to help with an error.
#[derive(Debug, Clone)]
pub struct DiagnosticInfo {
    pub help: Option<String>,
    pub error_code: String,
}

/// The single error type of the engine.
#[derive(Debug, Clone)]
pub struct SutraError {
    pub kind: ErrorKind,
    pub source_info: SourceInfo,
    pub diagnostic_info: DiagnosticInfo,
}

/// The observable content of a failure: its message and its primary span.
pub struct Fault {
    pub message: Seq<char>,
    pub span: Span,
}

/// The failure with the message of `kind` at `span`.
pub open spec fn fault_of(kind: ErrorKind, span: Span) -> Fault {
    Fault { message: message_of(kind), span }
}

/// A general validation failure with message text `msg`.
pub open spec fn general_fault(msg: Seq<char>, span: Span) -> Fault {
    Fault { message: "Validation error: "@ + msg, span }
}

/// An arity failure: `expected` arguments were expected and `actual` given.
pub open spec fn arity_fault(expected: Seq<char>, actual: nat, span: Span) -> Fault {
    Fault { message: "Runtime error: incorrect arity, expected "@ + expected + ", got "@ + decimal(actual), span }
}

/// A type failure: `expected` was needed and `actual` found.
pub open spec fn type_fault(expected: Seq<char>, actual: Seq<char>, span: Span) -> Fault {
    Fault { message: "Type error: expected "@ + expected + ", got "@ + actual, span }
}

/// A failure for the missing element `element`.
pub open spec fn missing_fault(element: Seq<char>, span: Span) -> Fault {
    Fault { message: "Parse error: missing "@ + element, span }
}

/// A failure for the malformed construct `construct`.
pub open spec fn malformed_fault(construct: Seq<char>, span: Span) -> Fault {
    Fault { message: "Parse error: malformed "@ + construct, span }
}

/// The failure for an exceeded recursion limit.
pub open spec fn recursion_fault(span: Span) -> Fault {
    Fault { message: "Runtime error: recursion limit exceeded"@, span }
}

/// The failure for an empty expression.
pub open spec fn empty_fault(span: Span) -> Fault {
    Fault { message: "Parse error: empty expression"@, span }
}

impl SutraError {
    /// The message and primary span of this error.
    pub open spec fn fault(self) -> Fault {
        fault_of(self.kind, self.source_info.primary_span)
    }

    /// The human-readable message of this error.
    pub fn message(&self) -> (r: String)
        ensures
            r@ == message_of(self.kind),
    {
        let mut s = String::new();
        match &self.kind {
            ErrorKind::MissingElement { element } => {
                push_str(&mut s, "Parse error: missing ");
                push_str(&mut s, element.as_str());
            },
            ErrorKind::MalformedConstruct { construct } => {
                push_str(&mut s, "Parse error: malformed ");
                push_str(&mut s, construct.as_str());
            },
            ErrorKind::InvalidLiteral { literal_type, value } => {
                push_str(&mut s, "Parse error: invalid ");
                push_str(&mut s, literal_type.as_str());
                push_str(&mut s, " '");
                push_str(&mut s, value.as_str());
                push_str(&mut s, "'");
            },
            ErrorKind::EmptyExpression => {
                push_str(&mut s, "Parse error: empty expression");
            },
            ErrorKind::ParameterOrderViolation { .. } => {
                push_str(&mut s, "Parse error: parameter order violation");
            },
            ErrorKind::UnexpectedToken { expected, found } => {
                push_str(&mut s, "Parse error: expected ");
                push_str(&mut s, expected.as_str());
                push_str(&mut s, ", found ");
                push_str(&mut s, found.as_str());
            },
            ErrorKind::UndefinedSymbol { symbol } => {
                push_str(&mut s, "Runtime error: undefined symbol '");
                push_str(&mut s, symbol.as_str());
                push_str(&mut s, "'");
            },
            ErrorKind::TypeMismatch { expected, actual } => {
                push_str(&mut s, "Type error: expected ");
                push_str(&mut s, expected.as_str());
                push_str(&mut s, ", got ");
                push_str(&mut s, actual.as_str());
            },
            ErrorKind::ArityMismatch { expected, actual } => {
                push_str(&mut s, "Runtime error: incorrect arity, expected ");
                push_str(&mut s, expected.as_str());
                push_str(&mut s, ", got ");
                push_decimal(&mut s, *actual);
            },
            ErrorKind::InvalidOperation { operation, operand_type } => {
                push_str(&mut s, "Runtime error: invalid operation '");
                push_str(&mut s, operation.as_str());
                push_str(&mut s, "' on ");
                push_str(&mut s, operand_type.as_str());
            },
            ErrorKind::RecursionLimit => {
                push_str(&mut s, "Runtime error: recursion limit exceeded");
            },
            ErrorKind::StackOverflow => {
                push_str(&mut s, "Runtime error: stack overflow");
            },
            ErrorKind::InvalidMacro { macro_name, reason } => {
                push_str(&mut s, "Validation error: invalid macro '");
                push_str(&mut s, macro_name.as_str());
                push_str(&mut s, "': ");
                push_str(&mut s, reason.as_str());
            },
            ErrorKind::InvalidPath { path } => {
                push_str(&mut s, "Validation error: invalid path '");
                push_str(&mut s, path.as_str());
                push_str(&mut s, "'");
            },
            ErrorKind::DuplicateDefinition { symbol, .. } => {
                push_str(&mut s, "Validation error: duplicate definition of '");
                push_str(&mut s, symbol.as_str());
                push_str(&mut s, "'");
            },
            ErrorKind::ScopeViolation { symbol, scope } => {
                push_str(&mut s, "Validation error: '");
                push_str(&mut s, symbol.as_str());
                push_str(&mut s, "' not accessible in ");
                push_str(&mut s, scope.as_str());
                push_str(&mut s, " scope");
            },
            ErrorKind::GeneralValidation { message } => {
                push_str(&mut s, "Validation error: ");
                push_str(&mut s, message.as_str());
            },
            ErrorKind::AssertionFailure { message, test_name } => {
                push_str(&mut s, "Test assertion failed in '");
                push_str(&mut s, test_name.as_str());
                push_str(&mut s, "': ");
                push_str(&mut s, message.as_str());
            },
        }
        s
    }

    /// The label shown under the primary span.
    pub fn primary_label(&self) -> (r: &'static str)
        ensures
            r@ == primary_label_of(self.kind),
    {
        match &self.kind {
            ErrorKind::MissingElement { .. } => "missing here",
            ErrorKind::MalformedConstruct { .. } => "malformed syntax",
            ErrorKind::InvalidLiteral { .. } => "invalid literal",
            ErrorKind::EmptyExpression => "empty expression",
            ErrorKind::ParameterOrderViolation { .. } => "parameter order error",
            ErrorKind::UnexpectedToken { .. } => "unexpected token",
            ErrorKind::UndefinedSymbol { .. } => "undefined symbol",
            ErrorKind::TypeMismatch { .. } => "type mismatch",
            ErrorKind::ArityMismatch { .. } => "arity mismatch",
            ErrorKind::InvalidOperation { .. } => "invalid operation",
            ErrorKind::RecursionLimit => "recursion limit exceeded",
            ErrorKind::StackOverflow => "stack overflow",
            ErrorKind::InvalidMacro { .. } => "invalid macro",
            ErrorKind::InvalidPath { .. } => "invalid path",
            ErrorKind::DuplicateDefinition { .. } => "duplicate definition",
            ErrorKind::ScopeViolation { .. } => "scope violation",
            ErrorKind::GeneralValidation { .. } => "validation issue",
            ErrorKind::AssertionFailure { .. } => "assertion failed here",
        }
    }

    /// The same error with `help` as its help text.
    pub fn with_suggestion(self, help: String) -> (r: SutraError)
        ensures
            r.kind == self.kind,
            r.source_info == self.source_info,
            r.diagnostic_info.error_code == self.diagnostic_info.error_code,
            r.diagnostic_info.help == Some(help),
    {
        SutraError {
            kind: self.kind,
            source_info: self.source_info,
            diagnostic_info: DiagnosticInfo { help: Some(help), error_code: self.diagnostic_info.error_code },
        }
    }
}

/// A context that creates errors for one phase of the pipeline.
#[derive(Debug, Clone)]
pub struct ValidationContext {
    pub source: SourceContext,
    pub phase: String,
}

/// The diagnostic code of an error of kind `k` reported in `phase`:
/// `sutra::<phase>::<suffix>`.
pub open spec fn error_code_of(phase: Seq<char>, k: ErrorKind) -> Seq<char> {
    "sutra::"@ + phase + "::"@ + code_suffix_of(k)
}

impl ValidationContext {
    /// A context for `phase` over `source`.
    pub fn new(source: SourceContext, phase: String) -> (r: ValidationContext)
        ensures
            r.source == source,
            r.phase == phase,
    {
        ValidationContext { source, phase }
    }

    /// An error of kind `kind` at `span`, with the code
    /// `sutra::<phase>::<suffix>` and no help text.
    pub fn report(&self, kind: ErrorKind, span: Span) -> (r: SutraError)
        ensures
            r.kind == kind,
            r.source_info.source.name@ == self.source.name@,
            r.source_info.source.content@ == self.source.content@,
            r.source_info.primary_span == span,
            r.source_info.phase@ == self.phase@,
            r.diagnostic_info.help is None,
            r.diagnostic_info.error_code@ == error_code_of(self.phase@, kind),
    {
        let mut code = String::new();
        push_str(&mut code, "sutra::");
        push_str(&mut code, self.phase.as_str());
        push_str(&mut code, "::");
        push_str(&mut code, kind.code_suffix());
        SutraError {
            kind,
            source_info: SourceInfo {
                source: self.source.copy(),
                primary_span: span,
                phase: self.phase.clone(),
            },
            diagnostic_info: DiagnosticInfo { help: None, error_code: code },
        }
    }

    /// An arity mismatch: `expected` arguments were expected, `actual` given.
    pub fn arity_mismatch(&self, expected: &str, actual: usize, span: Span) -> (r: SutraError)
        ensures
            r.kind matches ErrorKind::ArityMismatch { expected: e, actual: a } && e@ == expected@ && a == actual,
            r.source_info.primary_span == span,
            r.source_info.phase@ == self.phase@,
            r.diagnostic_info.help is None,
            r.source_info.source.name@ == self.source.name@,
            r.source_info.source.content@ == self.source.content@,
            r.diagnostic_info.error_code@ == error_code_of(self.phase@, r.kind),
    {
        self.report(ErrorKind::ArityMismatch { expected: expected.to_string(), actual }, span)
    }

    /// A type mismatch: a value of type `actual` where `expected` was needed.
    pub fn type_mismatch(&self, expected: &str, actual: &str, span: Span) -> (r: SutraError)
        ensures
            r.kind matches ErrorKind::TypeMismatch { expected: e, actual: a } && e@ == expected@ && a@ == actual@,
            r.source_info.primary_span == span,
            r.source_info.phase@ == self.phase@,
            r.diagnostic_info.help is None,
            r.source_info.source.name@ == self.source.name@,
            r.source_info.source.content@ == self.source.content@,
            r.diagnostic_info.error_code@ == error_code_of(self.phase@, r.kind),
    {
        self.report(ErrorKind::TypeMismatch { expected: expected.to_string(), actual: actual.to_string() }, span)
    }

    /// A missing element `element` at `span`.
    pub fn missing_element(&self, element: &str, span: Span) -> (r: SutraError)
        ensures
            r.kind matches ErrorKind::MissingElement { element: e } && e@ == element@,
            r.source_info.primary_span == span,
            r.source_info.phase@ == self.phase@,
            r.diagnostic_info.help is None,
            r.source_info.source.name@ == self.source.name@,
            r.source_info.source.content@ == self.source.content@,
            r.diagnostic_info.error_code@ == error_code_of(self.phase@, r.kind),
    {
        self.report(ErrorKind::MissingElement { element: element.to_string() }, span)
    }

    /// A reference to the undefined symbol `symbol` at `span`.
    pub fn undefined_symbol(&self, symbol: &str, span: Span) -> (r: SutraError)
        ensures
            r.kind matches ErrorKind::UndefinedSymbol { symbol: s } && s@ == symbol@,
            r.source_info.primary_span == span,
            r.source_info.phase@ == self.phase@,
            r.diagnostic_info.help is None,
            r.source_info.source.name@ == self.source.name@,
            r.source_info.source.content@ == self.source.content@,
            r.diagnostic_info.error_code@ == error_code_of(self.phase@, r.kind),
    {
        self.report(ErrorKind::UndefinedSymbol { symbol: symbol.to_string() }, span)
    }
}

/// An error of the grammar checker: a general validation error whose
/// source is the rule's definition (named `grammar_validation`), spanning
/// the whole definition, in phase `Grammar Structure`, with the code
/// `validation.grammar.warning` or `validation.grammar.error`.
pub fn grammar_validation_error(message: String, rule_definition: &str, is_warning: bool) -> (r: SutraError)
    ensures
        r.kind == (ErrorKind::GeneralValidation { message }),
        r.source_info.source.name@ == "grammar_validation"@,
        r.source_info.source.content@ == rule_definition@,
        r.source_info.primary_span == (Span { start: 0, end: rule_definition.spec_bytes().len() as usize }),
        r.source_info.phase@ == "Grammar Structure"@,
        r.diagnostic_info.help is None,
        r.diagnostic_info.error_code@ == "validation.grammar."@
            + (if is_warning { "warning"@ } else { "error"@ }),
{
    let mut code = String::new();
    push_str(&mut code, "validation.grammar.");
    if is_warning {
        push_str(&mut code, "warning");
    } else {
        push_str(&mut code, "error");
    }
    let len = rule_definition.len();
    SutraError {
        kind: ErrorKind::GeneralValidation { message },
        source_info: SourceInfo {
            source: SourceContext::from_file("grammar_validation", rule_definition),
            primary_span: Span { start: 0, end: len },
            phase: "Grammar Structure".to_string(),
        },
        diagnostic_info: DiagnosticInfo { help: None, error_code: code },
    }
}

/// A general validation error with message `message`, reported for `phase`
/// over `source`.
pub fn general_error(message: &str, source: SourceContext, phase: &str, span: Span) -> (r: SutraError)
    ensures
        r.fault() == general_fault(message@, span),
        r.kind matches ErrorKind::GeneralValidation { message: m } && m@ == message@,
        reported(r, source.name@, source.content@, phase@),
{
    let ctx = ValidationContext::new(source, phase.to_string());
    ctx.report(ErrorKind::GeneralValidation { message: message.to_string() }, span)
}

/// An arity error: `expected` arguments were expected, `actual` given.
pub fn arity_error(expected: &str, actual: usize, source: SourceContext, phase: &str, span: Span) -> (r: SutraError)
    ensures
        r.fault() == arity_fault(expected@, actual as nat, span),
        r.kind matches ErrorKind::ArityMismatch { expected: e, actual: a } && e@ == expected@ && a == actual,
        reported(r, source.name@, source.content@, phase@),
{
    let ctx = ValidationContext::new(source, phase.to_string());
    ctx.arity_mismatch(expected, actual, span)
}

/// A type error: `expected` was needed, `actual` found.
pub fn type_error(expected: &str, actual: &str, source: SourceContext, phase: &str, span: Span) -> (r: SutraError)
    ensures
        r.fault() == type_fault(expected@, actual@, span),
        r.kind matches ErrorKind::TypeMismatch { expected: e, actual: a } && e@ == expected@ && a@ == actual@,
        reported(r, source.name@, source.content@, phase@),
{
    let ctx = ValidationContext::new(source, phase.to_string());
    ctx.type_mismatch(expected, actual, span)
}

/// `e` was reported for `phase` over the source named `name` with content
/// `content`, with no help text and the code of its phase and kind.
pub open spec fn reported(e: SutraError, name: Seq<char>, content: Seq<char>, phase: Seq<char>) -> bool {
    &&& e.source_info.source.name@ == name
    &&& e.source_info.source.content@ == content
    &&& e.source_info.phase@ == phase
    &&& e.diagnostic_info.help is None
    &&& e.diagnostic_info.error_code@ == error_code_of(phase, e.kind)
}

/// The span used for errors tied to no source location.
pub open spec fn unspanned_spec() -> Span {
    Span { start: 0, end: 0 }
}

/// The span used for errors tied to no source location.
pub fn unspanned() -> (r: Span)
    ensures
        r == unspanned_spec(),
{
    Span { start: 0, end: 0 }
}

} // verus!
