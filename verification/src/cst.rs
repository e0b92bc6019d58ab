//! The data of the concrete-syntax stage: spans, nodes, grammar rules and
//! errors, the interface of a concrete-syntax parser, and the node wrapper
//! and error of the tree-building stage.
use vstd::prelude::*;

verus! {

/// A byte range `[start, end)` in the input.
#[derive(Debug, Clone)]
pub struct SutraSpan {
    pub start: usize,
    pub end: usize,
}

/// The grammar rules a concrete-syntax node can come from.
#[derive(Debug, Clone)]
pub enum SutraRule {
    Program,
}

/// A concrete-syntax node: its rule, its children and its span.
#[derive(Debug, Clone)]
pub struct SutraCstNode {
    pub rule: SutraRule,
    pub children: Vec<std::sync::Arc<SutraCstNode>>,
    pub span: SutraSpan,
}

/// A failure to parse: where, and a message that starts with the rule's
/// name and says what was expected and what was found.
#[derive(Debug, Clone)]
pub struct SutraCstParseError {
    pub span: SutraSpan,
    pub message: String,
}

/// A parser from source text to a concrete syntax tree.
pub trait SutraCstParser {
    /// The tree of `input`, or why it cannot be parsed.
    fn parse(&self, input: &str) -> Result<SutraCstNode, SutraCstParseError>;
}

/// A value together with the span it came from.
#[derive(Debug, Clone)]
pub struct WithSpan<T> {
    pub value: T,
    pub span: SutraSpan,
}

/// A failure to build the syntax tree from a concrete-syntax node.
#[derive(Debug, Clone)]
pub struct SutraAstBuildError {
    pub span: SutraSpan,
    pub message: String,
}

} // verus!
