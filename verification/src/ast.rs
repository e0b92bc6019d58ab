//! The abstract syntax tree of Sutra programs, and its mathematical model.
use vstd::prelude::*;
use std::sync::Arc;
use crate::span::Span;

verus! {

/// A value together with the source span it came from.
#[derive(Debug, Clone)]
pub struct Spanned<T> {
    pub value: T,
    pub span: Span,
}

/// A syntax tree node: an expression shared by reference count, with its span.
pub type AstNode = Spanned<Arc<Expr>>;

/// A parameter list: required names, then an optional rest (variadic) name.
#[derive(Debug, Clone)]
pub struct ParamList {
    pub required: Vec<String>,
    pub rest: Option<String>,
    pub span: Span,
}

/// A path into the world state: a sequence of keys.
#[derive(Debug, Clone)]
pub struct Path(pub Vec<String>);

/// A Sutra expression.
#[derive(Debug, Clone)]
pub enum Expr {
    List(Vec<AstNode>, Span),
    Symbol(String, Span),
    Path(Path, Span),
    String(String, Span),
    /// A numeric literal, held as its decimal text as written in the source.
    Number(String, Span),
    Bool(bool, Span),
    If { condition: Box<AstNode>, then_branch: Box<AstNode>, else_branch: Box<AstNode>, span: Span },
    Quote(Box<AstNode>, Span),
    ParamList(ParamList),
    Define { name: String, params: ParamList, body: Box<AstNode>, span: Span },
    Spread(Box<AstNode>),
}

// ---------------------------------------------------------------------------
// Mathematical model
// ---------------------------------------------------------------------------

/// The model of a parameter list.
pub struct Params {
    pub required: Seq<Seq<char>>,
    pub rest: Option<Seq<char>>,
    pub span: Span,
}

/// The model of an expression.
pub enum Term {
    List(Seq<Node>, Span),
    Symbol(Seq<char>, Span),
    Path(Seq<Seq<char>>, Span),
    Str(Seq<char>, Span),
    Number(Seq<char>, Span),
    Bool(bool, Span),
    If(Box<Node>, Box<Node>, Box<Node>, Span),
    Quote(Box<Node>, Span),
    Params(Params),
    Define(Seq<char>, Params, Box<Node>, Span),
    Spread(Box<Node>),
}

/// The model of a syntax tree node.
pub struct Node {
    pub term: Term,
    pub span: Span,
}

pub open spec fn strings_view(v: Seq<String>) -> Seq<Seq<char>> {
    v.map_values(|s: String| s@)
}

pub open spec fn opt_string_view(o: Option<String>) -> Option<Seq<char>> {
    match o {
        Some(s) => Some(s@),
        None => None,
    }
}

impl View for ParamList {
    type V = Params;

    open spec fn view(&self) -> Params {
        Params { required: strings_view(self.required@), rest: opt_string_view(self.rest), span: self.span }
    }
}

impl View for Path {
    type V = Seq<Seq<char>>;

    open spec fn view(&self) -> Seq<Seq<char>> {
        strings_view(self.0@)
    }
}

pub open spec fn node_view(n: AstNode) -> Node
    decreases n, 1int,
{
    Node { term: expr_view(*n.value), span: n.span }
}

pub open spec fn expr_view(e: Expr) -> Term
    decreases e, 0int,
{
    match e {
        Expr::List(items, s) => Term::List(nodes_view(items@), s),
        Expr::Symbol(x, s) => Term::Symbol(x@, s),
        Expr::Path(p, s) => Term::Path(p@, s),
        Expr::String(x, s) => Term::Str(x@, s),
        Expr::Number(x, s) => Term::Number(x@, s),
        Expr::Bool(b, s) => Term::Bool(b, s),
        Expr::If { condition, then_branch, else_branch, span } =>
            Term::If(Box::new(node_view(*condition)), Box::new(node_view(*then_branch)), Box::new(node_view(*else_branch)), span),
        Expr::Quote(inner, s) => Term::Quote(Box::new(node_view(*inner)), s),
        Expr::ParamList(p) => Term::Params(p@),
        Expr::Define { name, params, body, span } => Term::Define(name@, params@, Box::new(node_view(*body)), span),
        Expr::Spread(inner) => Term::Spread(Box::new(node_view(*inner))),
    }
}

pub open spec fn nodes_view(items: Seq<AstNode>) -> Seq<Node>
    decreases items, 2int,
{
    if items.len() == 0 {
        Seq::empty()
    } else {
        nodes_view(items.drop_last()).push(node_view(items.last()))
    }
}

} // verus!

verus! {

/// The span carried by an expression model.
pub open spec fn term_span(t: Term) -> Span {
    match t {
        Term::List(_, s) => s,
        Term::Symbol(_, s) => s,
        Term::Path(_, s) => s,
        Term::Str(_, s) => s,
        Term::Number(_, s) => s,
        Term::Bool(_, s) => s,
        Term::If(_, _, _, s) => s,
        Term::Quote(_, s) => s,
        Term::Params(p) => p.span,
        Term::Define(_, _, _, s) => s,
        Term::Spread(inner) => inner.span,
    }
}

/// The name of the syntactic category of an expression model.
pub open spec fn type_name_of(t: Term) -> Seq<char> {
    match t {
        Term::List(..) => "List"@,
        Term::Symbol(..) => "Symbol"@,
        Term::Path(..) => "Path"@,
        Term::Str(..) => "String"@,
        Term::Number(..) => "Number"@,
        Term::Bool(..) => "Bool"@,
        Term::If(..) => "If"@,
        Term::Quote(..) => "Quote"@,
        Term::Params(..) => "ParamList"@,
        Term::Define(..) => "Define"@,
        Term::Spread(..) => "Spread"@,
    }
}

impl View for Spanned<Arc<Expr>> {
    type V = Node;

    open spec fn view(&self) -> Node {
        node_view(*self)
    }
}

/// The model of a sequence of nodes has one entry per node, in order.
pub proof fn lemma_nodes_view(items: Seq<AstNode>)
    ensures
        nodes_view(items).len() == items.len(),
        forall|i: int| 0 <= i < items.len() ==> #[trigger] nodes_view(items)[i] == node_view(items[i]),
    decreases items.len(),
{
    if items.len() > 0 {
        lemma_nodes_view(items.drop_last());
    }
}

/// The model of concatenated node sequences is the concatenation of models.
pub proof fn lemma_nodes_view_concat(a: Seq<AstNode>, b: Seq<AstNode>)
    ensures
        nodes_view(a + b) == nodes_view(a) + nodes_view(b),
{
    lemma_nodes_view(a);
    lemma_nodes_view(b);
    lemma_nodes_view(a + b);
    assert(nodes_view(a + b) =~= nodes_view(a) + nodes_view(b));
}

/// The model of a subrange is the subrange of the model.
pub proof fn lemma_nodes_view_subrange(a: Seq<AstNode>, i: int, j: int)
    requires
        0 <= i <= j <= a.len(),
    ensures
        nodes_view(a.subrange(i, j)) == nodes_view(a).subrange(i, j),
{
    lemma_nodes_view(a);
    lemma_nodes_view(a.subrange(i, j));
    assert(nodes_view(a.subrange(i, j)) =~= nodes_view(a).subrange(i, j));
}

/// The model of a one-node sequence.
pub proof fn lemma_nodes_view_single(x: AstNode)
    ensures
        nodes_view(seq![x]) == seq![node_view(x)],
{
    lemma_nodes_view(seq![x]);
    assert(nodes_view(seq![x]) =~= seq![node_view(x)]);
}

/// Another handle to the same shared expression (`Arc::clone`).
#[verifier::external_body]
fn share_expr(e: &Arc<Expr>) -> (r: Arc<Expr>)
    ensures
        r == *e,
{
    Arc::clone(e)
}

/// A new shared expression holding `e` (`Arc::new`).
pub fn make_node(e: Expr, span: Span) -> (r: AstNode)
    ensures
        *r.value == e,
        r.span == span,
{
    Spanned { value: Arc::new(e), span }
}

/// Another handle to the same node.
pub fn share(n: &AstNode) -> (r: AstNode)
    ensures
        r == *n,
{
    Spanned { value: share_expr(&n.value), span: n.span }
}

/// Handles to the same nodes, in order.
pub fn share_all(items: &[AstNode]) -> (r: Vec<AstNode>)
    ensures
        r@ == items@,
{
    let mut r: Vec<AstNode> = Vec::new();
    let mut i: usize = 0;
    while i < items.len()
        invariant
            i <= items@.len(),
            r@ == items@.subrange(0, i as int),
        decreases items@.len() - i,
    {
        r.push(share(&items[i]));
        i = i + 1;
        assert(r@ =~= items@.subrange(0, i as int));
    }
    assert(items@.subrange(0, items@.len() as int) =~= items@);
    r
}

/// Copies of the strings, in order.
pub fn copy_strings(v: &Vec<String>) -> (r: Vec<String>)
    ensures
        r@ == v@,
{
    let mut r: Vec<String> = Vec::new();
    let mut i: usize = 0;
    while i < v.len()
        invariant
            i <= v@.len(),
            r@ == v@.subrange(0, i as int),
        decreases v@.len() - i,
    {
        r.push(v[i].clone());
        i = i + 1;
        assert(r@ =~= v@.subrange(0, i as int));
    }
    assert(v@.subrange(0, v@.len() as int) =~= v@);
    r
}

impl ParamList {
    /// A copy of this parameter list.
    pub fn copy(&self) -> (r: ParamList)
        ensures
            r@ == self@,
    {
        let rest = match &self.rest {
            Some(s) => Some(s.clone()),
            None => None,
        };
        ParamList { required: copy_strings(&self.required), rest, span: self.span }
    }
}

impl Expr {
    /// The span of this expression.
    pub fn span(&self) -> (r: Span)
        ensures
            r == term_span(expr_view(*self)),
    {
        match self {
            Expr::List(_, span) => *span,
            Expr::Symbol(_, span) => *span,
            Expr::Path(_, span) => *span,
            Expr::String(_, span) => *span,
            Expr::Number(_, span) => *span,
            Expr::Bool(_, span) => *span,
            Expr::If { span, .. } => *span,
            Expr::Quote(_, span) => *span,
            Expr::ParamList(param_list) => param_list.span,
            Expr::Define { span, .. } => *span,
            Expr::Spread(expr) => expr.span,
        }
    }

    /// The items of this expression if it is a list.
    pub fn into_list(self) -> (r: Option<Vec<AstNode>>)
        ensures
            match self {
                Expr::List(items, _) => r == Some(items),
                _ => r is None,
            },
    {
        if let Expr::List(items, _) = self {
            Some(items)
        } else {
            None
        }
    }

    /// The name of the syntactic category of this expression.
    pub fn type_label(&self) -> (r: &'static str)
        ensures
            r@ == type_name_of(expr_view(*self)),
    {
        match self {
            Expr::List(_, _) => "List",
            Expr::Symbol(_, _) => "Symbol",
            Expr::Path(_, _) => "Path",
            Expr::String(_, _) => "String",
            Expr::Number(_, _) => "Number",
            Expr::Bool(_, _) => "Bool",
            Expr::If { .. } => "If",
            Expr::Quote(_, _) => "Quote",
            Expr::ParamList(_) => "ParamList",
            Expr::Define { .. } => "Define",
            Expr::Spread(_) => "Spread",
        }
    }
}

/// Types that name their syntactic category.
pub trait TypeNameTrait {
    fn type_label(&self) -> &'static str;
}

impl TypeNameTrait for Expr {
    fn type_label(&self) -> (r: &'static str)
        ensures
            r@ == type_name_of(expr_view(*self)),
    {
        Expr::type_label(self)
    }
}

impl Spanned<Arc<Expr>> {
    /// The name of the syntactic category of the node's expression.
    pub fn type_label(&self) -> (r: &'static str)
        ensures
            r@ == type_name_of(self@.term),
    {
        (*self.value).type_label()
    }
}

} // verus!
