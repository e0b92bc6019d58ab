//! The decisions of evaluation, one step at a time.
//!
//! Evaluating an expanded node either gives a value at once (literals,
//! quoted forms, the empty list), fails, hands a call to the named atom
//! (atoms evaluate their own arguments), or asks for a sub-node to be
//! evaluated first: the condition of an `if`, after which `eval_resume`
//! takes the branch. The driver that runs atoms and keeps the pending
//! frames stands outside the library.
use vstd::prelude::*;
use crate::span::Span;
use crate::ast::{AstNode, Expr, Node, Path, Term, node_view, nodes_view, lemma_nodes_view, share, copy_strings,
    strings_view, expr_view};
use crate::eval_error::{EvalError, SutraError as EngineError, SutraErrorKind};
use crate::pretty::pretty_term;
use crate::text::{str_eq, push_str};

verus! {

/// A runtime value. Numbers are kept as their decimal text.
#[derive(Debug)]
pub enum Value {
    Nil,
    Bool(bool),
    Number(String),
    String(String),
    List(Vec<Value>),
    Path(Path),
}

/// The model of a value.
pub enum ValueModel {
    Nil,
    Bool(bool),
    Number(Seq<char>),
    Str(Seq<char>),
    List(Seq<ValueModel>),
    Path(Seq<Seq<char>>),
}

/// `v` is the value the model `m` describes.
pub open spec fn value_is(v: Value, m: ValueModel) -> bool
    decreases m,
{
    match m {
        ValueModel::Nil => v is Nil,
        ValueModel::Bool(b) => v matches Value::Bool(x) && x == b,
        ValueModel::Number(t) => v matches Value::Number(x) && x@ == t,
        ValueModel::Str(s) => v matches Value::String(x) && x@ == s,
        ValueModel::Path(p) => v matches Value::Path(q) && q@ == p,
        ValueModel::List(ms) => v matches Value::List(vs) && vs@.len() == ms.len()
            && forall|i: int| 0 <= i < ms.len() ==> value_is(#[trigger] vs@[i], ms[i]),
    }
}

/// The model of an evaluation failure: its message, the code being
/// evaluated, an optional suggestion, and where.
pub struct Failure {
    pub message: Seq<char>,
    pub expanded: Seq<char>,
    pub suggestion: Option<Seq<char>>,
    pub span: Span,
}

/// `e` is the evaluation error the model `f` describes.
pub open spec fn error_is(e: EngineError, f: Failure) -> bool {
    &&& e.kind matches SutraErrorKind::Eval(ev)
    &&& ev.message@ == f.message
    &&& ev.expanded_code@ == f.expanded
    &&& ev.original_code is None
    &&& crate::ast::opt_string_view(ev.suggestion) == f.suggestion
    &&& e.span == Some(f.span)
}

/// An `if` waiting for the value of its condition, at evaluation depth
/// `depth`.
pub struct EvalFrame {
    pub condition: AstNode,
    pub then_branch: AstNode,
    pub else_branch: AstNode,
    pub depth: usize,
}

/// The model of a waiting `if`.
pub struct FrameModel {
    pub condition: Node,
    pub then_branch: Node,
    pub else_branch: Node,
    pub depth: nat,
}

pub open spec fn frame_view(f: EvalFrame) -> FrameModel {
    FrameModel { condition: f.condition@, then_branch: f.then_branch@, else_branch: f.else_branch@, depth: f.depth as nat }
}

/// What evaluation asks for next.
pub enum EvalAction {
    /// The value of the node.
    Done(Value),
    /// Call the atom `name` on the unevaluated arguments `args` of the list
    /// spanning `span`, evaluated at `depth`.
    CallAtom { name: String, args: Vec<AstNode>, span: Span, depth: usize },
    /// Evaluate `expr` at `depth`, then resume `frame` with its value.
    Eval { frame: EvalFrame, expr: AstNode, depth: usize },
    /// Evaluation failed.
    Fail(EngineError),
}

/// The model of what evaluation asks for next.
pub enum Step {
    Done(ValueModel),
    CallAtom(Seq<char>, Seq<Node>, Span, nat),
    Eval(FrameModel, Node, nat),
    Fail(Failure),
}

/// `a` is the action the model `s` describes.
pub open spec fn action_is(a: EvalAction, s: Step) -> bool {
    match s {
        Step::Done(m) => a matches EvalAction::Done(v) && value_is(v, m),
        Step::CallAtom(n, args, sp, d) => a matches EvalAction::CallAtom { name, args: xs, span, depth }
            && name@ == n && nodes_view(xs@) == args && span == sp && depth == d,
        Step::Eval(f, e, d) => a matches EvalAction::Eval { frame, expr, depth }
            && frame_view(frame) == f && expr@ == e && depth == d,
        Step::Fail(f) => a matches EvalAction::Fail(e) && error_is(e, f),
    }
}

// ---------------------------------------------------------------------------
// Specification
// ---------------------------------------------------------------------------

pub open spec fn fail(message: Seq<char>, expanded: Seq<char>, suggestion: Option<Seq<char>>, span: Span) -> Step {
    Step::Fail(Failure { message, expanded, suggestion, span })
}

/// The message for a parameter list met inside a quoted list.
pub open spec fn quoted_params_message() -> Seq<char> {
    "Cannot evaluate parameter list (ParamList AST node) inside quote"@
}

/// The message for a parameter list met where a value is wanted.
pub open spec fn params_message() -> Seq<char> {
    "Cannot evaluate parameter list (ParamList AST node) at runtime"@
}

/// The values of the items of a quoted list: symbols and strings give
/// strings, numbers and booleans themselves, other forms nothing; a
/// parameter list fails.
pub open spec fn quote_items(items: Seq<Node>) -> Option<Seq<ValueModel>>
    decreases items.len(),
{
    if items.len() == 0 {
        Some(Seq::empty())
    } else {
        match quote_items(items.drop_last()) {
            None => None,
            Some(prev) => match items.last().term {
                Term::Symbol(s, _) => Some(prev.push(ValueModel::Str(s))),
                Term::Number(t, _) => Some(prev.push(ValueModel::Number(t))),
                Term::Bool(b, _) => Some(prev.push(ValueModel::Bool(b))),
                Term::Str(s, _) => Some(prev.push(ValueModel::Str(s))),
                Term::Params(_) => None,
                _ => Some(prev.push(ValueModel::Nil)),
            },
        }
    }
}

/// The value of the quoted node `inner`, quoted in `whole`.
pub open spec fn quote_spec(inner: Node, whole: Node) -> Step {
    match inner.term {
        Term::Symbol(s, _) => Step::Done(ValueModel::Str(s)),
        Term::List(items, _) => match quote_items(items) {
            Some(vs) => Step::Done(ValueModel::List(vs)),
            None => fail(quoted_params_message(), pretty_term(inner.term), None, inner.span),
        },
        Term::Number(t, _) => Step::Done(ValueModel::Number(t)),
        Term::Bool(b, _) => Step::Done(ValueModel::Bool(b)),
        Term::Str(s, _) => Step::Done(ValueModel::Str(s)),
        Term::Path(p, _) => Step::Done(ValueModel::Path(p)),
        Term::Params(_) => fail(params_message(), pretty_term(whole.term), None, whole.span),
        _ => Step::Done(ValueModel::Nil),
    }
}

/// The first evaluation step of `n` at `depth`, where evaluation may go
/// `max_depth` deep and `atoms` are the names of the atoms.
pub open spec fn eval_spec(n: Node, depth: nat, max_depth: nat, atoms: Seq<Seq<char>>) -> Step {
    if depth > max_depth {
        fail("Recursion depth limit exceeded."@, pretty_term(n.term), None, n.span)
    } else {
        match n.term {
            Term::List(items, span) => if items.len() == 0 {
                Step::Done(ValueModel::List(Seq::empty()))
            } else {
                match items[0].term {
                    Term::Symbol(s, _) => if atoms.contains(s) {
                        Step::CallAtom(s, items.skip(1), span, depth)
                    } else {
                        fail("Atom '"@ + s + "' not found."@, pretty_term(n.term), None, items[0].span)
                    },
                    _ => fail("The first element of a list to be evaluated must be a symbol naming an atom."@,
                        pretty_term(n.term), None, items[0].span),
                }
            },
            Term::Quote(inner, _) => quote_spec(*inner, n),
            Term::Params(_) => fail(params_message(), pretty_term(n.term), None, n.span),
            Term::Symbol(s, span) => fail("Unexpected bare symbol '"@ + s
                + "' found during evaluation. All value lookups must be explicit `(get ...)` calls."@,
                pretty_term(n.term), Some("Did you mean to use `(get ...)`?"@), span),
            Term::Path(p, _) => Step::Done(ValueModel::Path(p)),
            Term::Str(s, _) => Step::Done(ValueModel::Str(s)),
            Term::Number(t, _) => Step::Done(ValueModel::Number(t)),
            Term::Bool(b, _) => Step::Done(ValueModel::Bool(b)),
            Term::If(c, t, e, _) => Step::Eval(FrameModel { condition: *c, then_branch: *t, else_branch: *e, depth },
                *c, depth + 1),
            Term::Define(_, _, _, s) => fail("Cannot evaluate a define form at runtime"@, pretty_term(n.term), None, s),
            Term::Spread(_) => fail("Cannot evaluate a spread form at runtime"@, pretty_term(n.term), None, n.span),
        }
    }
}

/// The step after the condition of the waiting `if` `f` gave `cond`
/// (`Some(b)` for a boolean `b`, `None` for anything else): the branch it
/// picks is evaluated one level deeper than the `if`.
pub open spec fn resume_spec(f: FrameModel, cond: Option<bool>, max_depth: nat, atoms: Seq<Seq<char>>) -> Step {
    match cond {
        Some(b) => eval_spec(if b { f.then_branch } else { f.else_branch }, f.depth + 1, max_depth, atoms),
        None => fail("The condition for an `if` expression must evaluate to a Boolean."@,
            pretty_term(f.condition.term), None, f.condition.span),
    }
}

/// The value a literal denotes: numbers, strings, booleans and paths stand
/// for themselves; other forms are not literals.
pub open spec fn literal_value(t: Term) -> Option<ValueModel> {
    match t {
        Term::Number(x, _) => Some(ValueModel::Number(x)),
        Term::Str(x, _) => Some(ValueModel::Str(x)),
        Term::Bool(b, _) => Some(ValueModel::Bool(b)),
        Term::Path(p, _) => Some(ValueModel::Path(p)),
        _ => None,
    }
}

/// A literal within the depth limit evaluates at once to the value it
/// denotes, whatever atoms there are.
pub proof fn law_literals_evaluate_to_themselves(n: Node, depth: nat, max_depth: nat, atoms: Seq<Seq<char>>)
    requires
        depth <= max_depth,
        literal_value(n.term) is Some,
    ensures
        eval_spec(n, depth, max_depth, atoms) == Step::Done(literal_value(n.term)->Some_0),
{
}

/// Resuming a waiting `if` with `true` evaluates its then branch and with
/// `false` its else branch, one level below the `if`: a branch that is a
/// literal gives its value.
pub proof fn law_if_takes_the_branch(f: FrameModel, max_depth: nat, atoms: Seq<Seq<char>>)
    requires
        f.depth + 1 <= max_depth,
    ensures
        literal_value(f.then_branch.term) is Some
            ==> resume_spec(f, Some(true), max_depth, atoms) == Step::Done(literal_value(f.then_branch.term)->Some_0),
        literal_value(f.else_branch.term) is Some
            ==> resume_spec(f, Some(false), max_depth, atoms) == Step::Done(literal_value(f.else_branch.term)->Some_0),
{
}

/// Evaluating `(if b x y)` with a literal boolean `b` and literal branches
/// at a depth below the limit: the first step asks for the condition, the
/// condition gives `b`, and resuming with it gives `x` when `b` is true and
/// `y` when it is false.
pub proof fn law_if_on_literals(c: Node, t: Node, e: Node, sp: Span, span: Span, b: bool, depth: nat,
    max_depth: nat, atoms: Seq<Seq<char>>)
    requires
        depth + 1 <= max_depth,
        c.term matches Term::Bool(v, _) && v == b,
        literal_value(t.term) is Some,
        literal_value(e.term) is Some,
    ensures
        ({
            let n = Node { term: Term::If(Box::new(c), Box::new(t), Box::new(e), sp), span };
            &&& eval_spec(n, depth, max_depth, atoms) matches Step::Eval(f, cond, d)
            &&& eval_spec(cond, d, max_depth, atoms) == Step::Done(ValueModel::Bool(b))
            &&& b ==> resume_spec(f, Some(b), max_depth, atoms) == Step::Done(literal_value(t.term)->Some_0)
            &&& !b ==> resume_spec(f, Some(b), max_depth, atoms) == Step::Done(literal_value(e.term)->Some_0)
        }),
{
}

/// Past the depth limit nothing is evaluated: every node fails with the
/// depth-limit message at its own span.
pub proof fn law_depth_limit(n: Node, depth: nat, max_depth: nat, atoms: Seq<Seq<char>>)
    requires
        depth > max_depth,
    ensures
        eval_spec(n, depth, max_depth, atoms) matches Step::Fail(f)
            && f.message == "Recursion depth limit exceeded."@ && f.span == n.span,
{
}

/// A list headed by the name of an atom is handed to that atom with its
/// remaining items unevaluated, at the same depth; a list headed by any other
/// name fails at the head.
pub proof fn law_atom_calls(name: Seq<char>, head_span: Span, rest: Seq<Node>, sp: Span, span: Span, depth: nat,
    max_depth: nat, atoms: Seq<Seq<char>>)
    requires
        depth <= max_depth,
    ensures
        ({
            let head = Node { term: Term::Symbol(name, head_span), span: head_span };
            let n = Node { term: Term::List(seq![head] + rest, sp), span };
            &&& atoms.contains(name) ==> eval_spec(n, depth, max_depth, atoms) == Step::CallAtom(name, rest, sp, depth)
            &&& !atoms.contains(name) ==> (eval_spec(n, depth, max_depth, atoms) matches Step::Fail(f)
                && f.span == head_span)
        }),
{
    let head = Node { term: Term::Symbol(name, head_span), span: head_span };
    assert((seq![head] + rest)[0] == head);
    assert((seq![head] + rest).skip(1) =~= rest);
}

/// An `if` whose condition gave anything but a boolean fails at the
/// condition.
pub proof fn law_if_needs_a_boolean(f: FrameModel, max_depth: nat, atoms: Seq<Seq<char>>)
    ensures
        resume_spec(f, None, max_depth, atoms) matches Step::Fail(x) && x.span == f.condition.span,
{
}

// ---------------------------------------------------------------------------
// Implementation
// ---------------------------------------------------------------------------

fn eval_fail(message: &str, expanded: String, suggestion: Option<String>, span: Span) -> (r: EvalAction)
    ensures
        action_is(r, fail(message@, expanded@, crate::ast::opt_string_view(suggestion), span)),
{
    EvalAction::Fail(EngineError {
        kind: SutraErrorKind::Eval(EvalError {
            message: message.to_string(),
            expanded_code: expanded,
            original_code: None,
            suggestion,
        }),
        span: Some(span),
    })
}

fn has_atom(atoms: &Vec<String>, name: &str) -> (r: bool)
    ensures
        r == strings_view(atoms@).contains(name@),
{
    let mut i: usize = 0;
    while i < atoms.len()
        invariant
            i <= atoms@.len(),
            forall|j: int| 0 <= j < i ==> atoms@[j]@ != name@,
        decreases atoms@.len() - i,
    {
        if str_eq(atoms[i].as_str(), name) {
            assert(strings_view(atoms@)[i as int] == name@);
            return true;
        }
        i = i + 1;
    }
    proof {
        if strings_view(atoms@).contains(name@) {
            let j = choose|j: int| 0 <= j < strings_view(atoms@).len() && strings_view(atoms@)[j] == name@;
            assert(atoms@[j]@ == name@);
        }
    }
    false
}

fn quote_value(inner: &AstNode, whole: &AstNode) -> (r: EvalAction)
    ensures
        action_is(r, quote_spec(inner@, whole@)),
{
    match &*inner.value {
        Expr::Symbol(s, _) => EvalAction::Done(Value::String(s.clone())),
        Expr::List(items, _) => {
            let ghost itv = nodes_view(items@);
            proof { lemma_nodes_view(items@); }
            let mut vals: Vec<Value> = Vec::new();
            let ghost mut ms: Seq<ValueModel> = Seq::empty();
            let mut i: usize = 0;
            proof { assert(itv.subrange(0, 0) =~= Seq::<Node>::empty()); }
            while i < items.len()
                invariant
                    i <= items@.len(),
                    itv == nodes_view(items@),
                    itv.len() == items@.len(),
                    forall|j: int| 0 <= j < items@.len() ==> #[trigger] itv[j] == items@[j]@,
                    inner@.term matches Term::List(xs, _) && xs == itv,
                    quote_items(itv.subrange(0, i as int)) == Some(ms),
                    vals@.len() == ms.len(),
                    forall|j: int| 0 <= j < ms.len() ==> value_is(#[trigger] vals@[j], ms[j]),
                decreases items@.len() - i,
            {
                let item = &items[i];
                let ghost pre = itv.subrange(0, i as int);
                assert(itv.subrange(0, i + 1).drop_last() =~= pre);
                assert(itv.subrange(0, i + 1).last() == item@);
                let v = match &*item.value {
                    Expr::Symbol(s, _) => Value::String(s.clone()),
                    Expr::Number(t, _) => Value::Number(t.clone()),
                    Expr::Bool(b, _) => Value::Bool(*b),
                    Expr::String(s, _) => Value::String(s.clone()),
                    Expr::ParamList(_) => {
                        proof {
                            assert(quote_items(itv.subrange(0, i + 1)) is None);
                            lemma_quote_items_prefix_none(itv, i + 1);
                        }
                        return eval_fail("Cannot evaluate parameter list (ParamList AST node) inside quote",
                            (*inner.value).pretty(), None, inner.span);
                    },
                    _ => Value::Nil,
                };
                let ghost m = match item@.term {
                    Term::Symbol(s, _) => ValueModel::Str(s),
                    Term::Number(t, _) => ValueModel::Number(t),
                    Term::Bool(b, _) => ValueModel::Bool(b),
                    Term::Str(s, _) => ValueModel::Str(s),
                    _ => ValueModel::Nil,
                };
                assert(value_is(v, m));
                let ghost before = vals@;
                vals.push(v);
                proof {
                    let old_ms = ms;
                    ms = ms.push(m);
                    assert forall|j: int| 0 <= j < ms.len() implies value_is(#[trigger] vals@[j], ms[j]) by {
                        if j < ms.len() - 1 {
                            assert(vals@[j] == before[j]);
                            assert(ms[j] == old_ms[j]);
                        }
                    }
                }
                i = i + 1;
            }
            proof {
                assert(itv.subrange(0, i as int) =~= itv);
            }
            assert(value_is(Value::List(vals), ValueModel::List(ms)));
            EvalAction::Done(Value::List(vals))
        },
        Expr::Number(t, _) => EvalAction::Done(Value::Number(t.clone())),
        Expr::Bool(b, _) => EvalAction::Done(Value::Bool(*b)),
        Expr::String(s, _) => EvalAction::Done(Value::String(s.clone())),
        Expr::Path(p, _) => EvalAction::Done(Value::Path(Path(copy_strings(&p.0)))),
        Expr::ParamList(_) => eval_fail("Cannot evaluate parameter list (ParamList AST node) at runtime",
            (*whole.value).pretty(), None, whole.span),
        _ => EvalAction::Done(Value::Nil),
    }
}

proof fn lemma_quote_items_prefix_none(items: Seq<Node>, k: int)
    requires
        0 <= k <= items.len(),
        quote_items(items.subrange(0, k)) is None,
    ensures
        quote_items(items) is None,
    decreases items.len(),
{
    if items.len() > k {
        assert(items.drop_last().subrange(0, k) =~= items.subrange(0, k));
        lemma_quote_items_prefix_none(items.drop_last(), k);
    } else {
        assert(items.subrange(0, k) =~= items);
    }
}

/// The first evaluation step of `expr` at `depth`, where evaluation may go
/// `max_depth` deep and `atoms` are the names of the atoms: a value, a
/// failure, a call of an atom, or a sub-node to evaluate first.
pub fn eval_expr(expr: &AstNode, depth: usize, max_depth: usize, atoms: &Vec<String>) -> (r: EvalAction)
    requires
        max_depth < usize::MAX,
    ensures
        action_is(r, eval_spec(expr@, depth as nat, max_depth as nat, strings_view(atoms@))),
{
    assert(expr@.term == expr_view(*expr.value));
    if depth > max_depth {
        return eval_fail("Recursion depth limit exceeded.", (*expr.value).pretty(), None, expr.span);
    }
    match &*expr.value {
        Expr::List(items, span) => {
            proof { lemma_nodes_view(items@); }
            if items.len() == 0 {
                let empty: Vec<Value> = Vec::new();
                assert(value_is(Value::List(empty), ValueModel::List(Seq::empty())));
                return EvalAction::Done(Value::List(empty));
            }
            let head = &items[0];
            match &*head.value {
                Expr::Symbol(s, _) => {
                    if has_atom(atoms, s.as_str()) {
                        let mut args: Vec<AstNode> = Vec::new();
                        let mut i: usize = 1;
                        while i < items.len()
                            invariant
                                1 <= i <= items@.len(),
                                args@ == items@.subrange(1, i as int),
                            decreases items@.len() - i,
                        {
                            args.push(share(&items[i]));
                            i = i + 1;
                            assert(args@ =~= items@.subrange(1, i as int));
                        }
                        proof {
                            crate::ast::lemma_nodes_view_subrange(items@, 1, items@.len() as int);
                            assert(nodes_view(items@).skip(1) =~= nodes_view(items@).subrange(1, items@.len() as int));
                        }
                        EvalAction::CallAtom { name: s.clone(), args, span: *span, depth }
                    } else {
                        let mut msg = String::new();
                        push_str(&mut msg, "Atom '");
                        push_str(&mut msg, s.as_str());
                        push_str(&mut msg, "' not found.");
                        assert(msg@ =~= "Atom '"@ + s@ + "' not found."@);
                        eval_fail(msg.as_str(), (*expr.value).pretty(), None, head.span)
                    }
                },
                _ => eval_fail("The first element of a list to be evaluated must be a symbol naming an atom.",
                    (*expr.value).pretty(), None, head.span),
            }
        },
        Expr::Quote(inner, _) => quote_value(inner, expr),
        Expr::ParamList(_) => eval_fail("Cannot evaluate parameter list (ParamList AST node) at runtime",
            (*expr.value).pretty(), None, expr.span),
        Expr::Symbol(s, span) => {
            let mut msg = String::new();
            push_str(&mut msg, "Unexpected bare symbol '");
            push_str(&mut msg, s.as_str());
            push_str(&mut msg, "' found during evaluation. All value lookups must be explicit `(get ...)` calls.");
            assert(msg@ =~= "Unexpected bare symbol '"@ + s@
                + "' found during evaluation. All value lookups must be explicit `(get ...)` calls."@);
            let suggestion = "Did you mean to use `(get ...)`?".to_string();
            eval_fail(msg.as_str(), (*expr.value).pretty(), Some(suggestion), *span)
        },
        Expr::Path(p, _) => EvalAction::Done(Value::Path(Path(copy_strings(&p.0)))),
        Expr::String(s, _) => EvalAction::Done(Value::String(s.clone())),
        Expr::Number(t, _) => EvalAction::Done(Value::Number(t.clone())),
        Expr::Bool(b, _) => EvalAction::Done(Value::Bool(*b)),
        Expr::If { condition, then_branch, else_branch, .. } => {
            let frame = EvalFrame {
                condition: share(condition),
                then_branch: share(then_branch),
                else_branch: share(else_branch),
                depth,
            };
            EvalAction::Eval { frame, expr: share(condition), depth: depth + 1 }
        },
        Expr::Define { span, .. } => eval_fail("Cannot evaluate a define form at runtime", (*expr.value).pretty(),
            None, *span),
        Expr::Spread(_) => eval_fail("Cannot evaluate a spread form at runtime", (*expr.value).pretty(), None,
            expr.span),
    }
}

/// The step after the condition of the waiting `if` `frame` gave `v`: a
/// boolean picks the branch, evaluated one level deeper than the `if`;
/// anything else fails.
pub fn eval_resume(frame: EvalFrame, v: &Value, max_depth: usize, atoms: &Vec<String>) -> (r: EvalAction)
    requires
        max_depth < usize::MAX,
        frame.depth < usize::MAX,
    ensures
        action_is(r, resume_spec(frame_view(frame), match v { Value::Bool(b) => Some(*b), _ => None },
            max_depth as nat, strings_view(atoms@))),
{
    match v {
        Value::Bool(b) => {
            if *b {
                eval_expr(&frame.then_branch, frame.depth + 1, max_depth, atoms)
            } else {
                eval_expr(&frame.else_branch, frame.depth + 1, max_depth, atoms)
            }
        },
        _ => {
            assert(frame.condition@.term == expr_view(*frame.condition.value));
            eval_fail("The condition for an `if` expression must evaluate to a Boolean.",
                (*frame.condition.value).pretty(), None, frame.condition.span)
        },
    }
}

} // verus!
