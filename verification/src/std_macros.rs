//! The standard macros: author-facing forms for world paths and assignments.
//!
//! They turn user path syntax (`player.score`, `(player score)`, a path
//! literal) into canonical path nodes and desugar `set!`, `get`, `del!`,
//! `exists?`, `add!`, `sub!`, `inc!`, `dec!` and `print` into the core
//! operations.
use vstd::prelude::*;
use std::sync::Arc;
use crate::span::Span;
use crate::ast::{AstNode, Expr, Node, Path, Term, make_node, share, strings_view, nodes_view, node_view,
    lemma_nodes_view, lemma_nodes_view_concat, lemma_nodes_view_single, lemma_nodes_view_subrange};
use crate::errors::{SutraError, SourceContext, Fault, general_fault, arity_fault, general_error, arity_error};
use crate::text::{chars_of, string_from_chars, decimal, push_str, push_decimal, str_eq};
use crate::ast::{term_span, expr_view};
use crate::eval_error::{SutraError as EngineError, SutraErrorKind};

verus! {

/// The standard macros.
#[derive(Debug, Clone, Copy, PartialEq, Eq)]
pub enum BuiltinMacro {
    SetPath,
    GetPath,
    DelPath,
    Exists,
    Add,
    Sub,
    Inc,
    Dec,
    Print,
}

// ---------------------------------------------------------------------------
// Specification
// ---------------------------------------------------------------------------

/// Splits `s` at every `.`, keeping empty pieces; `cur` is the piece being
/// read and `acc` the pieces already complete.
pub open spec fn split_dots_from(s: Seq<char>, cur: Seq<char>, acc: Seq<Seq<char>>) -> Seq<Seq<char>>
    decreases s.len(),
{
    if s.len() == 0 {
        acc.push(cur)
    } else if s[0] == '.' {
        split_dots_from(s.drop_first(), Seq::empty(), acc.push(cur))
    } else {
        split_dots_from(s.drop_first(), cur.push(s[0]), acc)
    }
}

/// The pieces of `s` between dots (`"a.b"` gives `a`, `b`).
pub open spec fn split_dots(s: Seq<char>) -> Seq<Seq<char>> {
    split_dots_from(s, Seq::empty(), Seq::empty())
}

/// A symbol node.
pub open spec fn sym_node(name: Seq<char>, span: Span) -> Node {
    Node { term: Term::Symbol(name, span), span }
}

/// A list node whose list span and node span are both `span`.
pub open spec fn list_node(items: Seq<Node>, span: Span) -> Node {
    Node { term: Term::List(items, span), span }
}

/// The path keys named by the items of a path list, or a failure.
pub open spec fn list_path(items: Seq<Node>, whole: Span) -> Result<Seq<Seq<char>>, Fault>
    decreases items.len(),
{
    if items.len() == 0 {
        Ok(Seq::empty())
    } else {
        match list_path(items.drop_last(), whole) {
            Ok(prev) => match items.last().term {
                Term::Symbol(s, _) => Ok(prev.push(s)),
                Term::Str(s, _) => Ok(prev.push(s)),
                _ => Err(general_fault("Path elements must be symbols or strings"@, whole)),
            },
            Err(f) => Err(f),
        }
    }
}

/// The world path an expression denotes: a dotted symbol, a path literal, or
/// a list of symbols and strings.
pub open spec fn expr_to_path_spec(n: Node) -> Result<Seq<Seq<char>>, Fault> {
    match n.term {
        Term::Symbol(s, _) => Ok(split_dots(s)),
        Term::Path(p, _) => Ok(p),
        Term::List(items, _) => list_path(items, n.span),
        _ => Err(general_fault("Expression cannot be converted to a path"@, n.span)),
    }
}

/// The canonical path node for an expression.
pub open spec fn canonical_path_spec(n: Node) -> Result<Node, Fault> {
    match expr_to_path_spec(n) {
        Ok(p) => Ok(Node { term: Term::Path(p, n.span), span: n.span }),
        Err(f) => Err(f),
    }
}

/// `(core/get <path>)`, where the path falls back to the expression itself
/// when it names no path.
pub open spec fn wrap_in_get_spec(n: Node) -> Node {
    let path = match canonical_path_spec(n) {
        Ok(p) => p,
        Err(_) => n,
    };
    list_node(seq![sym_node("core/get"@, n.span), path], n.span)
}

/// The failure for a standard macro given too few arguments.
pub open spec fn macro_arity_fault(expected: nat, got: nat) -> Fault {
    arity_fault("at least "@ + decimal(expected), got, Span { start: 0, end: 0 })
}

/// `got - 1`, or zero.
pub open spec fn args_count(len: nat) -> nat {
    if len == 0 { 0 } else { (len - 1) as nat }
}

/// `(op <path> rest...)` for a call with at least `min_args` items.
pub open spec fn path_op_spec(n: Node, op: Seq<char>, min_args: nat) -> Result<Node, Fault> {
    match n.term {
        Term::List(items, span) => {
            if items.len() < min_args {
                Err(macro_arity_fault((min_args - 1) as nat, args_count(items.len())))
            } else if items.len() > 1 {
                match canonical_path_spec(items[1]) {
                    Ok(p) => Ok(list_node(seq![sym_node(op, span), p] + items.subrange(2, items.len() as int), span)),
                    Err(f) => Err(f),
                }
            } else {
                Ok(list_node(seq![sym_node(op, span)], span))
            }
        },
        _ => Err(general_fault("Expected list form for macro"@, n.span)),
    }
}

/// `(core/set! <path> (op (core/get <path>) value))`.
pub open spec fn assignment_spec(n: Node, op: Seq<char>) -> Result<Node, Fault> {
    match n.term {
        Term::List(items, span) => {
            if items.len() < 3 {
                Err(macro_arity_fault(2, args_count(items.len())))
            } else {
                match canonical_path_spec(items[1]) {
                    Ok(p) => {
                        let inner = list_node(seq![sym_node(op, items[0].span), wrap_in_get_spec(items[1]), items[2]], span);
                        Ok(list_node(seq![sym_node("core/set!"@, items[0].span), p, inner], span))
                    },
                    Err(f) => Err(f),
                }
            }
        },
        _ => Err(general_fault("Expected list form for macro"@, n.span)),
    }
}

/// `(core/set! <path> (op (core/get <path>) 1))`.
pub open spec fn unary_assignment_spec(n: Node, op: Seq<char>) -> Result<Node, Fault> {
    match n.term {
        Term::List(items, span) => {
            if items.len() < 2 {
                Err(macro_arity_fault(1, args_count(items.len())))
            } else {
                match canonical_path_spec(items[1]) {
                    Ok(p) => {
                        let one = Node { term: Term::Number("1"@, items[0].span), span: items[0].span };
                        let inner = list_node(seq![sym_node(op, items[0].span), wrap_in_get_spec(items[1]), one], span);
                        Ok(list_node(seq![sym_node("core/set!"@, items[0].span), p, inner], span))
                    },
                    Err(f) => Err(f),
                }
            }
        },
        _ => Err(general_fault("Expected list form for macro"@, n.span)),
    }
}

/// What each standard macro expands a call into.
pub open spec fn builtin_spec(b: BuiltinMacro, n: Node) -> Result<Node, Fault> {
    match b {
        BuiltinMacro::SetPath => path_op_spec(n, "core/set!"@, 2),
        BuiltinMacro::GetPath => path_op_spec(n, "core/get"@, 1),
        BuiltinMacro::DelPath => path_op_spec(n, "core/del!"@, 1),
        BuiltinMacro::Exists => path_op_spec(n, "core/exists?"@, 1),
        BuiltinMacro::Add => assignment_spec(n, "+"@),
        BuiltinMacro::Sub => assignment_spec(n, "-"@),
        BuiltinMacro::Inc => unary_assignment_spec(n, "+"@),
        BuiltinMacro::Dec => unary_assignment_spec(n, "-"@),
        BuiltinMacro::Print => path_op_spec(n, "core/print"@, 1),
    }
}

/// The operator of the updating call in an expansion
/// `(core/set! <path> (op (core/get <path>) amount))`, if it has that shape.
pub open spec fn update_operator(r: Result<Node, Fault>) -> Option<Seq<char>> {
    match r {
        Ok(m) => match m.term {
            Term::List(items, _) => {
                if items.len() == 3 {
                    match items[2].term {
                        Term::List(call, _) => {
                            if call.len() == 3 {
                                match call[0].term {
                                    Term::Symbol(op, _) => Some(op),
                                    _ => None,
                                }
                            } else {
                                None
                            }
                        },
                        _ => None,
                    }
                } else {
                    None
                }
            },
            _ => None,
        },
        Err(_) => None,
    }
}

/// The amount an expansion adds or subtracts, when it is a number literal.
pub open spec fn update_amount(r: Result<Node, Fault>) -> Option<Seq<char>> {
    match r {
        Ok(m) => match m.term {
            Term::List(items, _) => {
                if items.len() == 3 {
                    match items[2].term {
                        Term::List(call, _) => {
                            if call.len() == 3 {
                                match call[2].term {
                                    Term::Number(v, _) => Some(v),
                                    _ => None,
                                }
                            } else {
                                None
                            }
                        },
                        _ => None,
                    }
                } else {
                    None
                }
            },
            _ => None,
        },
        Err(_) => None,
    }
}

/// The assignment macros come in pairs: `inc!` and `dec!` accept the same
/// calls, as do `add!` and `sub!`; what `inc!` and `add!` expand to updates the
/// place with `+`, what `dec!` and `sub!` expand to updates it with `-`, and
/// `inc!` and `dec!` step by the literal `1`.
pub proof fn law_assignment_operators(n: Node)
    ensures
        builtin_spec(BuiltinMacro::Inc, n) is Ok <==> builtin_spec(BuiltinMacro::Dec, n) is Ok,
        builtin_spec(BuiltinMacro::Add, n) is Ok <==> builtin_spec(BuiltinMacro::Sub, n) is Ok,
        builtin_spec(BuiltinMacro::Inc, n) is Ok ==> update_operator(builtin_spec(BuiltinMacro::Inc, n)) == Some("+"@),
        builtin_spec(BuiltinMacro::Dec, n) is Ok ==> update_operator(builtin_spec(BuiltinMacro::Dec, n)) == Some("-"@),
        builtin_spec(BuiltinMacro::Add, n) is Ok ==> update_operator(builtin_spec(BuiltinMacro::Add, n)) == Some("+"@),
        builtin_spec(BuiltinMacro::Sub, n) is Ok ==> update_operator(builtin_spec(BuiltinMacro::Sub, n)) == Some("-"@),
        builtin_spec(BuiltinMacro::Inc, n) is Ok ==> update_amount(builtin_spec(BuiltinMacro::Inc, n)) == Some("1"@),
        builtin_spec(BuiltinMacro::Dec, n) is Ok ==> update_amount(builtin_spec(BuiltinMacro::Dec, n)) == Some("1"@),
{
}

/// The `i`-th item of an expansion that is a list.
pub open spec fn expansion_item(r: Result<Node, Fault>, i: int) -> Option<Node> {
    match r {
        Ok(m) => match m.term {
            Term::List(items, _) => if 0 <= i < items.len() { Some(items[i]) } else { None },
            _ => None,
        },
        Err(_) => None,
    }
}

/// The operand of the updating call in an expansion
/// `(core/set! <path> (op (core/get <path>) operand))`.
pub open spec fn update_operand(r: Result<Node, Fault>) -> Option<Node> {
    match expansion_item(r, 2) {
        Some(call) => match call.term {
            Term::List(c, _) => if c.len() == 3 { Some(c[2]) } else { None },
            _ => None,
        },
        None => None,
    }
}

/// The name at the head of an expansion.
pub open spec fn expansion_head(r: Result<Node, Fault>) -> Option<Seq<char>> {
    match expansion_item(r, 0) {
        Some(h) => match h.term {
            Term::Symbol(s, _) => Some(s),
            _ => None,
        },
        None => None,
    }
}

/// Each standard macro expands to the core operation it stands for:
/// `set!`, `add!`, `sub!`, `inc!` and `dec!` to `core/set!`, `get` to
/// `core/get`, `del!` to `core/del!`, `exists?` to `core/exists?` and `print`
/// to `core/print`; the place a call names becomes the canonical path of its
/// first argument, and `add!` and `sub!` update by their second argument.
pub proof fn law_macros_expand_to_core_operations(b: BuiltinMacro, n: Node)
    ensures
        builtin_spec(b, n) is Ok ==> expansion_head(builtin_spec(b, n)) == Some(match b {
            BuiltinMacro::GetPath => "core/get"@,
            BuiltinMacro::DelPath => "core/del!"@,
            BuiltinMacro::Exists => "core/exists?"@,
            BuiltinMacro::Print => "core/print"@,
            _ => "core/set!"@,
        }),
        (match n.term {
            Term::List(items, _) => {
                &&& items.len() >= 2 && builtin_spec(b, n) is Ok ==> canonical_path_spec(items[1]) is Ok
                    && expansion_item(builtin_spec(b, n), 1) == Some(canonical_path_spec(items[1])->Ok_0)
                &&& builtin_spec(b, n) is Ok && (b == BuiltinMacro::Add || b == BuiltinMacro::Sub)
                    ==> update_operand(builtin_spec(b, n)) == Some(items[2])
            },
            _ => true,
        }),
{
}

/// A failure in a prefix of a path list is the failure of the whole list.
proof fn lemma_list_path_prefix_err(items: Seq<Node>, k: int, whole: Span)
    requires
        0 <= k <= items.len(),
        list_path(items.subrange(0, k), whole) is Err,
    ensures
        list_path(items, whole) == list_path(items.subrange(0, k), whole),
    decreases items.len(),
{
    if items.len() > k {
        assert(items.drop_last().subrange(0, k) =~= items.subrange(0, k));
        lemma_list_path_prefix_err(items.drop_last(), k, whole);
    } else {
        assert(items.subrange(0, k) =~= items);
    }
}

// ---------------------------------------------------------------------------
// Implementation
// ---------------------------------------------------------------------------

fn path_source() -> (r: SourceContext)
    ensures
        r.name@ == "macro"@,
        r.content@ == "path conversion"@,
{
    SourceContext::from_file("macro", "path conversion")
}

/// Splits a string at every `.`, keeping empty pieces.
pub fn split_dots_exec(s: &str) -> (r: Vec<String>)
    ensures
        strings_view(r@) == split_dots(s@),
{
    let cs = chars_of(s);
    let mut acc: Vec<String> = Vec::new();
    let mut cur: Vec<char> = Vec::new();
    let mut i: usize = 0;
    proof {
        assert(cs@.skip(0) =~= s@);
        assert(strings_view(acc@) =~= Seq::<Seq<char>>::empty());
    }
    while i < cs.len()
        invariant
            i <= cs@.len(),
            cs@ == s@,
            split_dots_from(cs@.skip(i as int), cur@, strings_view(acc@)) == split_dots(s@),
        decreases cs@.len() - i,
    {
        let c = cs[i];
        proof {
            assert(cs@.skip(i as int).drop_first() =~= cs@.skip(i + 1));
        }
        if c == '.' {
            let piece = string_from_chars(cur.as_slice());
            let ghost before = acc@;
            acc.push(piece);
            cur = Vec::new();
            proof {
                assert(strings_view(acc@) =~= strings_view(before).push(piece@));
                assert(cur@ =~= Seq::<char>::empty());
            }
        } else {
            cur.push(c);
        }
        i = i + 1;
    }
    let piece = string_from_chars(cur.as_slice());
    let ghost before = acc@;
    acc.push(piece);
    proof {
        assert(cs@.skip(i as int) =~= Seq::<char>::empty());
        assert(strings_view(acc@) =~= strings_view(before).push(piece@));
    }
    acc
}

/// The world path an expression denotes: a dotted symbol such as
/// `player.score`, a path literal, or a list of symbols and strings.
pub fn expr_to_path(expr: &AstNode) -> (r: Result<Path, SutraError>)
    ensures
        match (r, expr_to_path_spec(expr@)) {
            (Ok(p), Ok(q)) => p@ == q,
            (Err(e), Err(f)) => e.fault() == f,
            _ => false,
        },
{
    match &*expr.value {
        Expr::Symbol(s, _) => Ok(Path(split_dots_exec(s.as_str()))),
        Expr::Path(p, _) => Ok(Path(crate::ast::copy_strings(&p.0))),
        Expr::List(items, lspan) => {
            assert(expr@.term == Term::List(nodes_view(items@), *lspan));
            let mut parts: Vec<String> = Vec::new();
            let mut i: usize = 0;
            proof {
                lemma_nodes_view(items@);
                assert(items@.subrange(0, 0) =~= Seq::<AstNode>::empty());
                assert(nodes_view(Seq::<AstNode>::empty()) =~= Seq::<Node>::empty());
                assert(strings_view(parts@) =~= Seq::<Seq<char>>::empty());
            }
            while i < items.len()
                invariant
                    i <= items@.len(),
                    list_path(nodes_view(items@.subrange(0, i as int)), expr.span) == Ok::<Seq<Seq<char>>, Fault>(strings_view(parts@)),
                    expr@.term == Term::List(nodes_view(items@), *lspan),
                decreases items@.len() - i,
            {
                proof {
                    lemma_nodes_view(items@.subrange(0, i + 1));
                    assert(items@.subrange(0, i + 1).drop_last() =~= items@.subrange(0, i as int));
                    lemma_nodes_view(items@.subrange(0, i as int));
                    assert(nodes_view(items@.subrange(0, i + 1)).drop_last() =~= nodes_view(items@.subrange(0, i as int)));
                    assert(nodes_view(items@.subrange(0, i + 1)).last() == node_view(items@[i as int]));
                }
                match &*items[i].value {
                    Expr::Symbol(s, _) => {
                        let ghost before = parts@;
                        parts.push(s.clone());
                        proof { assert(strings_view(parts@) =~= strings_view(before).push(s@)); }
                    },
                    Expr::String(s, _) => {
                        let ghost before = parts@;
                        parts.push(s.clone());
                        proof { assert(strings_view(parts@) =~= strings_view(before).push(s@)); }
                    },
                    _ => {
                        proof {
                            lemma_nodes_view(items@);
                            lemma_nodes_view_subrange(items@, 0, i + 1);
                            assert(nodes_view(items@.subrange(0, i + 1)).drop_last() =~= nodes_view(items@.subrange(0, i as int))) by {
                                lemma_nodes_view(items@.subrange(0, i + 1));
                                lemma_nodes_view(items@.subrange(0, i as int));
                            }
                            assert(list_path(nodes_view(items@.subrange(0, i + 1)), expr.span)
                                == Err::<Seq<Seq<char>>, Fault>(general_fault("Path elements must be symbols or strings"@, expr.span)));
                            lemma_list_path_prefix_err(nodes_view(items@), i + 1, expr.span);
                            assert(nodes_view(items@).subrange(0, i + 1) == nodes_view(items@.subrange(0, i + 1)));
                            assert(expr@.term == Term::List(nodes_view(items@), *lspan));
                            assert(expr_to_path_spec(expr@) == list_path(nodes_view(items@), expr.span));
                        }
                        return Err(general_error("Path elements must be symbols or strings", path_source(), "path conversion", expr.span));
                    },
                }
                i = i + 1;
            }
            proof {
                assert(items@.subrange(0, items@.len() as int) =~= items@);
            }
            Ok(Path(parts))
        },
        _ => Err(general_error("Expression cannot be converted to a path", path_source(), "path conversion", expr.span)),
    }
}

/// The canonical path node `(path ...)` for a path expression.
pub fn create_canonical_path(path_arg: &AstNode) -> (r: Result<AstNode, SutraError>)
    ensures
        match (r, canonical_path_spec(path_arg@)) {
            (Ok(n), Ok(m)) => n@ == m,
            (Err(e), Err(f)) => e.fault() == f,
            _ => false,
        },
{
    let p = expr_to_path(path_arg)?;
    Ok(make_node(Expr::Path(p, path_arg.span), path_arg.span))
}

fn symbol_node(name: &str, span: Span) -> (r: AstNode)
    ensures
        r@ == sym_node(name@, span),
{
    make_node(Expr::Symbol(name.to_string(), span), span)
}

fn list_of(items: Vec<AstNode>, span: Span) -> (r: AstNode)
    ensures
        r@ == list_node(nodes_view(items@), span),
{
    make_node(Expr::List(items, span), span)
}

/// `(core/get <path>)` for an expression, keeping the expression itself
/// where it names no path.
pub fn wrap_in_get(expr: &AstNode) -> (r: AstNode)
    ensures
        r@ == wrap_in_get_spec(expr@),
{
    let get_symbol = symbol_node("core/get", expr.span);
    let path_expr = match create_canonical_path(expr) {
        Ok(p) => p,
        Err(_) => share(expr),
    };
    let mut items: Vec<AstNode> = Vec::new();
    items.push(get_symbol);
    items.push(path_expr);
    proof {
        lemma_nodes_view(items@);
        assert(nodes_view(items@) =~= seq![items@[0]@, items@[1]@]);
    }
    list_of(items, expr.span)
}

fn macro_arity_error(expected: usize, got: usize, op_name: &str) -> (r: SutraError)
    ensures
        r.fault() == macro_arity_fault(expected as nat, got as nat),
{
    let mut text = String::new();
    push_str(&mut text, "at least ");
    push_decimal(&mut text, expected);
    arity_error(text.as_str(), got, SourceContext::from_file("macro", op_name), "macro", Span { start: 0, end: 0 })
}

fn list_form_error(expr: &AstNode, op_name: &str) -> (r: SutraError)
    ensures
        r.fault() == general_fault("Expected list form for macro"@, expr.span),
{
    general_error("Expected list form for macro", SourceContext::from_file(op_name, "macro expansion"), "macro expansion", expr.span)
}

fn path_op(expr: &AstNode, op_name: &str, min_args: usize) -> (r: Result<AstNode, SutraError>)
    requires
        min_args >= 1,
    ensures
        match (r, path_op_spec(expr@, op_name@, min_args as nat)) {
            (Ok(n), Ok(m)) => n@ == m,
            (Err(e), Err(f)) => e.fault() == f,
            _ => false,
        },
{
    match &*expr.value {
        Expr::List(items, span) => {
            proof { lemma_nodes_view(items@); }
            if items.len() < min_args {
                let got = if items.len() == 0 { 0 } else { items.len() - 1 };
                return Err(macro_arity_error(min_args - 1, got, op_name));
            }
            let mut new_items: Vec<AstNode> = Vec::new();
            new_items.push(symbol_node(op_name, *span));
            if items.len() > 1 {
                let p = create_canonical_path(&items[1])?;
                new_items.push(p);
                let mut i: usize = 2;
                while i < items.len()
                    invariant
                        2 <= i <= items@.len(),
                        new_items@.len() == i,
                        new_items@.subrange(2, i as int) == items@.subrange(2, i as int),
                        new_items@[0]@ == sym_node(op_name@, *span),
                        canonical_path_spec(node_view(items@[1])) == Ok::<Node, Fault>(new_items@[1]@),
                    decreases items@.len() - i,
                {
                    new_items.push(share(&items[i]));
                    i = i + 1;
                    assert(new_items@.subrange(2, i as int) =~= items@.subrange(2, i as int));
                }
                proof {
                    lemma_nodes_view(new_items@);
                    lemma_nodes_view_subrange(items@, 2, items@.len() as int);
                    lemma_nodes_view_subrange(new_items@, 2, new_items@.len() as int);
                    assert(nodes_view(new_items@) =~= seq![sym_node(op_name@, *span), new_items@[1]@]
                        + nodes_view(items@).subrange(2, items@.len() as int));
                }
            } else {
                proof {
                    lemma_nodes_view(new_items@);
                    assert(nodes_view(new_items@) =~= seq![sym_node(op_name@, *span)]);
                }
            }
            Ok(list_of(new_items, *span))
        },
        _ => Err(list_form_error(expr, op_name)),
    }
}


/// The assignment macro `macro_name`: `(core/set! <path> (op_symbol (core/get <path>) value))`,
/// the value being `1` for a unary one.
fn assignment(expr: &AstNode, macro_name: &str, op_symbol: &str, unary: bool) -> (r: Result<AstNode, SutraError>)
    ensures
        match (r, if unary { unary_assignment_spec(expr@, op_symbol@) } else { assignment_spec(expr@, op_symbol@) }) {
            (Ok(n), Ok(m)) => n@ == m,
            (Err(e), Err(f)) => e.fault() == f,
            _ => false,
        },
{
    match &*expr.value {
        Expr::List(items, span) => {
            proof { lemma_nodes_view(items@); }
            let needed: usize = if unary { 2 } else { 3 };
            if items.len() < needed {
                let got = if items.len() == 0 { 0 } else { items.len() - 1 };
                return Err(macro_arity_error(needed - 1, got, macro_name));
            }
            let head_span = items[0].span;
            let getter = wrap_in_get(&items[1]);
            let operand = if unary {
                make_node(Expr::Number("1".to_string(), head_span), head_span)
            } else {
                share(&items[2])
            };
            let mut inner_items: Vec<AstNode> = Vec::new();
            inner_items.push(symbol_node(op_symbol, head_span));
            inner_items.push(getter);
            inner_items.push(operand);
            proof {
                lemma_nodes_view(inner_items@);
                assert(nodes_view(inner_items@) =~= seq![inner_items@[0]@, inner_items@[1]@, inner_items@[2]@]);
            }
            let inner = list_of(inner_items, *span);
            let path = create_canonical_path(&items[1])?;
            let mut outer: Vec<AstNode> = Vec::new();
            outer.push(symbol_node("core/set!", head_span));
            outer.push(path);
            outer.push(inner);
            proof {
                lemma_nodes_view(outer@);
                assert(nodes_view(outer@) =~= seq![outer@[0]@, outer@[1]@, outer@[2]@]);
            }
            Ok(list_of(outer, *span))
        },
        _ => Err(list_form_error(expr, macro_name)),
    }
}

/// Expands a call of the standard macro `b`.
pub fn expand_builtin(b: BuiltinMacro, expr: &AstNode) -> (r: Result<AstNode, SutraError>)
    ensures
        match (r, builtin_spec(b, expr@)) {
            (Ok(n), Ok(m)) => n@ == m,
            (Err(e), Err(f)) => e.fault() == f,
            _ => false,
        },
{
    match b {
        BuiltinMacro::SetPath => path_op(expr, "core/set!", 2),
        BuiltinMacro::GetPath => path_op(expr, "core/get", 1),
        BuiltinMacro::DelPath => path_op(expr, "core/del!", 1),
        BuiltinMacro::Exists => path_op(expr, "core/exists?", 1),
        BuiltinMacro::Add => assignment(expr, "add!", "+", false),
        BuiltinMacro::Sub => assignment(expr, "sub!", "-", false),
        BuiltinMacro::Inc => assignment(expr, "inc!", "+", true),
        BuiltinMacro::Dec => assignment(expr, "dec!", "-", true),
        BuiltinMacro::Print => path_op(expr, "core/print", 1),
    }
}

/// `(set! path value)` becomes `(core/set! <path> value)`.
pub fn expand_set(expr: &AstNode) -> (r: Result<AstNode, SutraError>)
    ensures
        match (r, builtin_spec(BuiltinMacro::SetPath, expr@)) {
            (Ok(n), Ok(m)) => n@ == m,
            (Err(e), Err(f)) => e.fault() == f,
            _ => false,
        },
{
    expand_builtin(BuiltinMacro::SetPath, expr)
}

/// `(get path)` becomes `(core/get <path>)`.
pub fn expand_get(expr: &AstNode) -> (r: Result<AstNode, SutraError>)
    ensures
        match (r, builtin_spec(BuiltinMacro::GetPath, expr@)) {
            (Ok(n), Ok(m)) => n@ == m,
            (Err(e), Err(f)) => e.fault() == f,
            _ => false,
        },
{
    expand_builtin(BuiltinMacro::GetPath, expr)
}

/// `(del! path)` becomes `(core/del! <path>)`.
pub fn expand_del(expr: &AstNode) -> (r: Result<AstNode, SutraError>)
    ensures
        match (r, builtin_spec(BuiltinMacro::DelPath, expr@)) {
            (Ok(n), Ok(m)) => n@ == m,
            (Err(e), Err(f)) => e.fault() == f,
            _ => false,
        },
{
    expand_builtin(BuiltinMacro::DelPath, expr)
}

/// `(exists? path)` becomes `(core/exists? <path>)`.
pub fn expand_exists(expr: &AstNode) -> (r: Result<AstNode, SutraError>)
    ensures
        match (r, builtin_spec(BuiltinMacro::Exists, expr@)) {
            (Ok(n), Ok(m)) => n@ == m,
            (Err(e), Err(f)) => e.fault() == f,
            _ => false,
        },
{
    expand_builtin(BuiltinMacro::Exists, expr)
}

/// `(add! path v)` becomes `(core/set! <path> (+ (core/get <path>) v))`.
pub fn expand_add(expr: &AstNode) -> (r: Result<AstNode, SutraError>)
    ensures
        match (r, builtin_spec(BuiltinMacro::Add, expr@)) {
            (Ok(n), Ok(m)) => n@ == m,
            (Err(e), Err(f)) => e.fault() == f,
            _ => false,
        },
{
    expand_builtin(BuiltinMacro::Add, expr)
}

/// `(sub! path v)` becomes `(core/set! <path> (- (core/get <path>) v))`.
pub fn expand_sub(expr: &AstNode) -> (r: Result<AstNode, SutraError>)
    ensures
        match (r, builtin_spec(BuiltinMacro::Sub, expr@)) {
            (Ok(n), Ok(m)) => n@ == m,
            (Err(e), Err(f)) => e.fault() == f,
            _ => false,
        },
{
    expand_builtin(BuiltinMacro::Sub, expr)
}

/// `(inc! path)` becomes `(core/set! <path> (+ (core/get <path>) 1))`.
pub fn expand_inc(expr: &AstNode) -> (r: Result<AstNode, SutraError>)
    ensures
        match (r, builtin_spec(BuiltinMacro::Inc, expr@)) {
            (Ok(n), Ok(m)) => n@ == m,
            (Err(e), Err(f)) => e.fault() == f,
            _ => false,
        },
{
    expand_builtin(BuiltinMacro::Inc, expr)
}

/// `(dec! path)` becomes `(core/set! <path> (- (core/get <path>) 1))`.
pub fn expand_dec(expr: &AstNode) -> (r: Result<AstNode, SutraError>)
    ensures
        match (r, builtin_spec(BuiltinMacro::Dec, expr@)) {
            (Ok(n), Ok(m)) => n@ == m,
            (Err(e), Err(f)) => e.fault() == f,
            _ => false,
        },
{
    expand_builtin(BuiltinMacro::Dec, expr)
}

/// `(print path)` becomes `(core/print <path>)`.
pub fn expand_print(expr: &AstNode) -> (r: Result<AstNode, SutraError>)
    ensures
        match (r, builtin_spec(BuiltinMacro::Print, expr@)) {
            (Ok(n), Ok(m)) => n@ == m,
            (Err(e), Err(f)) => e.fault() == f,
            _ => false,
        },
{
    expand_builtin(BuiltinMacro::Print, expr)
}

/// The standard macros added to a macro map.
pub open spec fn with_std_macros(m: Map<Seq<char>, crate::macros::MacroDefinition>) -> Map<Seq<char>, crate::macros::MacroDefinition> {
    m.insert("del!"@, crate::macros::MacroDefinition::Function(BuiltinMacro::DelPath))
        .insert("exists?"@, crate::macros::MacroDefinition::Function(BuiltinMacro::Exists))
        .insert("get"@, crate::macros::MacroDefinition::Function(BuiltinMacro::GetPath))
        .insert("set!"@, crate::macros::MacroDefinition::Function(BuiltinMacro::SetPath))
        .insert("add!"@, crate::macros::MacroDefinition::Function(BuiltinMacro::Add))
        .insert("dec!"@, crate::macros::MacroDefinition::Function(BuiltinMacro::Dec))
        .insert("inc!"@, crate::macros::MacroDefinition::Function(BuiltinMacro::Inc))
        .insert("sub!"@, crate::macros::MacroDefinition::Function(BuiltinMacro::Sub))
        .insert("print"@, crate::macros::MacroDefinition::Function(BuiltinMacro::Print))
}

/// Registers the standard macros: `del!`, `exists?`, `get`, `set!`,
/// `add!`, `dec!`, `inc!`, `sub!` and `print`.
pub fn register_std_macros(registry: &mut crate::macros::MacroSystem)
    ensures
        final(registry)@ == with_std_macros(old(registry)@),
{
    registry.register("del!".to_string(), crate::macros::MacroDefinition::Function(BuiltinMacro::DelPath));
    registry.register("exists?".to_string(), crate::macros::MacroDefinition::Function(BuiltinMacro::Exists));
    registry.register("get".to_string(), crate::macros::MacroDefinition::Function(BuiltinMacro::GetPath));
    registry.register("set!".to_string(), crate::macros::MacroDefinition::Function(BuiltinMacro::SetPath));
    registry.register("add!".to_string(), crate::macros::MacroDefinition::Function(BuiltinMacro::Add));
    registry.register("dec!".to_string(), crate::macros::MacroDefinition::Function(BuiltinMacro::Dec));
    registry.register("inc!".to_string(), crate::macros::MacroDefinition::Function(BuiltinMacro::Inc));
    registry.register("sub!".to_string(), crate::macros::MacroDefinition::Function(BuiltinMacro::Sub));
    registry.register("print".to_string(), crate::macros::MacroDefinition::Function(BuiltinMacro::Print));
}

// ---------------------------------------------------------------------------
// Paths as lists of strings
// ---------------------------------------------------------------------------

/// The node that names a path: the first form of a `(do ...)` program whose
/// `do` has the empty span, as the reader of whole programs gives it; else
/// the node itself.
pub open spec fn path_target(n: Node) -> Node {
    match n.term {
        Term::List(items, _) => if items.len() > 1 && items[0].term == Term::Symbol("do"@, Span { start: 0, end: 0 }) {
            items[1]
        } else {
            n
        },
        _ => n,
    }
}

/// A string node.
pub open spec fn str_node(s: Seq<char>, span: Span) -> Node {
    Node { term: Term::Str(s, span), span }
}

/// String nodes for the pieces `ps`, all spanning `span`.
pub open spec fn str_nodes(ps: Seq<Seq<char>>, span: Span) -> Seq<Node> {
    Seq::new(ps.len(), |i: int| str_node(ps[i], span))
}

/// The pieces of a path written with dots between them.
pub open spec fn join_dots(ps: Seq<Seq<char>>) -> Seq<char>
    decreases ps.len(),
{
    if ps.len() == 0 {
        Seq::empty()
    } else if ps.len() == 1 {
        ps[0]
    } else {
        join_dots(ps.drop_last()) + seq!['.'] + ps.last()
    }
}

/// The string nodes for the items of a path list (a symbol, a string or a
/// dotted path each gives a string of its text and span), or the message and
/// span of a failure at the first item that is none of these.
pub open spec fn list_path_strings(items: Seq<Node>) -> Result<Seq<Node>, Fault>
    decreases items.len(),
{
    if items.len() == 0 {
        Ok(Seq::empty())
    } else {
        match list_path_strings(items.drop_last()) {
            Ok(prev) => match items.last().term {
                Term::Symbol(s, sp) => Ok(prev.push(str_node(s, sp))),
                Term::Str(s, sp) => Ok(prev.push(str_node(s, sp))),
                Term::Path(ps, sp) => Ok(prev.push(str_node(join_dots(ps), sp))),
                _ => Err(Fault { message: "Invalid path format: list must contain only symbols or strings."@,
                    span: term_span(items.last().term) }),
            },
            Err(f) => Err(f),
        }
    }
}

/// A path expression as a `(list "key" ...)` form: a symbol `a.b` (or the
/// path literal `a.b`) gives `(list "a" "b")`, a list of symbols and strings
/// gives the list of their texts; anything else fails.
pub open spec fn canonicalize_path_spec(n: Node) -> Result<Node, Fault> {
    let t = path_target(n);
    let span = term_span(t.term);
    match t.term {
        Term::Symbol(s, _) => Ok(list_node(seq![sym_node("list"@, span)] + str_nodes(split_dots(s), span), span)),
        Term::Path(ps, _) => Ok(list_node(seq![sym_node("list"@, span)] + str_nodes(ps, span), span)),
        Term::List(items, ls) => match list_path_strings(items) {
            Ok(parts) => Ok(list_node(seq![sym_node("list"@, ls)] + parts, ls)),
            Err(f) => Err(f),
        },
        _ => Err(Fault { message: "Invalid path format: expected a symbol or a list."@, span }),
    }
}

proof fn lemma_list_path_strings_prefix_err(items: Seq<Node>, k: int)
    requires
        0 <= k <= items.len(),
        list_path_strings(items.subrange(0, k)) is Err,
    ensures
        list_path_strings(items) == list_path_strings(items.subrange(0, k)),
    decreases items.len(),
{
    if items.len() > k {
        assert(items.drop_last().subrange(0, k) =~= items.subrange(0, k));
        lemma_list_path_strings_prefix_err(items.drop_last(), k);
    } else {
        assert(items.subrange(0, k) =~= items);
    }
}

fn join_dots_exec(ps: &Vec<String>) -> (r: String)
    ensures
        r@ == join_dots(strings_view(ps@)),
{
    let ghost v = strings_view(ps@);
    let mut r = String::new();
    let mut i: usize = 0;
    while i < ps.len()
        invariant
            i <= ps@.len(),
            v == strings_view(ps@),
            v.len() == ps@.len(),
            r@ == join_dots(v.subrange(0, i as int)),
        decreases ps@.len() - i,
    {
        assert(v[i as int] == ps@[i as int]@);
        assert(v.subrange(0, i + 1).drop_last() =~= v.subrange(0, i as int));
        if i > 0 {
            push_str(&mut r, ".");
            proof { reveal_strlit("."); }
        }
        push_str(&mut r, ps[i].as_str());
        proof {
            if i == 0 {
                assert(r@ =~= v.subrange(0, 1)[0]);
            } else {
                assert(r@ =~= join_dots(v.subrange(0, i as int)) + seq!['.'] + v.subrange(0, i + 1).last());
            }
        }
        i = i + 1;
    }
    assert(v.subrange(0, i as int) =~= v);
    r
}

/// `(list "p" ...)` for the pieces `parts`, every node spanning `span`.
fn string_list(parts: &Vec<String>, span: Span) -> (r: AstNode)
    ensures
        r@ == list_node(seq![sym_node("list"@, span)] + str_nodes(strings_view(parts@), span), span),
{
    let ghost ps = strings_view(parts@);
    let mut items: Vec<AstNode> = Vec::new();
    items.push(symbol_node("list", span));
    let mut i: usize = 0;
    while i < parts.len()
        invariant
            i <= parts@.len(),
            strings_view(parts@) == ps,
            ps.len() == parts@.len(),
            items@.len() == i + 1,
            items@[0]@ == sym_node("list"@, span),
            forall|j: int| 1 <= j <= i ==> #[trigger] items@[j]@ == str_node(ps[j - 1], span),
        decreases parts@.len() - i,
    {
        assert(strings_view(parts@)[i as int] == parts@[i as int]@);
        items.push(make_node(Expr::String(parts[i].clone(), span), span));
        i = i + 1;
    }
    proof {
        lemma_nodes_view(items@);
        let want = seq![sym_node("list"@, span)] + str_nodes(ps, span);
        assert forall|j: int| 0 <= j < items@.len() implies nodes_view(items@)[j] == want[j] by {
            if j > 0 {
                assert(want[j] == str_nodes(ps, span)[j - 1]);
                assert(items@[j]@ == str_node(ps[j - 1], span));
            }
        }
        assert(nodes_view(items@) =~= want);
    }
    list_of(items, span)
}

/// A macro error with message `message` at `span`.
fn macro_error(message: &str, span: Span) -> (r: EngineError)
    ensures
        r.kind matches SutraErrorKind::Macro(m) && m@ == message@,
        r.span == Some(span),
{
    EngineError { kind: SutraErrorKind::Macro(message.to_string()), span: Some(span) }
}

fn is_unspanned_do(n: &AstNode) -> (r: bool)
    ensures
        r == (n@.term == Term::Symbol("do"@, Span { start: 0, end: 0 })),
{
    match &*n.value {
        Expr::Symbol(name, sp) => str_eq(name.as_str(), "do") && sp.start == 0 && sp.end == 0,
        _ => false,
    }
}

/// A path expression as a `(list "key" ...)` form: a dotted name such as
/// `player.score` gives `(list "player" "score")`, a list of symbols and
/// strings gives the list of their texts, and a program wrapped in an
/// unspanned `(do ...)` is read through to its first form.
pub fn canonicalize_path(path_expr: &AstNode) -> (r: Result<AstNode, EngineError>)
    ensures
        match (r, canonicalize_path_spec(path_expr@)) {
            (Ok(n), Ok(m)) => n@ == m,
            (Err(e), Err(f)) => e.kind matches SutraErrorKind::Macro(m) && m@ == f.message && e.span == Some(f.span),
            _ => false,
        },
{
    let target: &AstNode = match &*path_expr.value {
        Expr::List(items, _) => {
            proof { lemma_nodes_view(items@); }
            if items.len() > 1 && is_unspanned_do(&items[0]) { &items[1] } else { path_expr }
        },
        _ => path_expr,
    };
    assert(target@ == path_target(path_expr@));
    let span = target.value.span();
    assert(target@.term == expr_view(*target.value));
    match &*target.value {
        Expr::Symbol(s, _) => Ok(string_list(&split_dots_exec(s.as_str()), span)),
        Expr::Path(p, _) => Ok(string_list(&p.0, span)),
        Expr::List(list_items, ls) => {
            let ghost itv = nodes_view(list_items@);
            proof { lemma_nodes_view(list_items@); }
            let mut items: Vec<AstNode> = Vec::new();
            items.push(symbol_node("list", *ls));
            let mut i: usize = 0;
            proof {
                assert(itv.subrange(0, 0) =~= Seq::<Node>::empty());
                lemma_nodes_view(items@);
                assert(nodes_view(items@).subrange(1, 1) =~= Seq::<Node>::empty());
            }
            while i < list_items.len()
                invariant
                    i <= list_items@.len(),
                    path_target(path_expr@).term == Term::List(itv, *ls),
                    itv == nodes_view(list_items@),
                    itv.len() == list_items@.len(),
                    forall|j: int| 0 <= j < list_items@.len() ==> #[trigger] itv[j] == list_items@[j]@,
                    items@.len() == i + 1,
                    items@[0]@ == sym_node("list"@, *ls),
                    list_path_strings(itv.subrange(0, i as int)) == Ok::<Seq<Node>, Fault>(nodes_view(items@).subrange(1, i + 1)),
                    nodes_view(items@).len() == items@.len(),
                    forall|j: int| 0 <= j < items@.len() ==> #[trigger] nodes_view(items@)[j] == items@[j]@,
                decreases list_items@.len() - i,
            {
                let item = &list_items[i];
                let ghost pre = itv.subrange(0, i as int);
                assert(itv.subrange(0, i + 1).drop_last() =~= pre);
                assert(itv.subrange(0, i + 1).last() == item@);
                let ghost before = items@;
                match &*item.value {
                    Expr::Symbol(name, sp) => {
                        items.push(make_node(Expr::String(name.clone(), *sp), *sp));
                    },
                    Expr::String(text, sp) => {
                        items.push(make_node(Expr::String(text.clone(), *sp), *sp));
                    },
                    Expr::Path(p, sp) => {
                        items.push(make_node(Expr::String(join_dots_exec(&p.0), *sp), *sp));
                    },
                    _ => {
                        let bad_span = item.value.span();
                        proof {
                            assert(list_path_strings(itv.subrange(0, i + 1)) == Err::<Seq<Node>, Fault>(Fault {
                                message: "Invalid path format: list must contain only symbols or strings."@, span: bad_span }));
                            lemma_list_path_strings_prefix_err(itv, i + 1);
                            assert(path_target(path_expr@).term == Term::List(itv, *ls));
                            assert(canonicalize_path_spec(path_expr@) == Err::<Node, Fault>(Fault {
                                message: "Invalid path format: list must contain only symbols or strings."@, span: bad_span }));
                        }
                        return Err(macro_error("Invalid path format: list must contain only symbols or strings.", bad_span));
                    },
                }
                proof {
                    lemma_nodes_view(items@);
                    lemma_nodes_view(before);
                    assert(nodes_view(items@).subrange(1, i + 2) =~= nodes_view(before).subrange(1, i + 1).push(items@[i + 1]@));
                }
                i = i + 1;
            }
            proof {
                assert(itv.subrange(0, i as int) =~= itv);
                lemma_nodes_view(items@);
                assert(nodes_view(items@) =~= seq![sym_node("list"@, *ls)] + nodes_view(items@).subrange(1, i + 1));
            }
            Ok(list_of(items, *ls))
        },
        _ => Err(macro_error("Invalid path format: expected a symbol or a list.", span)),
    }
}

} // verus!
