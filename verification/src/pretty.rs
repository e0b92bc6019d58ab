//! Printing expressions back as Sutra text.
use vstd::prelude::*;
use crate::ast::{Expr, Node, Term, Params, ParamList, node_view, nodes_view, expr_view, lemma_nodes_view, strings_view};
use crate::text::{push_char, push_str};
use crate::span::Span;

verus! {

/// Names joined by single spaces.
pub open spec fn join_spaced(names: Seq<Seq<char>>) -> Seq<char>
    decreases names.len(),
{
    if names.len() == 0 {
        Seq::empty()
    } else if names.len() == 1 {
        names[0]
    } else {
        join_spaced(names.drop_last()) + seq![' '] + names.last()
    }
}

/// A parameter list as text: `(a b . rest)`, or `(rest)` with no required
/// names.
pub open spec fn params_text(p: Params) -> Seq<char> {
    let rest = match p.rest {
        Some(r) => if p.required.len() > 0 { " . "@ + r } else { r },
        None => Seq::empty(),
    };
    seq!['('] + join_spaced(p.required) + rest + seq![')']
}

/// The required names of a definition, each after a space.
pub open spec fn spaced_names(names: Seq<Seq<char>>) -> Seq<char>
    decreases names.len(),
{
    if names.len() == 0 { Seq::empty() } else { spaced_names(names.drop_last()) + seq![' '] + names.last() }
}

/// An expression as text. A number prints as it was written.
pub open spec fn pretty_term(t: Term) -> Seq<char>
    decreases t, 1int,
{
    match t {
        Term::List(items, _) => seq!['('] + pretty_items(items) + seq![')'],
        Term::Symbol(s, _) => s,
        Term::Path(p, _) => "(path "@ + join_spaced(p) + seq![')'],
        Term::Str(s, _) => seq!['"'] + s + seq!['"'],
        Term::Number(text, _) => text,
        Term::Bool(b, _) => if b { "true"@ } else { "false"@ },
        Term::If(c, th, el, _) => "(if "@ + pretty_term(c.term) + seq![' '] + pretty_term(th.term) + seq![' ']
            + pretty_term(el.term) + seq![')'],
        Term::Quote(inner, _) => seq!['\''] + pretty_term(inner.term),
        Term::Params(p) => params_text(p),
        Term::Define(name, params, body, _) => {
            let rest = match params.rest {
                Some(r) => " ..."@ + r,
                None => Seq::empty(),
            };
            "(define ("@ + name + spaced_names(params.required) + rest + ") "@ + pretty_term(body.term) + seq![')']
        },
        Term::Spread(inner) => "..."@ + pretty_term(inner.term),
    }
}

/// Items of a list as text, separated by spaces.
pub open spec fn pretty_items(items: Seq<Node>) -> Seq<char>
    decreases items, 0int,
{
    if items.len() == 0 {
        Seq::empty()
    } else if items.len() == 1 {
        pretty_term(items[0].term)
    } else {
        pretty_items(items.drop_last()) + seq![' '] + pretty_term(items.last().term)
    }
}

fn push_join_spaced(s: &mut String, names: &Vec<String>)
    ensures
        final(s)@ == old(s)@ + join_spaced(strings_view(names@)),
{
    let ghost start = s@;
    let ghost nv = strings_view(names@);
    let mut i: usize = 0;
    assert(nv.take(0) =~= Seq::<Seq<char>>::empty());
    assert(start + Seq::<char>::empty() =~= start);
    while i < names.len()
        invariant
            i <= names@.len(),
            nv == strings_view(names@),
            nv.len() == names@.len(),
            s@ == start + join_spaced(nv.take(i as int)),
        decreases names@.len() - i,
    {
        let ghost pre = s@;
        assert(nv.take(i + 1).drop_last() =~= nv.take(i as int));
        assert(nv.take(i + 1).last() == names@[i as int]@);
        if i > 0 {
            push_char(s, ' ');
        } else {
            assert(nv.take(1)[0] == names@[0]@);
        }
        push_str(s, names[i].as_str());
        assert(s@ =~= start + join_spaced(nv.take(i + 1)));
        i = i + 1;
    }
    assert(nv.take(i as int) =~= nv);
}

fn push_spaced_names(s: &mut String, names: &Vec<String>)
    ensures
        final(s)@ == old(s)@ + spaced_names(strings_view(names@)),
{
    let ghost start = s@;
    let ghost nv = strings_view(names@);
    let mut i: usize = 0;
    assert(nv.take(0) =~= Seq::<Seq<char>>::empty());
    assert(start + Seq::<char>::empty() =~= start);
    while i < names.len()
        invariant
            i <= names@.len(),
            nv == strings_view(names@),
            nv.len() == names@.len(),
            s@ == start + spaced_names(nv.take(i as int)),
        decreases names@.len() - i,
    {
        assert(nv.take(i + 1).drop_last() =~= nv.take(i as int));
        assert(nv.take(i + 1).last() == names@[i as int]@);
        push_char(s, ' ');
        push_str(s, names[i].as_str());
        assert(s@ =~= start + spaced_names(nv.take(i + 1)));
        i = i + 1;
    }
    assert(nv.take(i as int) =~= nv);
}

fn push_params(s: &mut String, p: &ParamList)
    ensures
        final(s)@ == old(s)@ + params_text(p@),
{
    let ghost start = s@;
    push_char(s, '(');
    push_join_spaced(s, &p.required);
    match &p.rest {
        Some(r) => {
            if p.required.len() > 0 {
                push_str(s, " . ");
            }
            push_str(s, r.as_str());
        },
        None => {},
    }
    push_char(s, ')');
    assert(s@ =~= start + params_text(p@));
}

fn push_pretty(s: &mut String, e: &Expr)
    ensures
        final(s)@ == old(s)@ + pretty_term(expr_view(*e)),
    decreases expr_view(*e),
{
    let ghost start = s@;
    match e {
        Expr::List(items, sp) => {
            let ghost itv = nodes_view(items@);
            proof { lemma_nodes_view(items@); }
            push_char(s, '(');
            let ghost open = s@;
            let mut i: usize = 0;
            assert(itv.take(0) =~= Seq::<Node>::empty());
            assert(open + Seq::<char>::empty() =~= open);
            while i < items.len()
                invariant
                    i <= items@.len(),
                    itv == nodes_view(items@),
                    itv.len() == items@.len(),
                    forall|j: int| 0 <= j < items@.len() ==> #[trigger] itv[j] == node_view(items@[j]),
                    expr_view(*e) == Term::List(itv, *sp),
                    s@ == open + pretty_items(itv.take(i as int)),
                decreases items@.len() - i,
            {
                assert(itv.take(i + 1).drop_last() =~= itv.take(i as int));
                assert(itv.take(i + 1).last() == itv[i as int]);
                proof {
                    assert(expr_view(*e)->List_0 == itv);
                    assert(decreases_to!(expr_view(*e) => expr_view(*e)->List_0));
                    assert(decreases_to!(itv => itv[i as int]));
                    assert(itv[i as int].term == expr_view(*items@[i as int].value));
                    assert(decreases_to!(itv[i as int] => itv[i as int].term));
                }
                if i > 0 {
                    push_char(s, ' ');
                } else {
                    assert(itv.take(1)[0] == itv[0]);
                }
                push_pretty(s, &*items[i].value);
                assert(s@ =~= open + pretty_items(itv.take(i + 1)));
                i = i + 1;
            }
            assert(itv.take(i as int) =~= itv);
            push_char(s, ')');
            assert(s@ =~= start + pretty_term(expr_view(*e)));
        },
        Expr::Symbol(x, _) => {
            push_str(s, x.as_str());
        },
        Expr::Path(p, _) => {
            push_str(s, "(path ");
            push_join_spaced(s, &p.0);
            push_char(s, ')');
            assert(s@ =~= start + pretty_term(expr_view(*e)));
        },
        Expr::String(x, _) => {
            push_char(s, '"');
            push_str(s, x.as_str());
            push_char(s, '"');
            assert(s@ =~= start + pretty_term(expr_view(*e)));
        },
        Expr::Number(text, _) => {
            push_str(s, text.as_str());
        },
        Expr::Bool(b, _) => {
            if *b {
                push_str(s, "true");
            } else {
                push_str(s, "false");
            }
        },
        Expr::If { condition, then_branch, else_branch, .. } => {
            proof {
                assert(decreases_to!(expr_view(*e) => node_view(**condition)));
                assert(decreases_to!(node_view(**condition) => node_view(**condition).term));
                assert(decreases_to!(expr_view(*e) => node_view(**then_branch)));
                assert(decreases_to!(node_view(**then_branch) => node_view(**then_branch).term));
                assert(decreases_to!(expr_view(*e) => node_view(**else_branch)));
                assert(decreases_to!(node_view(**else_branch) => node_view(**else_branch).term));
            }
            push_str(s, "(if ");
            push_pretty(s, &*condition.value);
            push_char(s, ' ');
            push_pretty(s, &*then_branch.value);
            push_char(s, ' ');
            push_pretty(s, &*else_branch.value);
            push_char(s, ')');
            assert(s@ =~= start + pretty_term(expr_view(*e)));
        },
        Expr::Quote(inner, _) => {
            proof {
                assert(decreases_to!(expr_view(*e) => node_view(**inner)));
                assert(decreases_to!(node_view(**inner) => node_view(**inner).term));
            }
            push_char(s, '\'');
            push_pretty(s, &*inner.value);
            assert(s@ =~= start + pretty_term(expr_view(*e)));
        },
        Expr::ParamList(p) => {
            push_params(s, p);
        },
        Expr::Define { name, params, body, .. } => {
            proof {
                assert(decreases_to!(expr_view(*e) => node_view(**body)));
                assert(decreases_to!(node_view(**body) => node_view(**body).term));
            }
            push_str(s, "(define (");
            push_str(s, name.as_str());
            push_spaced_names(s, &params.required);
            match &params.rest {
                Some(r) => {
                    push_str(s, " ...");
                    push_str(s, r.as_str());
                },
                None => {},
            }
            push_str(s, ") ");
            push_pretty(s, &*body.value);
            push_char(s, ')');
            assert(s@ =~= start + pretty_term(expr_view(*e)));
        },
        Expr::Spread(inner) => {
            proof {
                assert(decreases_to!(expr_view(*e) => node_view(**inner)));
                assert(decreases_to!(node_view(**inner) => node_view(**inner).term));
            }
            push_str(s, "...");
            push_pretty(s, &*inner.value);
            assert(s@ =~= start + pretty_term(expr_view(*e)));
        },
    }
}

impl Expr {
    /// This expression as Sutra text.
    pub fn pretty(&self) -> (r: String)
        ensures
            r@ == pretty_term(expr_view(*self)),
    {
        let mut s = String::new();
        push_pretty(&mut s, self);
        assert(s@ =~= pretty_term(expr_view(*self)));
        s
    }
}

/// A boolean prints as its own literal, `true` or `false`, wherever it
/// stands, so the two values never print alike.
pub proof fn law_booleans_print_as_literals(b: bool, sp: Span, other: Span)
    ensures
        b ==> pretty_term(Term::Bool(b, sp)) == "true"@,
        !b ==> pretty_term(Term::Bool(b, sp)) == "false"@,
        pretty_term(Term::Bool(b, sp)) != pretty_term(Term::Bool(!b, other)),
{
    reveal_strlit("true");
    reveal_strlit("false");
    assert("true"@[0] != "false"@[0]);
}

} // verus!
