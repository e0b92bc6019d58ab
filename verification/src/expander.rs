//! Macro expansion with a trace of every step, over an environment of user
//! macros and core macros (user macros take precedence).
//!
//! A node is expanded by repeatedly expanding the macro call at its head,
//! recording each step, until its head is no longer a macro call; then its
//! sub-forms are expanded in turn. More than 128 expansions of one node, or
//! sub-forms nested more than 128 levels deep, fail.
use vstd::prelude::*;
use crate::span::Span;
use crate::ast::{AstNode, Expr, Node, Term, node_view, nodes_view, lemma_nodes_view, lemma_nodes_view_concat,
    lemma_nodes_view_subrange, make_node, share, share_all, type_name_of};
use crate::errors::{SutraError, SourceContext, Fault, general_fault, general_error, type_fault, type_error, arity_fault};
use crate::macros::{MacroSystem, MacroDefinition, MacroTemplate, MacroProvenance, template_bindings, assoc_map, spread_source, spread_source_exec,
    bind_template_params, lookup_binding, call_head, check_arity};
use crate::macro_errors::MAX_MACRO_RECURSION_DEPTH;
use crate::std_macros::{builtin_spec, expand_builtin};
use crate::text::{push_str, decimal, str_eq};

verus! {

// ---------------------------------------------------------------------------
// Substitution
// ---------------------------------------------------------------------------

/// The message of a substitution nested too deeply.
pub open spec fn substitution_limit_message() -> Seq<char> {
    "Macro recursion limit of 128 exceeded (in substitution)"@
}

/// Substitutes the bindings `b` into a template node at nesting `depth`:
/// bound symbols are replaced, lists, `if` forms and spreads are entered,
/// quoted forms are kept as they are.
pub open spec fn subst_live(n: Node, b: Map<Seq<char>, Node>, depth: nat) -> Result<Node, Fault>
    decreases n, 1int,
{
    if depth > MAX_MACRO_RECURSION_DEPTH {
        Err(general_fault(substitution_limit_message(), n.span))
    } else {
        match n.term {
            Term::Symbol(name, _) => Ok(if b.contains_key(name) { b[name] } else { n }),
            Term::List(items, s) => match subst_live_items(items, b, depth) {
                Ok(ns) => Ok(Node { term: Term::List(ns, s), span: n.span }),
                Err(f) => Err(f),
            },
            Term::If(c, t, e, s) => match subst_live(*c, b, depth + 1) {
                Ok(c2) => match subst_live(*t, b, depth + 1) {
                    Ok(t2) => match subst_live(*e, b, depth + 1) {
                        Ok(e2) => Ok(Node { term: Term::If(Box::new(c2), Box::new(t2), Box::new(e2), s), span: n.span }),
                        Err(f) => Err(f),
                    },
                    Err(f) => Err(f),
                },
                Err(f) => Err(f),
            },
            Term::Spread(inner) => match subst_live(*inner, b, depth + 1) {
                Ok(i2) => Ok(Node { term: Term::Spread(Box::new(i2)), span: n.span }),
                Err(f) => Err(f),
            },
            _ => Ok(n),
        }
    }
}

/// Substitutes in the items of a list; a spread item splices the arguments
/// of the rest parameter it names, or else the items of the list it
/// substitutes to.
pub open spec fn subst_live_items(items: Seq<Node>, b: Map<Seq<char>, Node>, depth: nat) -> Result<Seq<Node>, Fault>
    decreases items, 0int,
{
    if items.len() == 0 {
        Ok(Seq::empty())
    } else {
        match subst_live_items(items.drop_last(), b, depth) {
            Ok(prev) => match items.last().term {
                Term::Spread(inner) => match subst_live(*inner, b, depth + 1) {
                    Ok(r) => match spread_source(*inner, r, b).term {
                        Term::List(elems, _) => Ok(prev + elems),
                        _ => Err(type_fault("list"@, type_name_of(spread_source(*inner, r, b).term), inner.span)),
                    },
                    Err(f) => Err(f),
                },
                _ => match subst_live(items.last(), b, depth + 1) {
                    Ok(r) => Ok(prev.push(r)),
                    Err(f) => Err(f),
                },
            },
            Err(f) => Err(f),
        }
    }
}

// ---------------------------------------------------------------------------
// One expansion step
// ---------------------------------------------------------------------------

/// The message of too many expansions of `name` at one node.
pub open spec fn head_limit_message(name: Seq<char>) -> Seq<char> {
    "Macro recursion limit of 128 exceeded (in '"@ + name + "')"@
}

/// Expands one call of the template `t` at expansion `depth`: the call must
/// be a list headed by a symbol, its arguments must fit the parameters, and
/// the body is substituted with the bindings.
pub open spec fn template_expand_spec(t: MacroTemplate, call: Node, depth: nat) -> Result<Node, Fault> {
    match call.term {
        Term::List(items, span) => if items.len() == 0 {
            Err(general_fault("Macro call cannot be empty"@, span))
        } else {
            match items[0].term {
                Term::Symbol(_, _) => if depth > MAX_MACRO_RECURSION_DEPTH {
                    Err(general_fault("Macro recursion limit of 128 exceeded"@, span))
                } else {
                    let args = items.subrange(1, items.len() as int);
                    let p = t.params@;
                    if args.len() < p.required.len() {
                        Err(arity_fault("at least "@ + decimal(p.required.len()), args.len(), span))
                    } else if args.len() > p.required.len() && p.rest is None {
                        Err(arity_fault(decimal(p.required.len()), args.len(), span))
                    } else {
                        subst_live(node_view(*t.body), template_bindings(p, args, span), depth + 1)
                    }
                },
                _ => Err(general_fault("Macro call head must be a symbol"@, items[0].span)),
            }
        },
        _ => Err(general_fault("Macro call must be a list expression"@, call.span)),
    }
}

/// Expands one call with the definition `d`.
pub open spec fn def_expand_spec(d: MacroDefinition, call: Node, depth: nat) -> Result<Node, Fault> {
    match d {
        MacroDefinition::Function(b) => builtin_spec(b, call),
        MacroDefinition::Template(t) => template_expand_spec(t, call, depth),
    }
}

/// The macro a name denotes: a user macro first, else a core macro.
pub open spec fn lookup_spec(user: Map<Seq<char>, MacroDefinition>, core: Map<Seq<char>, MacroDefinition>, name: Seq<char>)
    -> Option<(MacroProvenance, MacroDefinition)> {
    if user.contains_key(name) {
        Some((MacroProvenance::User, user[name]))
    } else if core.contains_key(name) {
        Some((MacroProvenance::Core, core[name]))
    } else {
        None
    }
}

/// The model of an expansion step: the macro's name, where it came from,
/// and the node before and after.
pub struct StepView {
    pub name: Seq<char>,
    pub provenance: MacroProvenance,
    pub input: Node,
    pub output: Node,
}

/// Expands the macro call at the head of `n` until the head is no longer a
/// macro call: the result, and the steps taken.
pub open spec fn heads_spec(user: Map<Seq<char>, MacroDefinition>, core: Map<Seq<char>, MacroDefinition>, n: Node, depth: nat)
    -> (Result<Node, Fault>, Seq<StepView>)
    decreases MAX_MACRO_RECURSION_DEPTH + 1 - depth,
{
    match call_head(n) {
        None => (Ok(n), Seq::empty()),
        Some(name) => match lookup_spec(user, core, name) {
            None => (Ok(n), Seq::empty()),
            Some((prov, d)) => if depth > MAX_MACRO_RECURSION_DEPTH {
                (Err(general_fault(head_limit_message(name), n.span)), Seq::empty())
            } else {
                match def_expand_spec(d, n, depth) {
                    Err(f) => (Err(f), Seq::empty()),
                    Ok(m) => {
                        let (r, t) = heads_spec(user, core, m, depth + 1);
                        (r, seq![StepView { name, provenance: prov, input: n, output: m }] + t)
                    },
                }
            },
        },
    }
}

// ---------------------------------------------------------------------------
// Full expansion
// ---------------------------------------------------------------------------

/// The message of sub-forms nested too deeply.
pub open spec fn nesting_limit_message() -> Seq<char> {
    "Macro expansion nesting limit of 128 exceeded"@
}

/// Expands `n` fully at nesting `nest`: its head, then its sub-forms. The
/// result, and the steps taken (also those before a failure).
pub open spec fn traced_spec(user: Map<Seq<char>, MacroDefinition>, core: Map<Seq<char>, MacroDefinition>, n: Node, nest: nat)
    -> (Result<Node, Fault>, Seq<StepView>)
    decreases MAX_MACRO_RECURSION_DEPTH + 1 - nest, 2int, 0int,
{
    if nest > MAX_MACRO_RECURSION_DEPTH {
        (Err(general_fault(nesting_limit_message(), n.span)), Seq::empty())
    } else {
        let (r1, t1) = heads_spec(user, core, n, 0);
        match r1 {
            Err(f) => (Err(f), t1),
            Ok(m) => {
                let (r2, t2) = subforms_spec(user, core, m, nest);
                (r2, t1 + t2)
            },
        }
    }
}

/// Expands the sub-forms of `m` (lists, `if` forms, quotes and spreads).
pub open spec fn subforms_spec(user: Map<Seq<char>, MacroDefinition>, core: Map<Seq<char>, MacroDefinition>, m: Node, nest: nat)
    -> (Result<Node, Fault>, Seq<StepView>)
    decreases MAX_MACRO_RECURSION_DEPTH + 1 - nest, 1int, 0int,
{
    if nest > MAX_MACRO_RECURSION_DEPTH {
        (Err(general_fault(nesting_limit_message(), m.span)), Seq::empty())
    } else {
        match m.term {
            Term::List(items, s) => {
                let (r, t) = items_traced_spec(user, core, items, nest);
                match r {
                    Ok(ns) => (Ok(Node { term: Term::List(ns, s), span: m.span }), t),
                    Err(f) => (Err(f), t),
                }
            },
            Term::If(c, th, el, s) => {
                let (r1, t1) = traced_spec(user, core, *c, nest + 1);
                match r1 {
                    Err(f) => (Err(f), t1),
                    Ok(c2) => {
                        let (r2, t2) = traced_spec(user, core, *th, nest + 1);
                        match r2 {
                            Err(f) => (Err(f), t1 + t2),
                            Ok(th2) => {
                                let (r3, t3) = traced_spec(user, core, *el, nest + 1);
                                match r3 {
                                    Err(f) => (Err(f), t1 + t2 + t3),
                                    Ok(el2) => (Ok(Node { term: Term::If(Box::new(c2), Box::new(th2), Box::new(el2), s), span: m.span }),
                                        t1 + t2 + t3),
                                }
                            },
                        }
                    },
                }
            },
            Term::Quote(inner, s) => {
                let (r, t) = traced_spec(user, core, *inner, nest + 1);
                match r {
                    Ok(i2) => (Ok(Node { term: Term::Quote(Box::new(i2), s), span: m.span }), t),
                    Err(f) => (Err(f), t),
                }
            },
            Term::Spread(inner) => {
                let (r, t) = traced_spec(user, core, *inner, nest + 1);
                match r {
                    Ok(i2) => (Ok(Node { term: Term::Spread(Box::new(i2)), span: m.span }), t),
                    Err(f) => (Err(f), t),
                }
            },
            _ => (Ok(m), Seq::empty()),
        }
    }
}

/// Expands the items of a list in order, stopping at the first failure.
pub open spec fn items_traced_spec(user: Map<Seq<char>, MacroDefinition>, core: Map<Seq<char>, MacroDefinition>, items: Seq<Node>,
    nest: nat) -> (Result<Seq<Node>, Fault>, Seq<StepView>)
    decreases MAX_MACRO_RECURSION_DEPTH + 1 - nest, 0int, items.len(),
{
    if nest > MAX_MACRO_RECURSION_DEPTH {
        (Err(general_fault(nesting_limit_message(), Span { start: 0, end: 0 })), Seq::empty())
    } else if items.len() == 0 {
        (Ok(Seq::empty()), Seq::empty())
    } else {
        let (rp, tp) = items_traced_spec(user, core, items.drop_last(), nest);
        match rp {
            Err(f) => (Err(f), tp),
            Ok(prev) => {
                let (rl, tl) = traced_spec(user, core, items.last(), nest + 1);
                match rl {
                    Ok(x) => (Ok(prev.push(x)), tp + tl),
                    Err(f) => (Err(f), tp + tl),
                }
            },
        }
    }
}

// ---------------------------------------------------------------------------
// Implementation: substitution
// ---------------------------------------------------------------------------

proof fn lemma_subst_live_items_prefix_err(items: Seq<Node>, k: int, b: Map<Seq<char>, Node>, depth: nat)
    requires
        0 <= k <= items.len(),
        subst_live_items(items.subrange(0, k), b, depth) is Err,
    ensures
        subst_live_items(items, b, depth) == subst_live_items(items.subrange(0, k), b, depth),
    decreases items.len(),
{
    if items.len() > k {
        assert(items.drop_last().subrange(0, k) =~= items.subrange(0, k));
        lemma_subst_live_items_prefix_err(items.drop_last(), k, b, depth);
    } else {
        assert(items.subrange(0, k) =~= items);
    }
}

/// Substitutes the bindings (the last pair of a name counts) into the
/// template node `node` at nesting `depth`: bound symbols are replaced, lists
/// are rebuilt with spreads spliced, `if` forms and spreads are entered, and
/// quoted forms are kept as they are; nesting beyond the limit fails.
pub fn substitute_template(node: &AstNode, bindings: &Vec<(String, AstNode)>, source: &SourceContext, depth: usize)
    -> (r: Result<AstNode, SutraError>)
    ensures
        match (r, subst_live(node@, assoc_map(bindings@), depth as nat)) {
            (Ok(n), Ok(m)) => n@ == m,
            (Err(e), Err(f)) => e.fault() == f,
            _ => false,
        },
    decreases node@,
{
    let ghost b = assoc_map(bindings@);
    if depth > MAX_MACRO_RECURSION_DEPTH {
        return Err(general_error("Macro recursion limit of 128 exceeded (in substitution)", source.copy(),
            "macro recursion limit", node.span));
    }
    match &*node.value {
        Expr::Symbol(name, _) => {
            match lookup_binding(bindings, name.as_str()) {
                Some(n) => Ok(share(n)),
                None => Ok(share(node)),
            }
        },
        Expr::List(items, span) => {
            let ghost itv = nodes_view(items@);
            assert(node@.term == Term::List(itv, *span));
            proof { lemma_nodes_view(items@); }
            let mut new_items: Vec<AstNode> = Vec::new();
            let mut i: usize = 0;
            proof {
                assert(items@.subrange(0, 0) =~= Seq::<AstNode>::empty());
                assert(nodes_view(Seq::<AstNode>::empty()) =~= Seq::<Node>::empty());
                assert(nodes_view(new_items@) =~= Seq::<Node>::empty());
            }
            while i < items.len()
                invariant
                    i <= items@.len(),
                    depth <= MAX_MACRO_RECURSION_DEPTH,
                    b == assoc_map(bindings@),
                    itv == nodes_view(items@),
                    itv.len() == items@.len(),
                    node@.term == Term::List(itv, *span),
                    subst_live_items(nodes_view(items@.subrange(0, i as int)), b, depth as nat)
                        == Ok::<Seq<Node>, Fault>(nodes_view(new_items@)),
                decreases items@.len() - i,
            {
                proof {
                    lemma_nodes_view(items@);
                    lemma_nodes_view(items@.subrange(0, i + 1));
                    lemma_nodes_view(items@.subrange(0, i as int));
                    assert(nodes_view(items@.subrange(0, i + 1)).drop_last() =~= nodes_view(items@.subrange(0, i as int)));
                    assert(nodes_view(items@.subrange(0, i + 1)).last() == items@[i as int]@);
                    assert(decreases_to!(node@ => itv));
                    assert(decreases_to!(itv => itv[i as int]));
                }
                let item = &items[i];
                let step: Result<(), SutraError> = match &*item.value {
                    Expr::Spread(inner) => {
                        proof {
                            assert(item@.term == Term::Spread(Box::new(node_view(**inner))));
                            assert(itv[i as int] == item@);
                            assert(decreases_to!(node@ => item@));
                            assert(decreases_to!(item@ => item@.term));
                            assert(item@.term->Spread_0 == Box::new(node_view(**inner)));
                            assert(decreases_to!(item@.term => item@.term->Spread_0));
                            assert(decreases_to!(node@ => node_view(**inner)));
                        }
                        match substitute_template(inner, bindings, source, depth + 1) {
                            Ok(substituted) => {
                                let source_node = spread_source_exec(inner, &substituted, bindings);
                                match &*source_node.value {
                                    Expr::List(elements, _) => {
                                        let ghost before = new_items@;
                                        let copies = share_all(elements.as_slice());
                                        let mut j: usize = 0;
                                        while j < copies.len()
                                            invariant
                                                j <= copies@.len(),
                                                copies@ == elements@,
                                                new_items@ == before + copies@.subrange(0, j as int),
                                            decreases copies@.len() - j,
                                        {
                                            new_items.push(share(&copies[j]));
                                            j = j + 1;
                                            assert(new_items@ =~= before + copies@.subrange(0, j as int));
                                        }
                                        proof {
                                            assert(copies@.subrange(0, copies@.len() as int) =~= copies@);
                                            lemma_nodes_view_concat(before, elements@);
                                        }
                                        Ok(())
                                    },
                                    _ => Err(type_error("list", source_node.type_label(), source.copy(), "macro_expansion",
                                        inner.span)),
                                }
                            },
                            Err(e) => Err(e),
                        }
                    },
                    _ => {
                        match substitute_template(item, bindings, source, depth + 1) {
                            Ok(substituted) => {
                                let ghost before = new_items@;
                                new_items.push(substituted);
                                proof {
                                    lemma_nodes_view(new_items@);
                                    lemma_nodes_view(before);
                                    assert(nodes_view(new_items@) =~= nodes_view(before).push(new_items@.last()@));
                                }
                                Ok(())
                            },
                            Err(e) => Err(e),
                        }
                    },
                };
                match step {
                    Ok(()) => {},
                    Err(e) => {
                        proof {
                            lemma_nodes_view_subrange(items@, 0, i + 1);
                            lemma_subst_live_items_prefix_err(itv, i + 1, b, depth as nat);
                        }
                        return Err(e);
                    },
                }
                i = i + 1;
            }
            proof {
                assert(items@.subrange(0, items@.len() as int) =~= items@);
            }
            Ok(make_node(Expr::List(new_items, *span), node.span))
        },
        Expr::If { condition, then_branch, else_branch, span } => {
            proof {
                assert(decreases_to!(node@ => node@.term));
            }
            let c2 = match substitute_template(condition, bindings, source, depth + 1) {
                Ok(x) => x,
                Err(e) => { return Err(e); },
            };
            let t2 = match substitute_template(then_branch, bindings, source, depth + 1) {
                Ok(x) => x,
                Err(e) => { return Err(e); },
            };
            let e2 = match substitute_template(else_branch, bindings, source, depth + 1) {
                Ok(x) => x,
                Err(e) => { return Err(e); },
            };
            Ok(make_node(Expr::If { condition: Box::new(c2), then_branch: Box::new(t2), else_branch: Box::new(e2), span: *span },
                node.span))
        },
        Expr::Spread(inner) => {
            proof {
                assert(decreases_to!(node@ => node@.term));
            }
            match substitute_template(inner, bindings, source, depth + 1) {
                Ok(i2) => Ok(make_node(Expr::Spread(Box::new(i2)), node.span)),
                Err(e) => Err(e),
            }
        },
        _ => Ok(share(node)),
    }
}

// ---------------------------------------------------------------------------
// Implementation: one step
// ---------------------------------------------------------------------------

fn expander_source() -> (r: SourceContext)
    ensures
        r.name@ == "macro-expander"@,
        r.content@ == "macro call"@,
{
    SourceContext::from_file("macro-expander", "macro call")
}

/// Expands one call of the template `template` at expansion `depth`.
pub fn expand_template(template: &MacroTemplate, call: &AstNode, source: &SourceContext, depth: usize)
    -> (r: Result<AstNode, SutraError>)
    ensures
        match (r, template_expand_spec(*template, call@, depth as nat)) {
            (Ok(n), Ok(m)) => n@ == m,
            (Err(e), Err(f)) => e.fault() == f,
            _ => false,
        },
{
    let (items, span) = match &*call.value {
        Expr::List(items, span) => (items, *span),
        _ => {
            let e = general_error("Macro call must be a list expression", expander_source(), "macro call", call.span);
            return Err(e.with_suggestion("Macros must be called using list syntax, like `(my-macro ...)`.".to_string()));
        },
    };
    proof { lemma_nodes_view(items@); }
    if items.len() == 0 {
        return Err(general_error("Macro call cannot be empty", expander_source(), "macro call", span));
    }
    let name = match &*items[0].value {
        Expr::Symbol(name, _) => name,
        _ => {
            let e = general_error("Macro call head must be a symbol", expander_source(), "macro call", items[0].span);
            return Err(e.with_suggestion("The first element of a macro call must be the macro's name.".to_string()));
        },
    };
    if depth > MAX_MACRO_RECURSION_DEPTH {
        let mut help = String::new();
        push_str(&mut help, "Check for infinite recursion in macro '");
        push_str(&mut help, name.as_str());
        push_str(&mut help, "'");
        let e = general_error("Macro recursion limit of 128 exceeded", source.copy(), "recursion limit", span);
        return Err(e.with_suggestion(help));
    }
    let nargs = items.len() - 1;
    match check_arity(nargs, &template.params, name.as_str(), &span, source) {
        Ok(()) => {},
        Err(e) => {
            return Err(e);
        },
    }
    let bindings = bind_template_params(template, items, span);
    substitute_template(&template.body, &bindings, source, depth + 1)
}

/// One expansion step: the macro's name, where it came from, and the node
/// before and after.
#[derive(Debug, Clone)]
pub struct MacroExpansionStep {
    pub macro_name: String,
    pub provenance: MacroProvenance,
    pub input: AstNode,
    pub output: AstNode,
}

/// The model of a step.
pub open spec fn step_view(s: MacroExpansionStep) -> StepView {
    StepView { name: s.macro_name@, provenance: s.provenance, input: s.input@, output: s.output@ }
}

/// The models of steps, in order.
pub open spec fn steps_view(v: Seq<MacroExpansionStep>) -> Seq<StepView> {
    v.map_values(|s: MacroExpansionStep| step_view(s))
}

/// The macros available to an expansion, and the steps taken so far.
#[derive(Debug)]
pub struct MacroEnv {
    pub user_macros: MacroSystem,
    pub core_macros: MacroSystem,
    pub trace: Vec<MacroExpansionStep>,
    pub source: SourceContext,
}

impl MacroEnv {
    /// No macros and no steps, for the source `source`.
    pub fn new(source: SourceContext) -> (r: MacroEnv)
        ensures
            r.user_macros@ == Map::<Seq<char>, MacroDefinition>::empty(),
            r.core_macros@ == Map::<Seq<char>, MacroDefinition>::empty(),
            r.trace@.len() == 0,
            r.source == source,
    {
        MacroEnv { user_macros: MacroSystem::new(), core_macros: MacroSystem::new(), trace: Vec::new(), source }
    }

    /// The same environment with the user macro `def` registered as `name`.
    pub fn with_user_macro(self, name: String, def: MacroDefinition) -> (r: MacroEnv)
        ensures
            r.user_macros@ == self.user_macros@.insert(name@, def),
            r.core_macros@ == self.core_macros@,
            r.trace@ == self.trace@,
            r.source == self.source,
    {
        let mut env = self;
        env.user_macros.register(name, def);
        env
    }

    /// The macro `name` denotes, and where it came from: a user macro
    /// first, else a core macro.
    pub fn lookup_macro(&self, name: &str) -> (r: Option<(MacroProvenance, &MacroDefinition)>)
        ensures
            match (r, lookup_spec(self.user_macros@, self.core_macros@, name@)) {
                (None, None) => true,
                (Some((p, d)), Some((q, e))) => p == q && *d == e,
                _ => false,
            },
    {
        match self.user_macros.get_macro(name) {
            Some(d) => Some((MacroProvenance::User, d)),
            None => match self.core_macros.get_macro(name) {
                Some(d) => Some((MacroProvenance::Core, d)),
                None => None,
            },
        }
    }

    /// The steps taken so far.
    pub fn trace(&self) -> (r: &[MacroExpansionStep])
        ensures
            r@ == self.trace@,
    {
        self.trace.as_slice()
    }

    /// Forgets the steps taken so far.
    pub fn clear_trace(&mut self)
        ensures
            final(self).trace@.len() == 0,
            final(self).user_macros@ == old(self).user_macros@,
            final(self).core_macros@ == old(self).core_macros@,
            final(self).source == old(self).source,
    {
        self.trace.clear();
    }
}

// ---------------------------------------------------------------------------
// Implementation: expansion with a trace
// ---------------------------------------------------------------------------

fn lookup_in<'a>(user: &'a MacroSystem, core: &'a MacroSystem, name: &str) -> (r: Option<(MacroProvenance, &'a MacroDefinition)>)
    ensures
        match (r, lookup_spec(user@, core@, name@)) {
            (None, None) => true,
            (Some((p, d)), Some((q, e))) => p == q && *d == e,
            _ => false,
        },
{
    match user.get_macro(name) {
        Some(d) => Some((MacroProvenance::User, d)),
        None => match core.get_macro(name) {
            Some(d) => Some((MacroProvenance::Core, d)),
            None => None,
        },
    }
}

fn call_name(node: &AstNode) -> (r: Option<String>)
    ensures
        match (r, call_head(node@)) {
            (Some(s), Some(t)) => s@ == t,
            (None, None) => true,
            _ => false,
        },
{
    match &*node.value {
        Expr::List(items, _) => {
            proof { lemma_nodes_view(items@); }
            if items.len() == 0 {
                return None;
            }
            match &*items[0].value {
                Expr::Symbol(name, _) => Some(name.clone()),
                _ => None,
            }
        },
        _ => None,
    }
}

fn expand_with(d: &MacroDefinition, node: &AstNode, source: &SourceContext, depth: usize) -> (r: Result<AstNode, SutraError>)
    ensures
        match (r, def_expand_spec(*d, node@, depth as nat)) {
            (Ok(n), Ok(m)) => n@ == m,
            (Err(e), Err(f)) => e.fault() == f,
            _ => false,
        },
{
    match d {
        MacroDefinition::Function(b) => expand_builtin(*b, node),
        MacroDefinition::Template(t) => expand_template(t, node, source, depth),
    }
}

/// The exec result `r` agrees with the specified result `q`.
pub open spec fn node_result_matches(r: Result<AstNode, SutraError>, q: Result<Node, Fault>) -> bool {
    match (r, q) {
        (Ok(n), Ok(m)) => n@ == m,
        (Err(e), Err(f)) => e.fault() == f,
        _ => false,
    }
}

fn expand_heads(user: &MacroSystem, core: &MacroSystem, source: &SourceContext, trace: &mut Vec<MacroExpansionStep>,
    node: AstNode, depth: usize) -> (r: Result<AstNode, SutraError>)
    requires
        depth <= MAX_MACRO_RECURSION_DEPTH + 1,
    ensures
        steps_view(final(trace)@) == steps_view(old(trace)@) + heads_spec(user@, core@, node@, depth as nat).1,
        node_result_matches(r, heads_spec(user@, core@, node@, depth as nat).0),
    decreases MAX_MACRO_RECURSION_DEPTH + 1 - depth,
{
    let ghost start = steps_view(trace@);
    let name = match call_name(&node) {
        None => {
            assert(start + Seq::<StepView>::empty() =~= start);
            return Ok(node);
        },
        Some(n) => n,
    };
    match lookup_in(user, core, name.as_str()) {
        None => {
            assert(start + Seq::<StepView>::empty() =~= start);
            Ok(node)
        },
        Some((prov, d)) => {
            if depth > MAX_MACRO_RECURSION_DEPTH {
                let mut msg = String::new();
                push_str(&mut msg, "Macro recursion limit of 128 exceeded (in '");
                push_str(&mut msg, name.as_str());
                push_str(&mut msg, "')");
                let mut help = String::new();
                push_str(&mut help, "Check for infinite recursion in macro '");
                push_str(&mut help, name.as_str());
                push_str(&mut help, "'.");
                let e = general_error(msg.as_str(), source.copy(), "macro recursion limit", node.span);
                assert(start + Seq::<StepView>::empty() =~= start);
                return Err(e.with_suggestion(help));
            }
            let m = match expand_with(d, &node, source, depth) {
                Ok(m) => m,
                Err(e) => {
                    assert(start + Seq::<StepView>::empty() =~= start);
                    return Err(e);
                },
            };
            let step = MacroExpansionStep { macro_name: name, provenance: prov, input: share(&node), output: share(&m) };
            let ghost sv = step_view(step);
            let ghost before = trace@;
            trace.push(step);
            assert(steps_view(trace@) =~= steps_view(before).push(sv));
            let ghost mid = steps_view(trace@);
            let r = expand_heads(user, core, source, trace, m, depth + 1);
            proof {
                let rest = heads_spec(user@, core@, m@, (depth + 1) as nat).1;
                assert(mid + rest =~= start + (seq![sv] + rest));
            }
            r
        },
    }
}

proof fn lemma_items_traced_prefix_err(user: Map<Seq<char>, MacroDefinition>, core: Map<Seq<char>, MacroDefinition>,
    items: Seq<Node>, k: int, nest: nat)
    requires
        0 <= k <= items.len(),
        nest <= MAX_MACRO_RECURSION_DEPTH,
        items_traced_spec(user, core, items.subrange(0, k), nest).0 is Err,
    ensures
        items_traced_spec(user, core, items, nest) == items_traced_spec(user, core, items.subrange(0, k), nest),
    decreases items.len(),
{
    if items.len() > k {
        assert(items.drop_last().subrange(0, k) =~= items.subrange(0, k));
        lemma_items_traced_prefix_err(user, core, items.drop_last(), k, nest);
    } else {
        assert(items.subrange(0, k) =~= items);
    }
}

fn expand_nested(user: &MacroSystem, core: &MacroSystem, source: &SourceContext, trace: &mut Vec<MacroExpansionStep>,
    node: AstNode, nest: usize) -> (r: Result<AstNode, SutraError>)
    requires
        nest <= MAX_MACRO_RECURSION_DEPTH + 1,
    ensures
        steps_view(final(trace)@) == steps_view(old(trace)@) + traced_spec(user@, core@, node@, nest as nat).1,
        node_result_matches(r, traced_spec(user@, core@, node@, nest as nat).0),
    decreases MAX_MACRO_RECURSION_DEPTH + 1 - nest, 1int,
{
    let ghost start = steps_view(trace@);
    if nest > MAX_MACRO_RECURSION_DEPTH {
        assert(start + Seq::<StepView>::empty() =~= start);
        return Err(general_error("Macro expansion nesting limit of 128 exceeded", source.copy(), "macro nesting limit",
            node.span));
    }
    let ghost n0 = node@;
    let m = match expand_heads(user, core, source, trace, node, 0) {
        Ok(m) => m,
        Err(e) => {
            return Err(e);
        },
    };
    let ghost mid = steps_view(trace@);
    let r = expand_sub(user, core, source, trace, m, nest);
    proof {
        let t1 = heads_spec(user@, core@, n0, 0).1;
        let t2 = subforms_spec(user@, core@, m@, nest as nat).1;
        assert(start + t1 + t2 =~= start + (t1 + t2));
    }
    r
}

fn expand_sub(user: &MacroSystem, core: &MacroSystem, source: &SourceContext, trace: &mut Vec<MacroExpansionStep>,
    m: AstNode, nest: usize) -> (r: Result<AstNode, SutraError>)
    requires
        nest <= MAX_MACRO_RECURSION_DEPTH,
    ensures
        steps_view(final(trace)@) == steps_view(old(trace)@) + subforms_spec(user@, core@, m@, nest as nat).1,
        node_result_matches(r, subforms_spec(user@, core@, m@, nest as nat).0),
    decreases MAX_MACRO_RECURSION_DEPTH + 1 - nest, 0int,
{
    let ghost start = steps_view(trace@);
    match &*m.value {
        Expr::List(items, span) => {
            let ghost itv = nodes_view(items@);
            proof { lemma_nodes_view(items@); }
            let mut new_items: Vec<AstNode> = Vec::new();
            let mut i: usize = 0;
            proof {
                assert(itv.subrange(0, 0) =~= Seq::<Node>::empty());
                assert(nodes_view(new_items@) =~= Seq::<Node>::empty());
                assert(start + Seq::<StepView>::empty() =~= start);
            }
            while i < items.len()
                invariant
                    i <= items@.len(),
                    nest <= MAX_MACRO_RECURSION_DEPTH,
                    itv == nodes_view(items@),
                    itv.len() == items@.len(),
                    forall|j: int| 0 <= j < items@.len() ==> #[trigger] itv[j] == node_view(items@[j]),
                    m@.term == Term::List(itv, *span),
                    items_traced_spec(user@, core@, itv.subrange(0, i as int), nest as nat).0
                        == Ok::<Seq<Node>, Fault>(nodes_view(new_items@)),
                    steps_view(trace@) == start + items_traced_spec(user@, core@, itv.subrange(0, i as int), nest as nat).1,
                    start == steps_view(old(trace)@),
                decreases items@.len() - i,
            {
                let ghost pre = itv.subrange(0, i as int);
                let ghost tp = items_traced_spec(user@, core@, pre, nest as nat).1;
                proof {
                    assert(itv.subrange(0, i + 1).drop_last() =~= pre);
                    assert(itv.subrange(0, i + 1).last() == itv[i as int]);
                }
                let item = share(&items[i]);
                let ghost iv = item@;
                assert(iv == itv[i as int]);
                let ghost before_trace = steps_view(trace@);
                match expand_nested(user, core, source, trace, item, nest + 1) {
                    Ok(x) => {
                        let ghost prev_items = new_items@;
                        new_items.push(x);
                        proof {
                            lemma_nodes_view(new_items@);
                            lemma_nodes_view(prev_items);
                            assert(nodes_view(new_items@) =~= nodes_view(prev_items).push(x@));
                            let tl = traced_spec(user@, core@, itv[i as int], (nest + 1) as nat).1;
                            assert(start + tp + tl =~= start + (tp + tl));
                        }
                    },
                    Err(e) => {
                        proof {
                            let tl = traced_spec(user@, core@, itv[i as int], (nest + 1) as nat).1;
                            assert(start + tp + tl =~= start + (tp + tl));
                            let full = items_traced_spec(user@, core@, itv.subrange(0, i + 1), nest as nat);
                            assert(full.0 is Err);
                            assert(full.1 == tp + tl);
                            lemma_items_traced_prefix_err(user@, core@, itv, i + 1, nest as nat);
                            assert(items_traced_spec(user@, core@, itv, nest as nat) == full);
                        }
                        return Err(e);
                    },
                }
                i = i + 1;
            }
            proof {
                assert(itv.subrange(0, i as int) =~= itv);
            }
            Ok(make_node(Expr::List(new_items, *span), m.span))
        },
        Expr::If { condition, then_branch, else_branch, span } => {
            let c0 = share(condition);
            let t0 = share(then_branch);
            let e0 = share(else_branch);
            let c2 = match expand_nested(user, core, source, trace, c0, nest + 1) {
                Ok(x) => x,
                Err(e) => { return Err(e); },
            };
            let ghost after_c = steps_view(trace@);
            let t2 = match expand_nested(user, core, source, trace, t0, nest + 1) {
                Ok(x) => x,
                Err(e) => {
                    proof {
                        let t1 = traced_spec(user@, core@, c0@, (nest + 1) as nat).1;
                        let t2s = traced_spec(user@, core@, t0@, (nest + 1) as nat).1;
                        assert(start + t1 + t2s =~= start + (t1 + t2s));
                    }
                    return Err(e);
                },
            };
            let e2 = match expand_nested(user, core, source, trace, e0, nest + 1) {
                Ok(x) => x,
                Err(e) => {
                    proof {
                        let t1 = traced_spec(user@, core@, c0@, (nest + 1) as nat).1;
                        let t2s = traced_spec(user@, core@, t0@, (nest + 1) as nat).1;
                        let t3 = traced_spec(user@, core@, e0@, (nest + 1) as nat).1;
                        assert(start + t1 + t2s + t3 =~= start + (t1 + t2s + t3));
                    }
                    return Err(e);
                },
            };
            proof {
                let t1 = traced_spec(user@, core@, c0@, (nest + 1) as nat).1;
                let t2s = traced_spec(user@, core@, t0@, (nest + 1) as nat).1;
                let t3 = traced_spec(user@, core@, e0@, (nest + 1) as nat).1;
                assert(start + t1 + t2s + t3 =~= start + (t1 + t2s + t3));
            }
            Ok(make_node(Expr::If { condition: Box::new(c2), then_branch: Box::new(t2), else_branch: Box::new(e2), span: *span },
                m.span))
        },
        Expr::Quote(inner, span) => {
            let i0 = share(inner);
            match expand_nested(user, core, source, trace, i0, nest + 1) {
                Ok(x) => Ok(make_node(Expr::Quote(Box::new(x), *span), m.span)),
                Err(e) => Err(e),
            }
        },
        Expr::Spread(inner) => {
            let i0 = share(inner);
            match expand_nested(user, core, source, trace, i0, nest + 1) {
                Ok(x) => Ok(make_node(Expr::Spread(Box::new(x)), m.span)),
                Err(e) => Err(e),
            }
        },
        _ => {
            assert(start + Seq::<StepView>::empty() =~= start);
            Ok(m)
        },
    }
}

/// Expands every macro call in `node` with the macros of `env`, user macros
/// before core macros, recording each step in `env`'s trace.
pub fn expand_macros_recursively(node: AstNode, env: &mut MacroEnv) -> (r: Result<AstNode, SutraError>)
    ensures
        steps_view(final(env).trace@) == steps_view(old(env).trace@)
            + traced_spec(old(env).user_macros@, old(env).core_macros@, node@, 0).1,
        node_result_matches(r, traced_spec(old(env).user_macros@, old(env).core_macros@, node@, 0).0),
        final(env).user_macros@ == old(env).user_macros@,
        final(env).core_macros@ == old(env).core_macros@,
        final(env).source == old(env).source,
{
    let mut trace: Vec<MacroExpansionStep> = Vec::new();
    std::mem::swap(&mut trace, &mut env.trace);
    let r = expand_nested(&env.user_macros, &env.core_macros, &env.source, &mut trace, node, 0);
    env.trace = trace;
    r
}

// ---------------------------------------------------------------------------
// What a trace records
// ---------------------------------------------------------------------------

/// A recorded step is a genuine expansion: its input is a call of the macro
/// it names, that macro is found where its provenance says (user macros
/// first), and its output is what the macro gives for the input.
pub open spec fn step_is_expansion(user: Map<Seq<char>, MacroDefinition>, core: Map<Seq<char>, MacroDefinition>,
    s: StepView) -> bool {
    &&& call_head(s.input) == Some(s.name)
    &&& lookup_spec(user, core, s.name) matches Some((p, d))
    &&& p == s.provenance
    &&& exists|depth: nat| def_expand_spec(d, s.input, depth) == Ok::<Node, Fault>(s.output)
}

/// Every step of `t` is a genuine expansion.
pub open spec fn all_steps_are_expansions(user: Map<Seq<char>, MacroDefinition>, core: Map<Seq<char>, MacroDefinition>,
    t: Seq<StepView>) -> bool {
    forall|i: int| 0 <= i < t.len() ==> step_is_expansion(user, core, #[trigger] t[i])
}

proof fn lemma_steps_concat(user: Map<Seq<char>, MacroDefinition>, core: Map<Seq<char>, MacroDefinition>,
    a: Seq<StepView>, b: Seq<StepView>)
    requires
        all_steps_are_expansions(user, core, a),
        all_steps_are_expansions(user, core, b),
    ensures
        all_steps_are_expansions(user, core, a + b),
{
    assert forall|i: int| 0 <= i < (a + b).len() implies step_is_expansion(user, core, #[trigger] (a + b)[i]) by {
        if i < a.len() {
            assert((a + b)[i] == a[i]);
        } else {
            assert((a + b)[i] == b[i - a.len()]);
        }
    }
}

proof fn lemma_heads_steps(user: Map<Seq<char>, MacroDefinition>, core: Map<Seq<char>, MacroDefinition>, n: Node,
    depth: nat)
    ensures
        all_steps_are_expansions(user, core, heads_spec(user, core, n, depth).1),
    decreases MAX_MACRO_RECURSION_DEPTH + 1 - depth,
{
    match call_head(n) {
        None => {},
        Some(name) => match lookup_spec(user, core, name) {
            None => {},
            Some((prov, d)) => if depth <= MAX_MACRO_RECURSION_DEPTH {
                match def_expand_spec(d, n, depth) {
                    Err(_) => {},
                    Ok(m) => {
                        lemma_heads_steps(user, core, m, depth + 1);
                        let s = StepView { name, provenance: prov, input: n, output: m };
                        assert(def_expand_spec(d, s.input, depth) == Ok::<Node, Fault>(s.output));
                        assert(step_is_expansion(user, core, s));
                        assert(all_steps_are_expansions(user, core, seq![s])) by {
                            assert forall|i: int| 0 <= i < seq![s].len() implies
                                step_is_expansion(user, core, #[trigger] seq![s][i]) by {
                                assert(seq![s][i] == s);
                            }
                        }
                        lemma_steps_concat(user, core, seq![s], heads_spec(user, core, m, depth + 1).1);
                    },
                }
            },
        },
    }
}

proof fn lemma_traced_steps(user: Map<Seq<char>, MacroDefinition>, core: Map<Seq<char>, MacroDefinition>, n: Node,
    nest: nat)
    ensures
        all_steps_are_expansions(user, core, traced_spec(user, core, n, nest).1),
    decreases MAX_MACRO_RECURSION_DEPTH + 1 - nest, 2int, 0int,
{
    if nest <= MAX_MACRO_RECURSION_DEPTH {
        lemma_heads_steps(user, core, n, 0);
        let (r1, t1) = heads_spec(user, core, n, 0);
        if let Ok(m) = r1 {
            lemma_subforms_steps(user, core, m, nest);
            lemma_steps_concat(user, core, t1, subforms_spec(user, core, m, nest).1);
        }
    }
}

proof fn lemma_subforms_steps(user: Map<Seq<char>, MacroDefinition>, core: Map<Seq<char>, MacroDefinition>, m: Node,
    nest: nat)
    ensures
        all_steps_are_expansions(user, core, subforms_spec(user, core, m, nest).1),
    decreases MAX_MACRO_RECURSION_DEPTH + 1 - nest, 1int, 0int,
{
    if nest <= MAX_MACRO_RECURSION_DEPTH {
        match m.term {
            Term::List(items, _) => {
                lemma_items_steps(user, core, items, nest);
            },
            Term::If(c, th, el, _) => {
                lemma_traced_steps(user, core, *c, nest + 1);
                lemma_traced_steps(user, core, *th, nest + 1);
                lemma_traced_steps(user, core, *el, nest + 1);
                let t1 = traced_spec(user, core, *c, nest + 1).1;
                let t2 = traced_spec(user, core, *th, nest + 1).1;
                let t3 = traced_spec(user, core, *el, nest + 1).1;
                lemma_steps_concat(user, core, t1, t2);
                lemma_steps_concat(user, core, t1 + t2, t3);
            },
            Term::Quote(inner, _) => {
                lemma_traced_steps(user, core, *inner, nest + 1);
            },
            Term::Spread(inner) => {
                lemma_traced_steps(user, core, *inner, nest + 1);
            },
            _ => {},
        }
    }
}

proof fn lemma_items_steps(user: Map<Seq<char>, MacroDefinition>, core: Map<Seq<char>, MacroDefinition>,
    items: Seq<Node>, nest: nat)
    ensures
        all_steps_are_expansions(user, core, items_traced_spec(user, core, items, nest).1),
    decreases MAX_MACRO_RECURSION_DEPTH + 1 - nest, 0int, items.len(),
{
    if nest <= MAX_MACRO_RECURSION_DEPTH && items.len() > 0 {
        lemma_items_steps(user, core, items.drop_last(), nest);
        let (rp, tp) = items_traced_spec(user, core, items.drop_last(), nest);
        if rp is Ok {
            lemma_traced_steps(user, core, items.last(), nest + 1);
            lemma_steps_concat(user, core, tp, traced_spec(user, core, items.last(), nest + 1).1);
        }
    }
}

/// What an expansion records is genuine: every step of the trace of a full
/// expansion of `n` (whether it succeeds or fails) is a call of the macro it
/// names, found where its provenance says, and its output is that macro's
/// expansion of its input.
pub proof fn law_trace_records_expansions(user: Map<Seq<char>, MacroDefinition>,
    core: Map<Seq<char>, MacroDefinition>, n: Node)
    ensures
        all_steps_are_expansions(user, core, traced_spec(user, core, n, 0).1),
{
    lemma_traced_steps(user, core, n, 0);
}

// ---------------------------------------------------------------------------
// What a successful expansion leaves
// ---------------------------------------------------------------------------

/// The step `st` gave the bare symbol `name`.
pub open spec fn gave_symbol(st: StepView, name: Seq<char>) -> bool {
    st.output.term matches Term::Symbol(x, _) && x == name
}

/// Some step of `t` gave the bare symbol `name`.
pub open spec fn some_step_gave_symbol(t: Seq<StepView>, name: Seq<char>) -> bool {
    exists|i: int| 0 <= i < t.len() && gave_symbol(#[trigger] t[i], name)
}

/// No macro call is left in `n` (through lists, `if` forms, quotes and
/// spreads), except a list whose head is a macro's name that some step of
/// `t` gave as a bare symbol: a head that was itself a form, and expanded
/// to that name.
pub open spec fn no_call_left(user: Map<Seq<char>, MacroDefinition>, core: Map<Seq<char>, MacroDefinition>, n: Node,
    t: Seq<StepView>) -> bool
    decreases n,
{
    match n.term {
        Term::List(items, _) => {
            &&& match call_head(n) {
                Some(s) => lookup_spec(user, core, s) is Some ==> some_step_gave_symbol(t, s),
                None => true,
            }
            &&& forall|j: int| 0 <= j < items.len() ==> no_call_left(user, core, #[trigger] items[j], t)
        },
        Term::If(c, th, el, _) => no_call_left(user, core, *c, t) && no_call_left(user, core, *th, t)
            && no_call_left(user, core, *el, t),
        Term::Quote(inner, _) => no_call_left(user, core, *inner, t),
        Term::Spread(inner) => no_call_left(user, core, *inner, t),
        _ => true,
    }
}

/// `x` is a step of `b`.
pub open spec fn step_in(x: StepView, b: Seq<StepView>) -> bool {
    exists|j: int| 0 <= j < b.len() && b[j] == x
}

/// Every step of `a` is a step of `b`.
pub open spec fn steps_within(a: Seq<StepView>, b: Seq<StepView>) -> bool {
    forall|i: int| 0 <= i < a.len() ==> step_in(#[trigger] a[i], b)
}

proof fn lemma_within_concat(a: Seq<StepView>, b: Seq<StepView>)
    ensures
        steps_within(a, a + b),
        steps_within(b, a + b),
{
    assert forall|i: int| 0 <= i < a.len() implies step_in(#[trigger] a[i], a + b) by {
        assert((a + b)[i] == a[i]);
    }
    assert forall|i: int| 0 <= i < b.len() implies step_in(#[trigger] b[i], a + b) by {
        assert((a + b)[a.len() + i] == b[i]);
    }
}

proof fn lemma_within_trans(a: Seq<StepView>, b: Seq<StepView>, c: Seq<StepView>)
    requires
        steps_within(a, b),
        steps_within(b, c),
    ensures
        steps_within(a, c),
{
    assert forall|i: int| 0 <= i < a.len() implies step_in(#[trigger] a[i], c) by {
        let j = choose|j: int| 0 <= j < b.len() && b[j] == a[i];
        assert(b[j] == a[i]);
        let k = choose|k: int| 0 <= k < c.len() && c[k] == b[j];
        assert(c[k] == b[j]);
    }
}

proof fn lemma_no_call_left_mono(user: Map<Seq<char>, MacroDefinition>, core: Map<Seq<char>, MacroDefinition>, n: Node,
    a: Seq<StepView>, b: Seq<StepView>)
    requires
        no_call_left(user, core, n, a),
        steps_within(a, b),
    ensures
        no_call_left(user, core, n, b),
    decreases n,
{
    match n.term {
        Term::List(items, _) => {
            if let Some(s) = call_head(n) {
                if lookup_spec(user, core, s) is Some {
                    let i = choose|i: int| 0 <= i < a.len() && gave_symbol(#[trigger] a[i], s);
                    assert(a[i] == a[i]);
                    let j = choose|j: int| 0 <= j < b.len() && b[j] == a[i];
                    assert(b[j] == a[i]);
                }
            }
            assert forall|j: int| 0 <= j < items.len() implies no_call_left(user, core, #[trigger] items[j], b) by {
                lemma_no_call_left_mono(user, core, items[j], a, b);
            }
        },
        Term::If(c, th, el, _) => {
            lemma_no_call_left_mono(user, core, *c, a, b);
            lemma_no_call_left_mono(user, core, *th, a, b);
            lemma_no_call_left_mono(user, core, *el, a, b);
        },
        Term::Quote(inner, _) => lemma_no_call_left_mono(user, core, *inner, a, b),
        Term::Spread(inner) => lemma_no_call_left_mono(user, core, *inner, a, b),
        _ => {},
    }
}

/// Where head expansion stops: at the node itself when no step was taken,
/// else at the output of the last step; and the head of where it stops is
/// no macro call.
proof fn lemma_heads_result(user: Map<Seq<char>, MacroDefinition>, core: Map<Seq<char>, MacroDefinition>, n: Node,
    depth: nat)
    ensures
        heads_spec(user, core, n, depth).0 matches Ok(m) ==> {
            let t = heads_spec(user, core, n, depth).1;
            &&& (t.len() == 0 ==> m == n)
            &&& (t.len() > 0 ==> t.last().output == m)
            &&& (call_head(m) matches Some(s) ==> lookup_spec(user, core, s) is None)
        },
    decreases MAX_MACRO_RECURSION_DEPTH + 1 - depth,
{
    match call_head(n) {
        None => {},
        Some(name) => match lookup_spec(user, core, name) {
            None => {},
            Some((prov, d)) => if depth <= MAX_MACRO_RECURSION_DEPTH {
                match def_expand_spec(d, n, depth) {
                    Err(_) => {},
                    Ok(m) => {
                        lemma_heads_result(user, core, m, depth + 1);
                        let s = StepView { name, provenance: prov, input: n, output: m };
                        let t = heads_spec(user, core, m, depth + 1).1;
                        assert((seq![s] + t).last() == if t.len() == 0 { s } else { t.last() });
                    },
                }
            },
        },
    }
}

/// Sub-form expansion keeps the kind of a node: a bare symbol comes out
/// only of itself.
proof fn lemma_subforms_symbol(user: Map<Seq<char>, MacroDefinition>, core: Map<Seq<char>, MacroDefinition>, m: Node,
    nest: nat)
    ensures
        match subforms_spec(user, core, m, nest).0 {
            Ok(y) => y.term is Symbol ==> y == m,
            Err(_) => true,
        },
{
}

/// The items of a successfully expanded list are the expansions of its
/// items, and their steps are among the list's steps.
proof fn lemma_items_each(user: Map<Seq<char>, MacroDefinition>, core: Map<Seq<char>, MacroDefinition>,
    items: Seq<Node>, nest: nat)
    ensures
        items_traced_spec(user, core, items, nest).0 matches Ok(ns) ==> {
            &&& ns.len() == items.len()
            &&& forall|j: int| 0 <= j < items.len() ==> traced_spec(user, core, #[trigger] items[j], nest + 1).0 == Ok::<Node, Fault>(ns[j])
                && steps_within(traced_spec(user, core, items[j], nest + 1).1, items_traced_spec(user, core, items, nest).1)
        },
    decreases items.len(),
{
    if nest <= MAX_MACRO_RECURSION_DEPTH && items.len() > 0 {
        lemma_items_each(user, core, items.drop_last(), nest);
        let (rp, tp) = items_traced_spec(user, core, items.drop_last(), nest);
        if let Ok(prev) = rp {
            let (rl, tl) = traced_spec(user, core, items.last(), nest + 1);
            if rl is Ok {
                lemma_within_concat(tp, tl);
                assert forall|j: int| 0 <= j < items.len() implies traced_spec(user, core, #[trigger] items[j], nest + 1).0
                    == Ok::<Node, Fault>(items_traced_spec(user, core, items, nest).0->Ok_0[j])
                    && steps_within(traced_spec(user, core, items[j], nest + 1).1, items_traced_spec(user, core, items, nest).1) by {
                    if j < items.len() - 1 {
                        assert(items[j] == items.drop_last()[j]);
                        lemma_within_trans(traced_spec(user, core, items[j], nest + 1).1, tp, tp + tl);
                    }
                }
            }
        }
    }
}

proof fn lemma_traced_leaves(user: Map<Seq<char>, MacroDefinition>, core: Map<Seq<char>, MacroDefinition>, n: Node,
    nest: nat)
    ensures
        traced_spec(user, core, n, nest).0 matches Ok(m) ==> no_call_left(user, core, m, traced_spec(user, core, n, nest).1),
    decreases MAX_MACRO_RECURSION_DEPTH + 1 - nest,
{
    if nest <= MAX_MACRO_RECURSION_DEPTH {
        let (r1, t1) = heads_spec(user, core, n, 0);
        lemma_heads_result(user, core, n, 0);
        if let Ok(m0) = r1 {
            let (r2, t2) = subforms_spec(user, core, m0, nest);
            let total = t1 + t2;
            lemma_within_concat(t1, t2);
            if let Ok(m) = r2 {
                match m0.term {
                    Term::List(items, sp) => {
                        lemma_items_each(user, core, items, nest);
                        let ns = items_traced_spec(user, core, items, nest).0->Ok_0;
                        assert(m == Node { term: Term::List(ns, sp), span: m0.span });
                        assert forall|j: int| 0 <= j < ns.len() implies no_call_left(user, core, #[trigger] ns[j], total) by {
                            lemma_traced_leaves(user, core, items[j], nest + 1);
                            lemma_no_call_left_mono(user, core, ns[j], traced_spec(user, core, items[j], nest + 1).1, t2);
                            lemma_no_call_left_mono(user, core, ns[j], t2, total);
                        }
                        if let Some(s) = call_head(m) {
                            if lookup_spec(user, core, s) is Some {
                                let x = items[0];
                                let tx = traced_spec(user, core, x, nest + 1).1;
                                assert(traced_spec(user, core, x, nest + 1).0 == Ok::<Node, Fault>(ns[0]));
                                if x.term is Symbol {
                                    assert(call_head(m0) == Some(s));
                                } else {
                                    let h = heads_spec(user, core, x, 0);
                                    lemma_heads_result(user, core, x, 0);
                                    let x0 = h.0->Ok_0;
                                    lemma_subforms_symbol(user, core, x0, nest + 1);
                                    assert(x0 == ns[0]);
                                    assert(h.1.len() > 0);
                                    let k = h.1.len() - 1;
                                    assert(h.1[k].output == ns[0]);
                                    lemma_within_concat(h.1, subforms_spec(user, core, x0, nest + 1).1);
                                    assert(tx == h.1 + subforms_spec(user, core, x0, nest + 1).1);
                                    assert(some_step_gave_symbol(h.1, s));
                                    lemma_within_trans(h.1, tx, t2);
                                    lemma_within_trans(h.1, t2, total);
                                    let j = choose|j: int| 0 <= j < total.len() && total[j] == h.1[k];
                                    assert(total[j] == h.1[k]);
                                }
                            }
                        }
                    },
                    Term::If(c, th, el, _) => {
                        lemma_traced_leaves(user, core, *c, nest + 1);
                        lemma_traced_leaves(user, core, *th, nest + 1);
                        lemma_traced_leaves(user, core, *el, nest + 1);
                        let ta = traced_spec(user, core, *c, nest + 1).1;
                        let tb = traced_spec(user, core, *th, nest + 1).1;
                        let tc = traced_spec(user, core, *el, nest + 1).1;
                        lemma_within_concat(ta, tb);
                        lemma_within_concat(ta + tb, tc);
                        lemma_within_trans(ta, ta + tb, ta + tb + tc);
                        lemma_within_trans(tb, ta + tb, ta + tb + tc);
                        lemma_within_trans(ta, ta + tb + tc, total);
                        lemma_within_trans(tb, ta + tb + tc, total);
                        lemma_within_trans(tc, ta + tb + tc, total);
                        lemma_no_call_left_mono(user, core, traced_spec(user, core, *c, nest + 1).0->Ok_0, ta, total);
                        lemma_no_call_left_mono(user, core, traced_spec(user, core, *th, nest + 1).0->Ok_0, tb, total);
                        lemma_no_call_left_mono(user, core, traced_spec(user, core, *el, nest + 1).0->Ok_0, tc, total);
                    },
                    Term::Quote(inner, _) => {
                        lemma_traced_leaves(user, core, *inner, nest + 1);
                        lemma_within_trans(traced_spec(user, core, *inner, nest + 1).1, t2, total);
                        lemma_no_call_left_mono(user, core, traced_spec(user, core, *inner, nest + 1).0->Ok_0,
                            traced_spec(user, core, *inner, nest + 1).1, total);
                    },
                    Term::Spread(inner) => {
                        lemma_traced_leaves(user, core, *inner, nest + 1);
                        lemma_within_trans(traced_spec(user, core, *inner, nest + 1).1, t2, total);
                        lemma_no_call_left_mono(user, core, traced_spec(user, core, *inner, nest + 1).0->Ok_0,
                            traced_spec(user, core, *inner, nest + 1).1, total);
                    },
                    _ => {},
                }
            }
        }
    }
}

/// A successful expansion leaves no macro call: every list left in the
/// result (through lists, `if` forms, quotes and spreads) whose head names a
/// macro has a head that was itself a form and expanded to that name, as
/// some recorded step shows.
pub proof fn law_no_macro_call_left(user: Map<Seq<char>, MacroDefinition>, core: Map<Seq<char>, MacroDefinition>,
    n: Node)
    ensures
        traced_spec(user, core, n, 0).0 matches Ok(m) ==> no_call_left(user, core, m, traced_spec(user, core, n, 0).1),
{
    lemma_traced_leaves(user, core, n, 0);
}

} // verus!
