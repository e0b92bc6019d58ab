//! The macro system: a purely syntactic rewriting of the tree before
//! evaluation.
//!
//! A macro is either one of the standard macros or a template
//! `(define (name params...) body)`. Expansion rewrites a call whose head
//! names a macro, then expands the result again; forms that are not macro
//! calls have their sub-forms expanded. Template expansion binds the
//! parameters to the call's arguments (a rest parameter to `(list args...)`)
//! and substitutes them into the body, splicing spread forms `...x`.
//! Expansion fails once more than `MAX_RECURSION_DEPTH` nested expansions
//! have been applied.
use vstd::prelude::*;
use crate::span::Span;
use crate::ast::{AstNode, Expr, Node, Term, ParamList, Params, make_node, share, share_all, nodes_view,
    node_view, type_name_of, lemma_nodes_view, lemma_nodes_view_concat, lemma_nodes_view_subrange};
use crate::errors::{SutraError, SourceContext, ValidationContext, ErrorKind, Fault, arity_fault, type_fault,
    recursion_fault, malformed_fault, empty_fault, missing_fault, type_error, arity_error};
use crate::text::{str_eq, decimal, push_str, push_decimal};
use crate::std_macros::{BuiltinMacro, builtin_spec, expand_builtin, sym_node};

verus! {

/// The deepest nesting of macro expansions before expansion fails.
pub const MAX_RECURSION_DEPTH: usize = 100;

/// The number of items of a macro definition `(define (name params...) body)`.
pub const MACRO_DEFINITION_ARITY: usize = 3;

/// A template macro: parameters and a body to substitute them into.
#[derive(Debug, Clone)]
pub struct MacroTemplate {
    pub params: ParamList,
    pub body: Box<AstNode>,
}

/// A macro: a standard macro or a template.
#[derive(Debug, Clone)]
pub enum MacroDefinition {
    Function(BuiltinMacro),
    Template(MacroTemplate),
}

// ---------------------------------------------------------------------------
// Specification
// ---------------------------------------------------------------------------

/// Binds `names[i]` to `args[i]`, in order (a later name replaces an earlier
/// equal one).
pub open spec fn bind_seq(names: Seq<Seq<char>>, args: Seq<Node>) -> Map<Seq<char>, Node>
    decreases names.len(),
{
    if names.len() == 0 {
        Map::empty()
    } else {
        bind_seq(names.drop_last(), args).insert(names.last(), args[names.len() - 1])
    }
}

/// The node `(list rest...)` bound to a rest parameter.
pub open spec fn rest_node(rest: Seq<Node>, span: Span) -> Node {
    Node { term: Term::List(seq![sym_node("list"@, span)] + rest, span), span }
}

/// The key under which the arguments of the rest parameter `name` are kept
/// as they were given, for a spread `...name` to splice.
pub open spec fn spread_key(name: Seq<char>) -> Seq<char> {
    "..."@ + name
}

/// The remaining arguments of a call, as a list without a head.
pub open spec fn rest_args_node(rest: Seq<Node>, span: Span) -> Node {
    Node { term: Term::List(rest, span), span }
}

/// The bindings of a template call: each required parameter to its argument,
/// then the rest parameter, if any, to `(list remaining-args...)`, and its
/// spread key to the remaining arguments themselves.
pub open spec fn template_bindings(params: Params, args: Seq<Node>, call_span: Span) -> Map<Seq<char>, Node> {
    let n = params.required.len();
    let base = bind_seq(params.required, args);
    match params.rest {
        Some(r) => base.insert(r, rest_node(args.subrange(n as int, args.len() as int), call_span))
            .insert(spread_key(r), rest_args_node(args.subrange(n as int, args.len() as int), call_span)),
        None => base,
    }
}

/// What a spread `...inner` splices, where `inner` substitutes to `r`: the
/// arguments of a rest parameter spread by its name, else `r`.
pub open spec fn spread_source(inner: Node, r: Node, b: Map<Seq<char>, Node>) -> Node {
    match inner.term {
        Term::Symbol(name, _) => if b.contains_key(spread_key(name)) { b[spread_key(name)] } else { r },
        _ => r,
    }
}

/// Substitutes bound symbols in a template.
pub open spec fn subst_spec(n: Node, b: Map<Seq<char>, Node>) -> Result<Node, Fault>
    decreases n, 1int,
{
    match n.term {
        Term::Symbol(name, _) => Ok(if b.contains_key(name) { b[name] } else { n }),
        Term::List(items, s) => match subst_items(items, b) {
            Ok(ns) => Ok(Node { term: Term::List(ns, s), span: n.span }),
            Err(f) => Err(f),
        },
        _ => Ok(n),
    }
}

/// Substitutes in the items of a list. A spread form `...x` splices the
/// arguments of the rest parameter `x`, or else the items of the list `x`
/// substitutes to.
pub open spec fn subst_items(items: Seq<Node>, b: Map<Seq<char>, Node>) -> Result<Seq<Node>, Fault>
    decreases items, 0int,
{
    if items.len() == 0 {
        Ok(Seq::empty())
    } else {
        match subst_items(items.drop_last(), b) {
            Ok(prev) => match items.last().term {
                Term::Spread(inner) => match subst_spec(*inner, b) {
                    Ok(r) => match spread_source(*inner, r, b).term {
                        Term::List(elems, _) => Ok(prev + elems),
                        _ => Err(type_fault("list"@, type_name_of(spread_source(*inner, r, b).term), inner.span)),
                    },
                    Err(f) => Err(f),
                },
                _ => match subst_spec(items.last(), b) {
                    Ok(r) => Ok(prev.push(r)),
                    Err(f) => Err(f),
                },
            },
            Err(f) => Err(f),
        }
    }
}

/// The expected-arity text of a template: `at least n` when it has a rest
/// parameter, else `n`.
pub open spec fn expected_arity(p: Params) -> Seq<char> {
    if p.rest is Some { "at least "@ + decimal(p.required.len()) } else { decimal(p.required.len()) }
}

/// Expands one macro call with the definition `d`.
pub open spec fn apply_spec(call: Node, d: MacroDefinition) -> Result<Node, Fault> {
    match d {
        MacroDefinition::Function(b) => builtin_spec(b, call),
        MacroDefinition::Template(t) => match call.term {
            Term::List(items, s) => if items.len() == 0 {
                Err(empty_fault(s))
            } else {
                let args = items.subrange(1, items.len() as int);
                let p = t.params@;
                if args.len() < p.required.len() || (args.len() > p.required.len() && p.rest is None) {
                    Err(arity_fault(expected_arity(p), args.len(), call.span))
                } else {
                    subst_spec(node_view(*t.body), template_bindings(p, args, call.span))
                }
            },
            _ => Err(malformed_fault("macro call"@, call.span)),
        },
    }
}

/// The macro name a node calls: the head symbol of a non-empty list.
pub open spec fn call_head(n: Node) -> Option<Seq<char>> {
    match n.term {
        Term::List(items, _) => if items.len() > 0 {
            match items[0].term {
                Term::Symbol(name, _) => Some(name),
                _ => None,
            }
        } else {
            None
        },
        _ => None,
    }
}

/// The remaining expansion budget at `depth`.
pub open spec fn budget(depth: nat) -> nat {
    if depth > MAX_RECURSION_DEPTH { 0 } else { (MAX_RECURSION_DEPTH + 1 - depth) as nat }
}

/// Full expansion of a node at nesting `depth` under the macros `sys`.
pub open spec fn expand_spec(sys: Map<Seq<char>, MacroDefinition>, n: Node, depth: nat) -> Result<Node, Fault>
    decreases budget(depth), n, 2int,
{
    if depth > MAX_RECURSION_DEPTH {
        Err(recursion_fault(n.span))
    } else {
        match call_head(n) {
            Some(name) => if sys.contains_key(name) {
                match apply_spec(n, sys[name]) {
                    Ok(e) => expand_spec(sys, e, depth + 1),
                    Err(f) => Err(f),
                }
            } else {
                expand_sub_spec(sys, n, depth)
            },
            None => expand_sub_spec(sys, n, depth),
        }
    }
}

/// Expansion of the sub-forms of a node that is not a macro call.
pub open spec fn expand_sub_spec(sys: Map<Seq<char>, MacroDefinition>, n: Node, depth: nat) -> Result<Node, Fault>
    decreases budget(depth), n, 1int,
{
    if depth > MAX_RECURSION_DEPTH {
        Err(recursion_fault(n.span))
    } else {
        match n.term {
            Term::List(items, s) => match expand_items(sys, items, depth) {
                Ok(ns) => Ok(Node { term: Term::List(ns, s), span: n.span }),
                Err(f) => Err(f),
            },
            Term::If(c, t, e, s) => match expand_spec(sys, *c, depth) {
                Ok(c2) => match expand_spec(sys, *t, depth) {
                    Ok(t2) => match expand_spec(sys, *e, depth) {
                        Ok(e2) => Ok(Node { term: Term::If(Box::new(c2), Box::new(t2), Box::new(e2), s), span: n.span }),
                        Err(f) => Err(f),
                    },
                    Err(f) => Err(f),
                },
                Err(f) => Err(f),
            },
            Term::Quote(inner, s) => match expand_spec(sys, *inner, depth) {
                Ok(i2) => Ok(Node { term: Term::Quote(Box::new(i2), s), span: n.span }),
                Err(f) => Err(f),
            },
            Term::Spread(inner) => match expand_spec(sys, *inner, depth) {
                Ok(i2) => Ok(Node { term: Term::Spread(Box::new(i2)), span: n.span }),
                Err(f) => Err(f),
            },
            _ => Ok(n),
        }
    }
}

/// Expansion of each item of a list, left to right.
pub open spec fn expand_items(sys: Map<Seq<char>, MacroDefinition>, items: Seq<Node>, depth: nat) -> Result<Seq<Node>, Fault>
    decreases budget(depth), items, 0int,
{
    if items.len() == 0 {
        Ok(Seq::empty())
    } else {
        match expand_items(sys, items.drop_last(), depth) {
            Ok(prev) => match expand_spec(sys, items.last(), depth) {
                Ok(x) => Ok(prev.push(x)),
                Err(f) => Err(f),
            },
            Err(f) => Err(f),
        }
    }
}


// ---------------------------------------------------------------------------
// Macro registry
// ---------------------------------------------------------------------------

/// The map from names to definitions that a list of entries describes,
/// later entries replacing earlier ones.
pub open spec fn entries_map(e: Seq<(String, MacroDefinition)>) -> Map<Seq<char>, MacroDefinition>
    decreases e.len(),
{
    if e.len() == 0 {
        Map::empty()
    } else {
        entries_map(e.drop_last()).insert(e.last().0@, e.last().1)
    }
}

/// No two entries share a name.
pub open spec fn distinct_names(e: Seq<(String, MacroDefinition)>) -> bool {
    forall|i: int, j: int| 0 <= i < j < e.len() ==> e[i].0@ != e[j].0@
}

proof fn lemma_entries_len(e: Seq<(String, MacroDefinition)>)
    requires
        distinct_names(e),
    ensures
        entries_map(e).dom().len() == e.len(),
{
    lemma_entries_map(e);
    let names = e.map_values(|p: (String, MacroDefinition)| p.0@);
    assert forall|k: Seq<char>| entries_map(e).dom().contains(k) <==> #[trigger] names.to_set().contains(k) by {
        if entries_map(e).dom().contains(k) {
            let j = choose|j: int| 0 <= j < e.len() && e[j].0@ == k;
            assert(names[j] == k);
        }
        if names.to_set().contains(k) {
            let j = choose|j: int| 0 <= j < names.len() && #[trigger] names[j] == k;
            assert(e[j].0@ == k);
        }
    }
    assert(entries_map(e).dom() =~= names.to_set());
    assert(names.no_duplicates()) by {
        assert forall|a: int, b: int| 0 <= a < names.len() && 0 <= b < names.len() && a != b implies names[a] != names[b] by {
            if a < b { assert(e[a].0@ != e[b].0@); } else { assert(e[b].0@ != e[a].0@); }
        }
    }
    names.unique_seq_to_set();
}

proof fn lemma_entries_map(e: Seq<(String, MacroDefinition)>)
    requires
        distinct_names(e),
    ensures
        forall|k: Seq<char>| entries_map(e).contains_key(k) <==> exists|i: int| 0 <= i < e.len() && e[i].0@ == k,
        forall|i: int| 0 <= i < e.len() ==> #[trigger] entries_map(e)[e[i].0@] == e[i].1,
        entries_map(e).dom().finite(),
    decreases e.len(),
{
    if e.len() > 0 {
        lemma_entries_map(e.drop_last());
        assert forall|k: Seq<char>| entries_map(e).contains_key(k) <==> exists|i: int| 0 <= i < e.len() && e[i].0@ == k by {
            if entries_map(e).contains_key(k) {
                if k != e.last().0@ {
                    let i = choose|i: int| 0 <= i < e.drop_last().len() && e.drop_last()[i].0@ == k;
                    assert(e[i].0@ == k);
                } else {
                    assert(e[e.len() - 1].0@ == k);
                }
            }
            if exists|i: int| 0 <= i < e.len() && e[i].0@ == k {
                let i = choose|i: int| 0 <= i < e.len() && e[i].0@ == k;
                if i < e.len() - 1 {
                    assert(e.drop_last()[i].0@ == k);
                }
            }
        }
        assert forall|i: int| 0 <= i < e.len() implies #[trigger] entries_map(e)[e[i].0@] == e[i].1 by {
            if i < e.len() - 1 {
                assert(e.drop_last()[i] == e[i]);
                assert(e[i].0@ != e.last().0@);
            }
        }
    }
}

/// Where a macro came from: defined by the user or built into the system.
#[derive(Debug, Clone, Copy, PartialEq, Eq)]
pub enum MacroProvenance {
    User,
    Core,
}

/// The macros known to the expander.
#[derive(Debug)]
pub struct MacroSystem {
    macros: Vec<(String, MacroDefinition)>,
}

impl View for MacroSystem {
    type V = Map<Seq<char>, MacroDefinition>;

    closed spec fn view(&self) -> Map<Seq<char>, MacroDefinition> {
        entries_map(self.macros@)
    }
}

impl MacroSystem {
    #[verifier::type_invariant]
    closed spec fn inv(self) -> bool {
        distinct_names(self.macros@)
    }

    /// An empty macro system.
    pub fn new() -> (r: MacroSystem)
        ensures
            r@ == Map::<Seq<char>, MacroDefinition>::empty(),
    {
        MacroSystem { macros: Vec::new() }
    }

    fn find(&self, name: &str) -> (r: Option<usize>)
        ensures
            match r {
                Some(i) => i < self.macros@.len() && self.macros@[i as int].0@ == name@,
                None => forall|i: int| 0 <= i < self.macros@.len() ==> self.macros@[i].0@ != name@,
            },
    {
        let mut i: usize = 0;
        while i < self.macros.len()
            invariant
                i <= self.macros@.len(),
                forall|j: int| 0 <= j < i ==> self.macros@[j].0@ != name@,
            decreases self.macros@.len() - i,
        {
            if str_eq(self.macros[i].0.as_str(), name) {
                return Some(i);
            }
            i = i + 1;
        }
        None
    }

    /// Registers `definition` under `name`, replacing any macro of that
    /// name, and gives back the definition it replaced.
    pub fn insert(&mut self, name: String, definition: MacroDefinition) -> (r: Option<MacroDefinition>)
        ensures
            final(self)@ == old(self)@.insert(name@, definition),
            r == (if old(self)@.contains_key(name@) { Some(old(self)@[name@]) } else { None::<MacroDefinition> }),
    {
        proof { use_type_invariant(&*self); }
        let ghost old_entries = self.macros@;
        proof { lemma_entries_map(old_entries); }
        match self.find(name.as_str()) {
            Some(i) => {
                let mut entries: Vec<(String, MacroDefinition)> = Vec::new();
                std::mem::swap(&mut entries, &mut self.macros);
                let (_, replaced) = entries.remove(i);
                entries.insert(i, (name, definition));
                proof {
                    assert(entries@ =~= old_entries.update(i as int, (name, definition)));
                    assert(distinct_names(entries@));
                    lemma_entries_map(entries@);
                    assert(entries_map(old_entries)[old_entries[i as int].0@] == old_entries[i as int].1);
                    assert(entries_map(entries@) =~= entries_map(old_entries).insert(name@, definition)) by {
                        assert forall|k: Seq<char>| #[trigger] entries_map(entries@).contains_key(k)
                            == entries_map(old_entries).insert(name@, definition).contains_key(k) by {
                            if exists|j: int| 0 <= j < old_entries.len() && old_entries[j].0@ == k {
                                let j = choose|j: int| 0 <= j < old_entries.len() && old_entries[j].0@ == k;
                                if j == i { assert(entries@[j].0@ == k); } else { assert(entries@[j] == old_entries[j]); }
                            }
                            if exists|j: int| 0 <= j < entries@.len() && entries@[j].0@ == k {
                                let j = choose|j: int| 0 <= j < entries@.len() && entries@[j].0@ == k;
                                if j != i { assert(entries@[j] == old_entries[j]); }
                            }
                        }
                        assert forall|k: Seq<char>| #[trigger] entries_map(entries@).contains_key(k) implies
                            entries_map(entries@)[k] == entries_map(old_entries).insert(name@, definition)[k] by {
                            let j = choose|j: int| 0 <= j < entries@.len() && entries@[j].0@ == k;
                            assert(entries_map(entries@)[entries@[j].0@] == entries@[j].1);
                            if j != i {
                                assert(entries@[j] == old_entries[j]);
                                assert(entries_map(old_entries)[old_entries[j].0@] == old_entries[j].1);
                            }
                        }
                    }
                }
                self.macros = entries;
                Some(replaced)
            },
            None => {
                let mut entries: Vec<(String, MacroDefinition)> = Vec::new();
                std::mem::swap(&mut entries, &mut self.macros);
                entries.push((name, definition));
                proof {
                    assert(entries@.drop_last() =~= old_entries);
                    assert(distinct_names(entries@));
                }
                self.macros = entries;
                None
            },
        }
    }

    /// Registers `definition` under `name`, replacing any macro of that name.
    pub fn register(&mut self, name: String, definition: MacroDefinition)
        ensures
            final(self)@ == old(self)@.insert(name@, definition),
    {
        let _ = self.insert(name, definition);
    }

    /// Removes the macro named `name`, giving back its definition.
    pub fn remove(&mut self, name: &str) -> (r: Option<MacroDefinition>)
        ensures
            final(self)@ == old(self)@.remove(name@),
            r == (if old(self)@.contains_key(name@) { Some(old(self)@[name@]) } else { None::<MacroDefinition> }),
    {
        proof { use_type_invariant(&*self); }
        let ghost old_entries = self.macros@;
        proof { lemma_entries_map(old_entries); }
        match self.find(name) {
            Some(i) => {
                let mut entries: Vec<(String, MacroDefinition)> = Vec::new();
                std::mem::swap(&mut entries, &mut self.macros);
                let (_, removed) = entries.remove(i);
                proof {
                    assert(entries@ =~= old_entries.remove(i as int));
                    assert(distinct_names(entries@)) by {
                        assert forall|a: int, b: int| 0 <= a < b < entries@.len() implies entries@[a].0@ != entries@[b].0@ by {
                            let a2 = if a < i { a } else { a + 1 };
                            let b2 = if b < i { b } else { b + 1 };
                            assert(entries@[a] == old_entries[a2]);
                            assert(entries@[b] == old_entries[b2]);
                        }
                    }
                    lemma_entries_map(entries@);
                    assert(entries_map(old_entries)[old_entries[i as int].0@] == old_entries[i as int].1);
                    assert(entries_map(entries@) =~= entries_map(old_entries).remove(name@)) by {
                        assert forall|k: Seq<char>| #[trigger] entries_map(entries@).contains_key(k)
                            == entries_map(old_entries).remove(name@).contains_key(k) by {
                            if exists|j: int| 0 <= j < old_entries.len() && old_entries[j].0@ == k && k != name@ {
                                let j = choose|j: int| 0 <= j < old_entries.len() && old_entries[j].0@ == k && k != name@;
                                assert(j != i);
                                if j < i { assert(entries@[j] == old_entries[j]); } else { assert(entries@[j - 1] == old_entries[j]); }
                            }
                            if exists|j: int| 0 <= j < entries@.len() && entries@[j].0@ == k {
                                let j = choose|j: int| 0 <= j < entries@.len() && entries@[j].0@ == k;
                                let j2 = if j < i { j } else { j + 1 };
                                assert(entries@[j] == old_entries[j2]);
                            }
                        }
                        assert forall|k: Seq<char>| #[trigger] entries_map(entries@).contains_key(k) implies
                            entries_map(entries@)[k] == entries_map(old_entries).remove(name@)[k] by {
                            let j = choose|j: int| 0 <= j < entries@.len() && entries@[j].0@ == k;
                            let j2 = if j < i { j } else { j + 1 };
                            assert(entries@[j] == old_entries[j2]);
                            assert(entries_map(entries@)[entries@[j].0@] == entries@[j].1);
                            assert(entries_map(old_entries)[old_entries[j2].0@] == old_entries[j2].1);
                        }
                    }
                }
                self.macros = entries;
                Some(removed)
            },
            None => {
                assert(old_entries == self.macros@);
                assert(entries_map(old_entries).remove(name@) =~= entries_map(old_entries));
                None
            },
        }
    }

    /// How many macros are registered.
    pub fn len(&self) -> (r: usize)
        ensures
            r == self@.dom().len(),
    {
        proof {
            use_type_invariant(self);
            lemma_entries_len(self.macros@);
        }
        self.macros.len()
    }

    /// Removes every macro.
    pub fn clear(&mut self)
        ensures
            final(self)@ == Map::<Seq<char>, MacroDefinition>::empty(),
    {
        self.macros = Vec::new();
        assert(entries_map(self.macros@) =~= Map::<Seq<char>, MacroDefinition>::empty());
    }

    /// Every registered macro with its name, each once.
    pub fn entries(&self) -> (r: Vec<(&String, &MacroDefinition)>)
        ensures
            r@.len() == self@.dom().len(),
            forall|i: int| 0 <= i < r@.len() ==> self@.contains_key((#[trigger] r@[i]).0@) && self@[r@[i].0@] == *r@[i].1,
            forall|k: Seq<char>| self@.contains_key(k) ==> exists|i: int| 0 <= i < r@.len() && (#[trigger] r@[i]).0@ == k,
            forall|i: int, j: int| 0 <= i < j < r@.len() ==> (#[trigger] r@[i]).0@ != (#[trigger] r@[j]).0@,
    {
        proof {
            use_type_invariant(self);
            lemma_entries_map(self.macros@);
            lemma_entries_len(self.macros@);
        }
        let mut r: Vec<(&String, &MacroDefinition)> = Vec::new();
        let mut i: usize = 0;
        while i < self.macros.len()
            invariant
                i <= self.macros@.len(),
                distinct_names(self.macros@),
                r@.len() == i,
                forall|j: int| 0 <= j < i ==> (#[trigger] r@[j]).0@ == self.macros@[j].0@ && *r@[j].1 == self.macros@[j].1,
            decreases self.macros@.len() - i,
        {
            r.push((&self.macros[i].0, &self.macros[i].1));
            i = i + 1;
        }
        proof {
            assert forall|k: Seq<char>| self@.contains_key(k) implies exists|i: int| 0 <= i < r@.len() && (#[trigger] r@[i]).0@ == k by {
                let j = choose|j: int| 0 <= j < self.macros@.len() && self.macros@[j].0@ == k;
                assert(r@[j].0@ == k);
            }
            assert forall|a: int| 0 <= a < r@.len() implies self@.contains_key((#[trigger] r@[a]).0@) && self@[r@[a].0@] == *r@[a].1 by {
                assert(self@[self.macros@[a].0@] == self.macros@[a].1);
            }
        }
        r
    }

    /// Whether a macro named `name` is registered.
    pub fn has_macro(&self, name: &str) -> (r: bool)
        ensures
            r == self@.contains_key(name@),
    {
        proof {
            use_type_invariant(self);
            lemma_entries_map(self.macros@);
        }
        self.find(name).is_some()
    }

    /// The macro registered under `name`.
    pub fn get_macro(&self, name: &str) -> (r: Option<&MacroDefinition>)
        ensures
            match r {
                Some(d) => self@.contains_key(name@) && self@[name@] == *d,
                None => !self@.contains_key(name@),
            },
    {
        proof {
            use_type_invariant(self);
            lemma_entries_map(self.macros@);
        }
        match self.find(name) {
            Some(i) => Some(&self.macros[i].1),
            None => None,
        }
    }

    /// The names of all registered macros, each once.
    pub fn macro_names(&self) -> (r: Vec<String>)
        ensures
            r@.len() == self@.dom().len(),
            forall|k: Seq<char>| self@.contains_key(k) <==> exists|i: int| 0 <= i < r@.len() && r@[i]@ == k,
            forall|i: int, j: int| 0 <= i < j < r@.len() ==> r@[i]@ != r@[j]@,
    {
        proof {
            use_type_invariant(self);
            lemma_entries_map(self.macros@);
        }
        let mut r: Vec<String> = Vec::new();
        let mut i: usize = 0;
        while i < self.macros.len()
            invariant
                i <= self.macros@.len(),
                distinct_names(self.macros@),
                r@.len() == i,
                forall|j: int| 0 <= j < i ==> r@[j]@ == self.macros@[j].0@,
            decreases self.macros@.len() - i,
        {
            r.push(self.macros[i].0.clone());
            i = i + 1;
        }
        proof {
            let names = r@.map_values(|s: String| s@);
            assert forall|k: Seq<char>| self@.dom().contains(k) <==> #[trigger] names.to_set().contains(k) by {
                if self@.dom().contains(k) {
                    let j = choose|j: int| 0 <= j < self.macros@.len() && self.macros@[j].0@ == k;
                    assert(names[j] == k);
                }
                if names.to_set().contains(k) {
                    let j = choose|j: int| 0 <= j < names.len() && #[trigger] names[j] == k;
                    assert(self.macros@[j].0@ == k);
                }
            }
            assert(self@.dom() =~= names.to_set());
            assert(names.no_duplicates());
            names.unique_seq_to_set();
            assert forall|k: Seq<char>| self@.contains_key(k) implies exists|i: int| 0 <= i < r@.len() && r@[i]@ == k by {
                let j = choose|j: int| 0 <= j < self.macros@.len() && self.macros@[j].0@ == k;
                assert(r@[j]@ == k);
            }
        }
        r
    }
}


// ---------------------------------------------------------------------------
// Expansion
// ---------------------------------------------------------------------------

fn create_error(kind: ErrorKind, module: &str, context: &str, span: Span) -> (r: SutraError)
    ensures
        r.kind == kind,
        r.source_info.primary_span == span,
{
    let ctx = ValidationContext::new(SourceContext::from_file(module, context), "macro_expansion".to_string());
    ctx.report(kind, span)
}

/// The bindings a list of (name, node) pairs describes, later pairs
/// replacing earlier ones.
pub open spec fn assoc_map(p: Seq<(String, AstNode)>) -> Map<Seq<char>, Node>
    decreases p.len(),
{
    if p.len() == 0 {
        Map::empty()
    } else {
        assoc_map(p.drop_last()).insert(p.last().0@, node_view(p.last().1))
    }
}

proof fn lemma_assoc_suffix(p: Seq<(String, AstNode)>, k: int, name: Seq<char>)
    requires
        0 <= k <= p.len(),
        forall|j: int| k <= j < p.len() ==> p[j].0@ != name,
    ensures
        assoc_map(p).contains_key(name) == assoc_map(p.subrange(0, k)).contains_key(name),
        assoc_map(p).contains_key(name) ==> assoc_map(p)[name] == assoc_map(p.subrange(0, k))[name],
    decreases p.len(),
{
    if p.len() > k {
        assert(p.drop_last().subrange(0, k) =~= p.subrange(0, k));
        lemma_assoc_suffix(p.drop_last(), k, name);
    } else {
        assert(p.subrange(0, k) =~= p);
    }
}

/// The node bound to `name`: the last pair with that name.
pub(crate) fn lookup_binding<'a>(bindings: &'a Vec<(String, AstNode)>, name: &str) -> (r: Option<&'a AstNode>)
    ensures
        match r {
            Some(n) => assoc_map(bindings@).contains_key(name@) && assoc_map(bindings@)[name@] == n@,
            None => !assoc_map(bindings@).contains_key(name@),
        },
{
    let mut k: usize = bindings.len();
    while k > 0
        invariant
            k <= bindings@.len(),
            forall|j: int| k <= j < bindings@.len() ==> bindings@[j].0@ != name@,
        decreases k,
    {
        if str_eq(bindings[k - 1].0.as_str(), name) {
            proof {
                lemma_assoc_suffix(bindings@, k as int, name@);
                assert(bindings@.subrange(0, k as int).drop_last() =~= bindings@.subrange(0, k - 1));
            }
            return Some(&bindings[k - 1].1);
        }
        k = k - 1;
    }
    proof {
        lemma_assoc_suffix(bindings@, 0, name@);
        assert(bindings@.subrange(0, 0) =~= Seq::<(String, AstNode)>::empty());
    }
    None
}

/// What a spread of `inner` splices, where `inner` substituted to
/// `substituted`: the arguments of the rest parameter `inner` names, when it
/// names one, else `substituted`.
pub(crate) fn spread_source_exec<'a>(inner: &AstNode, substituted: &'a AstNode, bindings: &'a Vec<(String, AstNode)>)
    -> (r: &'a AstNode)
    ensures
        r@ == spread_source(inner@, substituted@, assoc_map(bindings@)),
{
    match &*inner.value {
        Expr::Symbol(name, _) => {
            let mut key = String::new();
            push_str(&mut key, "...");
            push_str(&mut key, name.as_str());
            assert(key@ =~= spread_key(name@));
            match lookup_binding(bindings, key.as_str()) {
                Some(n) => n,
                None => substituted,
            }
        },
        _ => substituted,
    }
}

proof fn lemma_subst_items_prefix_err(items: Seq<Node>, k: int, b: Map<Seq<char>, Node>)
    requires
        0 <= k <= items.len(),
        subst_items(items.subrange(0, k), b) is Err,
    ensures
        subst_items(items, b) == subst_items(items.subrange(0, k), b),
    decreases items.len(),
{
    if items.len() > k {
        assert(items.drop_last().subrange(0, k) =~= items.subrange(0, k));
        lemma_subst_items_prefix_err(items.drop_last(), k, b);
    } else {
        assert(items.subrange(0, k) =~= items);
    }
}

/// Substitutes the bound symbols of a template body. A spread form `...x`
/// inside a list splices the items of the list `x` substitutes to; it is an
/// error if `x` does not substitute to a list.
fn substitute_template(node: &AstNode, bindings: &Vec<(String, AstNode)>) -> (r: Result<AstNode, SutraError>)
    ensures
        match (r, subst_spec(node@, assoc_map(bindings@))) {
            (Ok(n), Ok(m)) => n@ == m,
            (Err(e), Err(f)) => e.fault() == f,
            _ => false,
        },
    decreases node@,
{
    let ghost b = assoc_map(bindings@);
    match &*node.value {
        Expr::Symbol(name, _) => {
            match lookup_binding(bindings, name.as_str()) {
                Some(n) => Ok(share(n)),
                None => Ok(share(node)),
            }
        },
        Expr::List(items, span) => {
            let ghost itv = nodes_view(items@);
            assert(node@.term == Term::List(itv, *span));
            proof { lemma_nodes_view(items@); }
            let mut new_items: Vec<AstNode> = Vec::new();
            let mut i: usize = 0;
            proof {
                assert(items@.subrange(0, 0) =~= Seq::<AstNode>::empty());
                assert(nodes_view(Seq::<AstNode>::empty()) =~= Seq::<Node>::empty());
                assert(nodes_view(new_items@) =~= Seq::<Node>::empty());
            }
            while i < items.len()
                invariant
                    i <= items@.len(),
                    b == assoc_map(bindings@),
                    itv == nodes_view(items@),
                    itv.len() == items@.len(),
                    node@.term == Term::List(itv, *span),
                    subst_items(nodes_view(items@.subrange(0, i as int)), b) == Ok::<Seq<Node>, Fault>(nodes_view(new_items@)),
                decreases items@.len() - i,
            {
                proof {
                    lemma_nodes_view(items@);
                    lemma_nodes_view(items@.subrange(0, i + 1));
                    lemma_nodes_view(items@.subrange(0, i as int));
                    assert(nodes_view(items@.subrange(0, i + 1)).drop_last() =~= nodes_view(items@.subrange(0, i as int)));
                    assert(nodes_view(items@.subrange(0, i + 1)).last() == items@[i as int]@);
                    assert(decreases_to!(node@ => itv));
                    assert(decreases_to!(itv => itv[i as int]));
                }
                let item = &items[i];
                let step: Result<(), SutraError> = match &*item.value {
                    Expr::Spread(inner) => {
                        proof {
                            assert(item@.term == Term::Spread(Box::new(node_view(**inner))));
                            assert(itv[i as int] == item@);
                            assert(decreases_to!(node@ => item@));
                            assert(decreases_to!(item@ => item@.term));
                            assert(item@.term->Spread_0 == Box::new(node_view(**inner)));
                            assert(decreases_to!(item@.term => item@.term->Spread_0));
                            assert(decreases_to!(node@ => node_view(**inner)));
                        }
                        match substitute_template(inner, bindings) {
                            Ok(substituted) => {
                                let source_node = spread_source_exec(inner, &substituted, bindings);
                                match &*source_node.value {
                                    Expr::List(elements, _) => {
                                        let ghost before = new_items@;
                                        let copies = share_all(elements.as_slice());
                                        let mut j: usize = 0;
                                        while j < copies.len()
                                            invariant
                                                j <= copies@.len(),
                                                copies@ == elements@,
                                                new_items@ == before + copies@.subrange(0, j as int),
                                            decreases copies@.len() - j,
                                        {
                                            new_items.push(share(&copies[j]));
                                            j = j + 1;
                                            assert(new_items@ =~= before + copies@.subrange(0, j as int));
                                        }
                                        proof {
                                            assert(copies@.subrange(0, copies@.len() as int) =~= copies@);
                                            lemma_nodes_view_concat(before, elements@);
                                        }
                                        Ok(())
                                    },
                                    _ => Err(type_error("list", source_node.type_label(),
                                        SourceContext::from_file("macro_expansion", "type_error"), "macro_expansion", inner.span)),
                                }
                            },
                            Err(e) => Err(e),
                        }
                    },
                    _ => {
                        match substitute_template(item, bindings) {
                            Ok(substituted) => {
                                let ghost before = new_items@;
                                new_items.push(substituted);
                                proof {
                                    lemma_nodes_view(new_items@);
                                    lemma_nodes_view(before);
                                    assert(nodes_view(new_items@) =~= nodes_view(before).push(new_items@.last()@));
                                }
                                Ok(())
                            },
                            Err(e) => Err(e),
                        }
                    },
                };
                match step {
                    Ok(()) => {},
                    Err(e) => {
                        proof {
                            lemma_nodes_view_subrange(items@, 0, i + 1);
                            lemma_subst_items_prefix_err(itv, i + 1, b);
                        }
                        return Err(e);
                    },
                }
                i = i + 1;
            }
            proof {
                assert(items@.subrange(0, items@.len() as int) =~= items@);
            }
            Ok(make_node(Expr::List(new_items, *span), node.span))
        },
        _ => Ok(share(node)),
    }
}


proof fn lemma_expand_items_prefix_err(sys: Map<Seq<char>, MacroDefinition>, items: Seq<Node>, k: int, depth: nat)
    requires
        0 <= k <= items.len(),
        expand_items(sys, items.subrange(0, k), depth) is Err,
    ensures
        expand_items(sys, items, depth) == expand_items(sys, items.subrange(0, k), depth),
    decreases items.len(),
{
    if items.len() > k {
        assert(items.drop_last().subrange(0, k) =~= items.subrange(0, k));
        lemma_expand_items_prefix_err(sys, items.drop_last(), k, depth);
    } else {
        assert(items.subrange(0, k) =~= items);
    }
}

/// The bindings of a template call whose items (head included) are
/// `items`: each required parameter to its argument, then the rest
/// parameter, if any, to `(list remaining-args...)` spanning `span`, and
/// its spread key to the remaining arguments.
pub(crate) fn bind_template_params(template: &MacroTemplate, items: &Vec<AstNode>, span: Span) -> (r: Vec<(String, AstNode)>)
    requires
        items@.len() >= 1,
        template.params@.required.len() <= items@.len() - 1,
    ensures
        assoc_map(r@) == template_bindings(template.params@, nodes_view(items@).subrange(1, items@.len() as int), span),
{
    proof { lemma_nodes_view(items@); }
    let nargs = items.len() - 1;
    let ghost args = nodes_view(items@).subrange(1, items@.len() as int);
    let ghost p = template.params@;
    let required_count = template.params.required.len();
    let mut bindings: Vec<(String, AstNode)> = Vec::new();
    let mut i: usize = 0;
    proof {
        assert(p.required.subrange(0, 0).len() == 0);
        assert(assoc_map(bindings@) =~= bind_seq(p.required.subrange(0, 0), args));
    }
    while i < required_count
        invariant
            i <= required_count,
            required_count == template.params.required@.len(),
            required_count <= nargs,
            nargs + 1 == items@.len(),
            p == template.params@,
            args == nodes_view(items@).subrange(1, items@.len() as int),
            nodes_view(items@).len() == items@.len(),
            bindings@.len() == i,
            assoc_map(bindings@) == bind_seq(p.required.subrange(0, i as int), args),
        decreases required_count - i,
    {
        proof { lemma_nodes_view(items@); }
        let ghost before = bindings@;
        bindings.push((template.params.required[i].clone(), share(&items[i + 1])));
        proof {
            assert(bindings@.drop_last() =~= before);
            let sub = p.required.subrange(0, i + 1);
            assert(sub.drop_last() =~= p.required.subrange(0, i as int));
            assert(sub.last() == template.params.required@[i as int]@);
            assert(args[i as int] == node_view(items@[i + 1]));
        }
        i = i + 1;
    }
    proof {
        assert(p.required.subrange(0, required_count as int) =~= p.required);
    }
    match &template.params.rest {
        Some(var_name) => {
            let mut list_items: Vec<AstNode> = Vec::new();
            let mut rest_items: Vec<AstNode> = Vec::new();
            list_items.push(make_node(Expr::Symbol("list".to_string(), span), span));
            let mut j: usize = required_count + 1;
            proof {
                assert(items@.subrange(required_count + 1, j as int) =~= Seq::<AstNode>::empty());
            }
            while j < items.len()
                invariant
                    required_count + 1 <= j <= items@.len(),
                    list_items@.len() == j - required_count,
                    list_items@[0]@ == sym_node("list"@, span),
                    list_items@.subrange(1, list_items@.len() as int) == items@.subrange(required_count + 1, j as int),
                    rest_items@ == items@.subrange(required_count + 1, j as int),
                decreases items@.len() - j,
            {
                list_items.push(share(&items[j]));
                rest_items.push(share(&items[j]));
                j = j + 1;
                assert(list_items@.subrange(1, list_items@.len() as int) =~= items@.subrange(required_count + 1, j as int));
                assert(rest_items@ =~= items@.subrange(required_count + 1, j as int));
            }
            proof {
                let tail = items@.subrange(required_count + 1, items@.len() as int);
                assert(list_items@ =~= seq![list_items@[0]] + tail);
                lemma_nodes_view_concat(seq![list_items@[0]], tail);
                crate::ast::lemma_nodes_view_single(list_items@[0]);
                lemma_nodes_view(items@);
                lemma_nodes_view_subrange(items@, required_count + 1, items@.len() as int);
                assert(args.subrange(required_count as int, args.len() as int)
                    =~= nodes_view(items@).subrange(required_count + 1, items@.len() as int));
                assert(nodes_view(list_items@) =~= seq![sym_node("list"@, span)]
                    + args.subrange(required_count as int, args.len() as int));
            }
            let list_node = make_node(Expr::List(list_items, span), span);
            let ghost before = bindings@;
            bindings.push((var_name.clone(), list_node));
            proof {
                assert(bindings@.drop_last() =~= before);
                assert(assoc_map(bindings@) == assoc_map(before).insert(var_name@, node_view(list_node)));
                assert(node_view(list_node) == rest_node(args.subrange(required_count as int, args.len() as int), span));
                lemma_nodes_view_subrange(items@, required_count + 1, items@.len() as int);
                assert(nodes_view(rest_items@) =~= args.subrange(required_count as int, args.len() as int));
            }
            let mut key = String::new();
            push_str(&mut key, "...");
            push_str(&mut key, var_name.as_str());
            let args_node = make_node(Expr::List(rest_items, span), span);
            let ghost mid = bindings@;
            bindings.push((key, args_node));
            proof {
                assert(bindings@.drop_last() =~= mid);
                assert(key@ =~= spread_key(var_name@));
                assert(node_view(args_node) == rest_args_node(args.subrange(required_count as int, args.len() as int), span));
                assert(assoc_map(bindings@) == assoc_map(mid).insert(key@, node_view(args_node)));
                assert(assoc_map(bindings@) =~= template_bindings(p, args, span));
            }
        },
        None => {},
    }
    bindings
}

/// Expands one call of a macro whose definition is `definition`.
fn apply_macro(call: &AstNode, definition: &MacroDefinition) -> (r: Result<AstNode, SutraError>)
    ensures
        match (r, apply_spec(call@, *definition)) {
            (Ok(n), Ok(m)) => n@ == m,
            (Err(e), Err(f)) => e.fault() == f,
            _ => false,
        },
{
    match definition {
        MacroDefinition::Function(b) => expand_builtin(*b, call),
        MacroDefinition::Template(template) => {
            let (items, span) = match &*call.value {
                Expr::List(items, span) => (items, *span),
                _ => {
                    return Err(create_error(ErrorKind::MalformedConstruct { construct: "macro call".to_string() },
                        "macro_expansion", "invalid_call", call.span));
                },
            };
            proof { lemma_nodes_view(items@); }
            if items.len() == 0 {
                return Err(create_error(ErrorKind::EmptyExpression, "macro_expansion", "empty_call", span));
            }
            let nargs = items.len() - 1;
            let ghost args = nodes_view(items@).subrange(1, items@.len() as int);
            let ghost p = template.params@;
            let required_count = template.params.required.len();
            let has_variadic = template.params.rest.is_some();
            proof {
                assert(p.required.len() == required_count);
            }
            if nargs < required_count || (nargs > required_count && !has_variadic) {
                let mut expected = String::new();
                if has_variadic {
                    push_str(&mut expected, "at least ");
                }
                push_decimal(&mut expected, required_count);
                proof {
                    assert(expected@ =~= expected_arity(p));
                }
                let ctx = ValidationContext::new(SourceContext::from_file("macro_expansion", "arity"), "macro_expansion".to_string());
                return Err(ctx.arity_mismatch(expected.as_str(), nargs, call.span));
            }
            let bindings = bind_template_params(template, items, call.span);
            substitute_template(&template.body, &bindings)
        },
    }
}

impl MacroSystem {
    /// Expands every macro call in `ast`, recursively.
    pub fn expand(&self, ast: AstNode) -> (r: Result<AstNode, SutraError>)
        ensures
            match (r, expand_spec(self@, ast@, 0)) {
                (Ok(n), Ok(m)) => n@ == m,
                (Err(e), Err(f)) => e.fault() == f,
                _ => false,
            },
    {
        self.expand_recursive(&ast, 0)
    }

    fn expand_recursive(&self, node: &AstNode, depth: usize) -> (r: Result<AstNode, SutraError>)
        ensures
            match (r, expand_spec(self@, node@, depth as nat)) {
                (Ok(n), Ok(m)) => n@ == m,
                (Err(e), Err(f)) => e.fault() == f,
                _ => false,
            },
        decreases budget(depth as nat), node@, 2int,
    {
        if depth > MAX_RECURSION_DEPTH {
            return Err(create_error(ErrorKind::RecursionLimit, "macro_expansion", "recursion_limit", node.span));
        }
        if let Expr::List(items, _) = &*node.value {
            proof { lemma_nodes_view(items@); }
            if items.len() > 0 {
                if let Expr::Symbol(name, _) = &*items[0].value {
                    match self.get_macro(name.as_str()) {
                        Some(def) => {
                            let expanded = apply_macro(node, def)?;
                            return self.expand_recursive(&expanded, depth + 1);
                        },
                        None => {},
                    }
                }
            }
        }
        self.expand_subforms(node, depth)
    }

    fn expand_subforms(&self, node: &AstNode, depth: usize) -> (r: Result<AstNode, SutraError>)
        requires
            depth <= MAX_RECURSION_DEPTH,
        ensures
            match (r, expand_sub_spec(self@, node@, depth as nat)) {
                (Ok(n), Ok(m)) => n@ == m,
                (Err(e), Err(f)) => e.fault() == f,
                _ => false,
            },
        decreases budget(depth as nat), node@, 1int,
    {
        let ghost sys = self@;
        match &*node.value {
            Expr::List(items, span) => {
                let ghost itv = nodes_view(items@);
                assert(node@.term == Term::List(itv, *span));
                proof { lemma_nodes_view(items@); }
                let mut expanded_items: Vec<AstNode> = Vec::new();
                let mut i: usize = 0;
                proof {
                    assert(items@.subrange(0, 0) =~= Seq::<AstNode>::empty());
                    assert(nodes_view(Seq::<AstNode>::empty()) =~= Seq::<Node>::empty());
                    assert(nodes_view(expanded_items@) =~= Seq::<Node>::empty());
                }
                while i < items.len()
                    invariant
                        i <= items@.len(),
                        depth <= MAX_RECURSION_DEPTH,
                        sys == self@,
                        itv == nodes_view(items@),
                        itv.len() == items@.len(),
                        node@.term == Term::List(itv, *span),
                        expand_items(sys, nodes_view(items@.subrange(0, i as int)), depth as nat)
                            == Ok::<Seq<Node>, Fault>(nodes_view(expanded_items@)),
                    decreases items@.len() - i,
                {
                    proof {
                        lemma_nodes_view(items@);
                        lemma_nodes_view(items@.subrange(0, i + 1));
                        lemma_nodes_view(items@.subrange(0, i as int));
                        assert(nodes_view(items@.subrange(0, i + 1)).drop_last() =~= nodes_view(items@.subrange(0, i as int)));
                        assert(nodes_view(items@.subrange(0, i + 1)).last() == items@[i as int]@);
                        assert(decreases_to!(node@ => itv));
                        assert(decreases_to!(itv => itv[i as int]));
                    }
                    match self.expand_recursive(&items[i], depth) {
                        Ok(x) => {
                            let ghost before = expanded_items@;
                            expanded_items.push(x);
                            proof {
                                lemma_nodes_view(expanded_items@);
                                lemma_nodes_view(before);
                                assert(nodes_view(expanded_items@) =~= nodes_view(before).push(expanded_items@.last()@));
                            }
                        },
                        Err(e) => {
                            proof {
                                lemma_nodes_view_subrange(items@, 0, i + 1);
                                lemma_expand_items_prefix_err(sys, itv, i + 1, depth as nat);
                            }
                            return Err(e);
                        },
                    }
                    i = i + 1;
                }
                proof {
                    assert(items@.subrange(0, items@.len() as int) =~= items@);
                }
                Ok(make_node(Expr::List(expanded_items, *span), node.span))
            },
            Expr::If { condition, then_branch, else_branch, span } => {
                let c = self.expand_recursive(condition, depth)?;
                let t = self.expand_recursive(then_branch, depth)?;
                let e = self.expand_recursive(else_branch, depth)?;
                Ok(make_node(Expr::If {
                    condition: Box::new(c),
                    then_branch: Box::new(t),
                    else_branch: Box::new(e),
                    span: *span,
                }, node.span))
            },
            Expr::Quote(inner, span) => {
                let x = self.expand_recursive(inner, depth)?;
                Ok(make_node(Expr::Quote(Box::new(x), *span), node.span))
            },
            Expr::Spread(inner) => {
                let x = self.expand_recursive(inner, depth)?;
                Ok(make_node(Expr::Spread(Box::new(x)), node.span))
            },
            _ => Ok(share(node)),
        }
    }
}


// ---------------------------------------------------------------------------
// Definitions
// ---------------------------------------------------------------------------

/// All parameter names of a list: the required ones, then the rest name.
pub open spec fn param_names(p: Params) -> Seq<Seq<char>> {
    match p.rest {
        Some(r) => p.required.push(r),
        None => p.required,
    }
}

/// Fails when a parameter name occurs twice.
pub fn check_no_duplicate_params(all_names: &[String]) -> (r: Result<(), SutraError>)
    ensures
        r is Ok <==> crate::ast::strings_view(all_names@).no_duplicates(),
        r matches Err(e) ==> e.fault() == crate::errors::general_fault("Duplicate parameter name"@, crate::errors::unspanned_spec()),
{
    let ghost names = crate::ast::strings_view(all_names@);
    let mut i: usize = 0;
    while i < all_names.len()
        invariant
            i <= all_names@.len(),
            names == crate::ast::strings_view(all_names@),
            names.len() == all_names@.len(),
            forall|a: int, b: int| 0 <= a < b < i ==> names[a] != names[b],
        decreases all_names@.len() - i,
    {
        let mut j: usize = 0;
        while j < i
            invariant
                j <= i < all_names@.len(),
                names == crate::ast::strings_view(all_names@),
                names.len() == all_names@.len(),
                forall|a: int| 0 <= a < j ==> names[a] != names[i as int],
            decreases i - j,
        {
            if str_eq(all_names[j].as_str(), all_names[i].as_str()) {
                proof {
                    assert(names[j as int] == all_names@[j as int]@);
                    assert(names[i as int] == all_names@[i as int]@);
                    assert(names[j as int] == names[i as int]);
                }
                return Err(crate::errors::general_error("Duplicate parameter name", SourceContext::from_file("macro", "parameters"),
                    "validation", crate::errors::unspanned()));
            }
            j = j + 1;
        }
        i = i + 1;
    }
    Ok(())
}

/// Whether `w` is a valid identifier: a name the reader reads back as the
/// symbol `w` (non-empty, without delimiters or dots, and neither a number
/// nor `true` or `false`).
pub open spec fn is_identifier(w: Seq<char>) -> bool {
    &&& w.len() > 0
    &&& forall|i: int| 0 <= i < w.len() ==> !crate::lexer::is_delimiter(#[trigger] w[i]) && w[i] != '.'
    &&& !crate::parser::is_number_text(w)
    &&& w != "true"@
    &&& w != "false"@
}

/// The first of `names` that is not a valid identifier.
pub open spec fn first_invalid(names: Seq<Seq<char>>) -> Option<Seq<char>>
    decreases names.len(),
{
    if names.len() == 0 {
        None
    } else if !is_identifier(names[0]) {
        Some(names[0])
    } else {
        first_invalid(names.drop_first())
    }
}

/// Why the parameter name `name` is refused.
pub open spec fn invalid_param_message(name: Seq<char>) -> Seq<char> {
    "Invalid parameter name '"@ + name + "': not a valid identifier"@
}

/// Whether `s` is a valid identifier.
pub fn is_identifier_exec(s: &str) -> (r: bool)
    ensures
        r == is_identifier(s@),
{
    let cs = crate::text::chars_of(s);
    if cs.len() == 0 {
        return false;
    }
    let mut i: usize = 0;
    while i < cs.len()
        invariant
            i <= cs@.len(),
            cs@ == s@,
            forall|j: int| 0 <= j < i ==> !crate::lexer::is_delimiter(#[trigger] cs@[j]) && cs@[j] != '.',
        decreases cs@.len() - i,
    {
        if crate::lexer::is_delimiter_exec(cs[i]) || cs[i] == '.' {
            return false;
        }
        i = i + 1;
    }
    if crate::parser::is_number_exec(&cs) {
        return false;
    }
    !str_eq(s, "true") && !str_eq(s, "false")
}

/// Fails at the first name that is not a valid identifier.
pub fn check_identifier_params(all_names: &[String]) -> (r: Result<(), SutraError>)
    ensures
        match first_invalid(crate::ast::strings_view(all_names@)) {
            None => r is Ok,
            Some(x) => r matches Err(e)
                && e.fault() == crate::errors::general_fault(invalid_param_message(x), crate::errors::unspanned_spec()),
        },
{
    let ghost names = crate::ast::strings_view(all_names@);
    let mut i: usize = 0;
    proof { assert(names.skip(0) =~= names); }
    while i < all_names.len()
        invariant
            i <= all_names@.len(),
            names == crate::ast::strings_view(all_names@),
            names.len() == all_names@.len(),
            first_invalid(names.skip(i as int)) == first_invalid(names),
        decreases all_names@.len() - i,
    {
        let ghost rest = names.skip(i as int);
        assert(rest[0] == all_names@[i as int]@);
        if !is_identifier_exec(all_names[i].as_str()) {
            let mut msg = String::new();
            push_str(&mut msg, "Invalid parameter name '");
            push_str(&mut msg, all_names[i].as_str());
            push_str(&mut msg, "': not a valid identifier");
            assert(msg@ =~= invalid_param_message(all_names@[i as int]@));
            return Err(crate::errors::general_error(msg.as_str(), SourceContext::fallback("macro parameters"),
                "macro definition", crate::errors::unspanned()));
        }
        assert(rest.drop_first() =~= names.skip(i + 1));
        i = i + 1;
    }
    assert(names.skip(i as int) =~= Seq::<Seq<char>>::empty());
    Ok(())
}

impl MacroTemplate {
    /// A template, provided no parameter name (the rest name included)
    /// occurs twice and every parameter name is a valid identifier.
    pub fn new(params: ParamList, body: Box<AstNode>) -> (r: Result<MacroTemplate, SutraError>)
        ensures
            r is Ok <==> param_names(params@).no_duplicates() && first_invalid(param_names(params@)) is None,
            r matches Ok(t) ==> t.params@ == params@ && t.body == body,
            !param_names(params@).no_duplicates() ==> (r matches Err(e)
                && e.fault() == crate::errors::general_fault("Duplicate parameter name"@, crate::errors::unspanned_spec())),
            param_names(params@).no_duplicates() ==> match first_invalid(param_names(params@)) {
                Some(x) => r matches Err(e)
                    && e.fault() == crate::errors::general_fault(invalid_param_message(x), crate::errors::unspanned_spec()),
                None => r is Ok,
            },
    {
        let mut all_names = crate::ast::copy_strings(&params.required);
        let ghost req = all_names@;
        match &params.rest {
            Some(v) => {
                all_names.push(v.clone());
                proof {
                    assert(crate::ast::strings_view(all_names@) =~= param_names(params@));
                }
            },
            None => {
                proof {
                    assert(crate::ast::strings_view(all_names@) =~= param_names(params@));
                }
            },
        }
        check_no_duplicate_params(all_names.as_slice())?;
        check_identifier_params(all_names.as_slice())?;
        Ok(MacroTemplate { params, body })
    }
}

/// The arity check of a macro call with `args_len` arguments: fails with
/// `at least n` when too few are given, and with `n` when too many are
/// given to a macro without a rest parameter.
pub fn check_arity(args_len: usize, params: &ParamList, _macro_name: &str, span: &Span, source: &SourceContext) -> (r: Result<(), SutraError>)
    ensures
        r is Ok <==> (args_len >= params@.required.len() && (args_len <= params@.required.len() || params@.rest is Some)),
        r matches Err(e) ==> e.fault() == arity_fault(
            if args_len < params@.required.len() { "at least "@ + decimal(params@.required.len()) } else { decimal(params@.required.len()) },
            args_len as nat, *span),
        r matches Err(e) ==> crate::errors::reported(e, source.name@, source.content@, "validation"@),
        r matches Err(e) ==> e.kind matches ErrorKind::ArityMismatch { expected: x, actual: a } && a == args_len
            && x@ == (if args_len < params@.required.len() { "at least "@ + decimal(params@.required.len()) }
                else { decimal(params@.required.len()) }),
{
    let required_len = params.required.len();
    let has_variadic = params.rest.is_some();
    if args_len < required_len {
        let mut expected = String::new();
        push_str(&mut expected, "at least ");
        push_decimal(&mut expected, required_len);
        return Err(arity_error(expected.as_str(), args_len, source.copy(), "validation", *span));
    }
    if args_len > required_len && !has_variadic {
        let expected = crate::text::decimal_string(required_len);
        return Err(arity_error(expected.as_str(), args_len, source.copy(), "validation", *span));
    }
    Ok(())
}

/// Whether a node has the form of a macro definition:
/// `(define (name params...) body)`.
pub open spec fn is_macro_definition_spec(n: Node) -> bool {
    match n.term {
        Term::List(items, _) => items.len() == 3
            && (items[0].term matches Term::Symbol(d, _) && d == "define"@)
            && items[1].term is Params,
        _ => false,
    }
}

/// Whether a node is a macro definition `(define (name params...) body)`.
pub fn is_macro_definition(expr: &AstNode) -> (r: bool)
    ensures
        r == is_macro_definition_spec(expr@),
{
    match &*expr.value {
        Expr::List(items, _) => {
            proof { lemma_nodes_view(items@); }
            if items.len() != 3 {
                return false;
            }
            let head_ok = match &*items[0].value {
                Expr::Symbol(def, _) => str_eq(def.as_str(), "define"),
                _ => false,
            };
            if !head_ok {
                return false;
            }
            match &*items[1].value {
                Expr::ParamList(_) => true,
                _ => false,
            }
        },
        _ => false,
    }
}

/// The name and template a definition `(define (name params...) body)`
/// denotes, or why it is not one.
pub open spec fn macro_definition_spec(n: Node) -> Result<(Seq<char>, Params, Node), Fault> {
    match n.term {
        Term::List(items, s) => if items.len() != 3 {
            Err(arity_fault("3"@, items.len(), s))
        } else {
            match items[0].term {
                Term::Symbol(d, _) => if d != "define"@ {
                    Err(crate::errors::general_fault("Macro definition must start with 'define'"@, items[0].span))
                } else {
                    match items[1].term {
                        Term::Params(pl) => if pl.required.len() == 0 {
                            Err(crate::errors::general_fault("Macro name missing from parameter list"@, items[1].span))
                        } else {
                            let params = Params {
                                required: pl.required.subrange(1, pl.required.len() as int),
                                rest: pl.rest,
                                span: pl.span,
                            };
                            if !param_names(params).no_duplicates() {
                                Err(crate::errors::general_fault("Duplicate parameter name"@, crate::errors::unspanned_spec()))
                            } else if let Some(x) = first_invalid(param_names(params)) {
                                Err(crate::errors::general_fault(invalid_param_message(x), crate::errors::unspanned_spec()))
                            } else {
                                Ok((pl.required[0], params, items[2]))
                            }
                        },
                        _ => Err(type_fault("parameter list"@, type_name_of(items[1].term), items[1].span)),
                    }
                },
                _ => Err(type_fault("symbol"@, type_name_of(items[0].term), items[0].span)),
            }
        },
        _ => Err(crate::errors::general_fault("Macro definition must be a list expression"@, n.span)),
    }
}

fn definition_source() -> (r: SourceContext)
    ensures
        r.name@ == "macro definition"@,
        r.content@ == "define"@,
{
    SourceContext::from_file("macro definition", "define")
}

/// Parses a definition `(define (name params...) body)` into the macro's
/// name and template.
pub fn parse_macro_definition(expr: &AstNode) -> (r: Result<(String, MacroTemplate), SutraError>)
    ensures
        match (r, macro_definition_spec(expr@)) {
            (Ok((name, t)), Ok((n2, p2, b2))) => name@ == n2 && t.params@ == p2 && node_view(*t.body) == b2,
            (Err(e), Err(f)) => e.fault() == f,
            _ => false,
        },
{
    let (items, span) = match &*expr.value {
        Expr::List(items, span) => (items, *span),
        _ => {
            let e = crate::errors::general_error("Macro definition must be a list expression", definition_source(), "macro definition", expr.span);
            return Err(e.with_suggestion("Expected a form like: (define (macro-name ...) body)".to_string()));
        },
    };
    proof { lemma_nodes_view(items@); }
    if items.len() != 3 {
        let e = arity_error("3", items.len(), definition_source(), "macro definition", span);
        return Err(e.with_suggestion("A macro definition must have 3 parts: define keyword, parameter list, and body.".to_string()));
    }
    match &*items[0].value {
        Expr::Symbol(s, _) => {
            if !str_eq(s.as_str(), "define") {
                return Err(crate::errors::general_error("Macro definition must start with 'define'", definition_source(), "macro definition", items[0].span));
            }
        },
        _ => {
            return Err(type_error("symbol", items[0].type_label(), definition_source(), "macro definition", items[0].span));
        },
    }
    let param_list = match &*items[1].value {
        Expr::ParamList(pl) => pl,
        _ => {
            return Err(type_error("parameter list", items[1].type_label(), definition_source(), "macro definition", items[1].span));
        },
    };
    if param_list.required.len() == 0 {
        return Err(crate::errors::general_error("Macro name missing from parameter list", definition_source(), "macro definition", items[1].span));
    }
    let macro_name = param_list.required[0].clone();
    let mut rest_required: Vec<String> = Vec::new();
    let mut i: usize = 1;
    while i < param_list.required.len()
        invariant
            1 <= i <= param_list.required@.len(),
            rest_required@ == param_list.required@.subrange(1, i as int),
        decreases param_list.required@.len() - i,
    {
        rest_required.push(param_list.required[i].clone());
        i = i + 1;
        assert(rest_required@ =~= param_list.required@.subrange(1, i as int));
    }
    let rest = match &param_list.rest {
        Some(r) => Some(r.clone()),
        None => None,
    };
    let params = ParamList { required: rest_required, rest, span: param_list.span };
    proof {
        assert(params@.required =~= param_list@.required.subrange(1, param_list@.required.len() as int));
    }
    let template = MacroTemplate::new(params, Box::new(share(&items[2])))?;
    Ok((macro_name, template))
}

/// Reads a definition `(define (name params...) body)` as it appears among
/// the forms of a macro source: forms of another shape are not definitions
/// (`None`); a definition without a name is an error.
pub open spec fn definition_internal_spec(n: Node) -> Result<Option<(Seq<char>, Params, Node)>, Fault> {
    match n.term {
        Term::List(items, _) => if items.len() != 3 {
            Ok(None)
        } else {
            match items[0].term {
                Term::Symbol(d, _) => if d != "define"@ {
                    Ok(None)
                } else {
                    match items[1].term {
                        Term::Params(pl) => if pl.required.len() == 0 {
                            Err(missing_fault("macro name"@, items[1].span))
                        } else {
                            Ok(Some((pl.required[0], Params {
                                required: pl.required.subrange(1, pl.required.len() as int),
                                rest: pl.rest,
                                span: pl.span,
                            }, items[2])))
                        },
                        _ => Ok(None),
                    }
                },
                _ => Ok(None),
            }
        },
        _ => Ok(None),
    }
}

/// Reads a macro definition among the forms of a macro source.
pub fn parse_macro_definition_internal(expr: &AstNode) -> (r: Result<Option<(String, MacroDefinition)>, SutraError>)
    ensures
        match (r, definition_internal_spec(expr@)) {
            (Ok(None), Ok(None)) => true,
            (Ok(Some((name, MacroDefinition::Template(t)))), Ok(Some((n2, p2, b2)))) =>
                name@ == n2 && t.params@ == p2 && node_view(*t.body) == b2,
            (Err(e), Err(f)) => e.fault() == f,
            _ => false,
        },
{
    let items = match &*expr.value {
        Expr::List(items, _) => items,
        _ => { return Ok(None); },
    };
    proof { lemma_nodes_view(items@); }
    if items.len() != MACRO_DEFINITION_ARITY {
        return Ok(None);
    }
    match &*items[0].value {
        Expr::Symbol(def_name, _) => {
            if !str_eq(def_name.as_str(), "define") {
                return Ok(None);
            }
        },
        _ => { return Ok(None); },
    }
    let param_list = match &*items[1].value {
        Expr::ParamList(pl) => pl,
        _ => { return Ok(None); },
    };
    if param_list.required.len() == 0 {
        return Err(create_error(ErrorKind::MissingElement { element: "macro name".to_string() },
            "macro_definition", "empty_params", items[1].span));
    }
    let macro_name = param_list.required[0].clone();
    let mut params: Vec<String> = Vec::new();
    let mut i: usize = 1;
    while i < param_list.required.len()
        invariant
            1 <= i <= param_list.required@.len(),
            params@ == param_list.required@.subrange(1, i as int),
        decreases param_list.required@.len() - i,
    {
        params.push(param_list.required[i].clone());
        i = i + 1;
        assert(params@ =~= param_list.required@.subrange(1, i as int));
    }
    let variadic = match &param_list.rest {
        Some(r) => Some(r.clone()),
        None => None,
    };
    let template = MacroTemplate {
        params: ParamList { required: params, rest: variadic, span: param_list.span },
        body: Box::new(share(&items[2])),
    };
    proof {
        assert(template.params@.required =~= param_list@.required.subrange(1, param_list@.required.len() as int));
    }
    Ok(Some((macro_name, MacroDefinition::Template(template))))
}

} // verus!
