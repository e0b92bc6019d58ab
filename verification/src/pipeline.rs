//! The front half of the pipeline: a parsed program's macro definitions
//! are separated from its code, registered as user macros, and the code,
//! wrapped in `(do ...)` when needed, is expanded.
use vstd::prelude::*;
use crate::span::Span;
use crate::ast::{AstNode, Expr, Node, Term, Params, node_view, nodes_view, lemma_nodes_view, lemma_nodes_view_concat,
    lemma_nodes_view_single, make_node, share};
use crate::errors::{SutraError, SourceContext, Fault, general_fault, general_error, unspanned_spec, unspanned};
use crate::macros::{MacroSystem, MacroDefinition, MacroTemplate, is_macro_definition_spec, is_macro_definition,
    macro_definition_spec, parse_macro_definition};
use crate::loader::{defs_view, def_view, strings_view_of, contains_name, registered, last_def};
use crate::expander::{MacroEnv, traced_spec, steps_view, node_result_matches, expand_macros_recursively};
use crate::std_macros::sym_node;
use crate::text::push_str;
use vstd::string::StringSliceAdditionalSpecFns;

verus! {

/// The macro definitions among `ns`, in order.
pub open spec fn defs_of(ns: Seq<Node>) -> Seq<Node>
    decreases ns.len(),
{
    if ns.len() == 0 {
        Seq::empty()
    } else if is_macro_definition_spec(ns.last()) {
        defs_of(ns.drop_last()).push(ns.last())
    } else {
        defs_of(ns.drop_last())
    }
}

/// The forms of `ns` that are not macro definitions, in order.
pub open spec fn code_of(ns: Seq<Node>) -> Seq<Node>
    decreases ns.len(),
{
    if ns.len() == 0 {
        Seq::empty()
    } else if is_macro_definition_spec(ns.last()) {
        code_of(ns.drop_last())
    } else {
        code_of(ns.drop_last()).push(ns.last())
    }
}

/// The message for a second user macro named `name`.
pub open spec fn duplicate_name_message(name: Seq<char>) -> Seq<char> {
    "Duplicate macro name '"@ + name + "'"@
}

/// The user macros the definitions `defs` give, in order, given the names
/// `seen` already defined: a malformed definition or a repeated name fails.
pub open spec fn user_defs(defs: Seq<Node>, seen: Seq<Seq<char>>) -> Result<Seq<(Seq<char>, Params, Node)>, Fault>
    decreases defs.len(),
{
    if defs.len() == 0 {
        Ok(Seq::empty())
    } else {
        match macro_definition_spec(defs[0]) {
            Err(f) => Err(f),
            Ok((name, p, b)) => if seen.contains(name) {
                Err(general_fault(duplicate_name_message(name), unspanned_spec()))
            } else {
                match user_defs(defs.drop_first(), seen.push(name)) {
                    Ok(ds) => Ok(seq![(name, p, b)] + ds),
                    Err(f) => Err(f),
                }
            },
        }
    }
}

/// The program node of the code `ns` of a source with `source_len` bytes:
/// a single form as it is, else `(do ...)` spanning the whole source.
pub open spec fn program_spec(ns: Seq<Node>, source_len: nat) -> Node {
    if ns.len() == 1 {
        ns[0]
    } else {
        let sp = Span { start: 0, end: source_len as usize };
        Node { term: Term::List(seq![sym_node("do"@, sp)] + ns, sp), span: sp }
    }
}

fn split_program(ast_nodes: &Vec<AstNode>) -> (r: (Vec<AstNode>, Vec<AstNode>))
    ensures
        nodes_view(r.0@) == defs_of(nodes_view(ast_nodes@)),
        nodes_view(r.1@) == code_of(nodes_view(ast_nodes@)),
{
    let ghost ns = nodes_view(ast_nodes@);
    proof { lemma_nodes_view(ast_nodes@); }
    let mut defs: Vec<AstNode> = Vec::new();
    let mut code: Vec<AstNode> = Vec::new();
    let mut i: usize = 0;
    proof {
        assert(ns.take(0) =~= Seq::<Node>::empty());
        assert(nodes_view(defs@) =~= Seq::<Node>::empty());
        assert(nodes_view(code@) =~= Seq::<Node>::empty());
    }
    while i < ast_nodes.len()
        invariant
            i <= ast_nodes@.len(),
            ns == nodes_view(ast_nodes@),
            ns.len() == ast_nodes@.len(),
            forall|j: int| 0 <= j < ast_nodes@.len() ==> #[trigger] ns[j] == node_view(ast_nodes@[j]),
            nodes_view(defs@) == defs_of(ns.take(i as int)),
            nodes_view(code@) == code_of(ns.take(i as int)),
        decreases ast_nodes@.len() - i,
    {
        proof {
            assert(ns.take(i + 1).drop_last() =~= ns.take(i as int));
            assert(ns.take(i + 1).last() == ns[i as int]);
        }
        let n = share(&ast_nodes[i]);
        if is_macro_definition(&n) {
            let ghost before = defs@;
            defs.push(n);
            assert(defs@.drop_last() =~= before);
        } else {
            let ghost before = code@;
            code.push(n);
            assert(code@.drop_last() =~= before);
        }
        i = i + 1;
    }
    assert(ns.take(i as int) =~= ns);
    (defs, code)
}

fn collect_user_macros(ast_nodes: Vec<AstNode>) -> (r: Result<(Vec<(String, MacroTemplate)>, Vec<AstNode>), SutraError>)
    ensures
        match user_defs(defs_of(nodes_view(ast_nodes@)), Seq::empty()) {
            Ok(ds) => r matches Ok((v, code)) && defs_view(v@) == ds && nodes_view(code@) == code_of(nodes_view(ast_nodes@)),
            Err(f) => r matches Err(e) && e.fault() == f,
        },
{
    let (defs, code) = split_program(&ast_nodes);
    let ghost dv = nodes_view(defs@);
    proof { lemma_nodes_view(defs@); }
    let mut macros: Vec<(String, MacroTemplate)> = Vec::new();
    let mut seen: Vec<String> = Vec::new();
    let mut i: usize = 0;
    proof {
        assert(dv.skip(0) =~= dv);
        assert(defs_view(macros@) =~= Seq::<(Seq<char>, Params, Node)>::empty());
        assert(strings_view_of(seen@) =~= Seq::<Seq<char>>::empty());
        if let Ok(ds) = user_defs(dv, Seq::empty()) {
            assert(Seq::<(Seq<char>, Params, Node)>::empty() + ds =~= ds);
        }
    }
    while i < defs.len()
        invariant
            i <= defs@.len(),
            dv == nodes_view(defs@),
            dv == defs_of(nodes_view(ast_nodes@)),
            nodes_view(code@) == code_of(nodes_view(ast_nodes@)),
            dv.len() == defs@.len(),
            forall|j: int| 0 <= j < defs@.len() ==> #[trigger] dv[j] == node_view(defs@[j]),
            match user_defs(dv.skip(i as int), strings_view_of(seen@)) {
                Ok(ds) => user_defs(dv, Seq::empty()) == Ok::<Seq<(Seq<char>, Params, Node)>, Fault>(defs_view(macros@) + ds),
                Err(f) => user_defs(dv, Seq::empty()) == Err::<Seq<(Seq<char>, Params, Node)>, Fault>(f),
            },
        decreases defs@.len() - i,
    {
        let ghost rest = dv.skip(i as int);
        proof {
            assert(rest[0] == dv[i as int]);
            assert(rest.drop_first() =~= dv.skip(i + 1));
        }
        match parse_macro_definition(&defs[i]) {
            Err(e) => {
                return Err(e);
            },
            Ok((name, template)) => {
                if contains_name(&seen, name.as_str()) {
                    let mut msg = String::new();
                    push_str(&mut msg, "Duplicate macro name '");
                    push_str(&mut msg, name.as_str());
                    push_str(&mut msg, "'");
                    assert(msg@ == duplicate_name_message(name@));
                    return Err(general_error(msg.as_str(), SourceContext::fallback("macro definitions"), "validation",
                        unspanned()));
                }
                let ghost d = (name@, template.params@, node_view(*template.body));
                let ghost before = macros@;
                let ghost seen_before = seen@;
                seen.push(name.clone());
                macros.push((name, template));
                proof {
                    assert(defs_view(macros@) =~= defs_view(before).push(d));
                    assert(strings_view_of(seen@) =~= strings_view_of(seen_before).push(d.0));
                    if let Ok(ds) = user_defs(dv.skip(i + 1), strings_view_of(seen@)) {
                        assert(defs_view(before).push(d) + ds =~= defs_view(before) + (seq![d] + ds));
                    }
                }
            },
        }
        i = i + 1;
    }
    proof {
        assert(dv.skip(i as int) =~= Seq::<Node>::empty());
        assert(defs_view(macros@) + Seq::<(Seq<char>, Params, Node)>::empty() =~= defs_view(macros@));
    }
    Ok((macros, code))
}

fn register_all(sys: &mut MacroSystem, defs: Vec<(String, MacroTemplate)>)
    ensures
        registered(old(sys)@, final(sys)@, defs_view(defs@)),
{
    let ghost start = sys@;
    let ghost all = defs_view(defs@);
    let mut remaining = defs;
    let ghost mut done: Seq<(Seq<char>, Params, Node)> = Seq::empty();
    proof {
        assert(all.skip(0) =~= all);
        assert(done + all =~= all);
    }
    while remaining.len() > 0
        invariant
            defs_view(remaining@) == all.skip(done.len() as int),
            done + all.skip(done.len() as int) == all,
            done.len() <= all.len(),
            registered(start, sys@, done),
        decreases remaining@.len(),
    {
        let ghost rv = defs_view(remaining@);
        let (name, template) = remaining.remove(0);
        let ghost d = (name@, template.params@, node_view(*template.body));
        proof {
            assert(rv[0] == d);
            assert(defs_view(remaining@) =~= rv.drop_first());
            assert(all.skip(done.len() as int).drop_first() =~= all.skip(done.len() as int + 1));
        }
        sys.register(name, MacroDefinition::Template(template));
        proof {
            assert(done.push(d).drop_last() =~= done);
            assert forall|k: Seq<char>| #[trigger] sys@.contains_key(k) <==> (start.contains_key(k) || last_def(done.push(d), k) is Some) by {
            }
            assert forall|k: Seq<char>| #[trigger] sys@.contains_key(k) implies match last_def(done.push(d), k) {
                Some((p, b)) => sys@[k] matches MacroDefinition::Template(t) && t.params@ == p && node_view(*t.body) == b,
                None => sys@[k] == start[k],
            } by {
            }
            assert(done.push(d) + all.skip(done.len() as int + 1) =~= done + all.skip(done.len() as int));
            done = done.push(d);
        }
    }
    proof {
        assert(done =~= all);
    }
}

/// Separates a program's macro definitions from its code and registers the
/// definitions as user macros: a malformed definition, or two definitions
/// of one name, fail.
pub fn partition_and_build_user_macros(ast_nodes: Vec<AstNode>) -> (r: Result<(MacroSystem, Vec<AstNode>), SutraError>)
    ensures
        match user_defs(defs_of(nodes_view(ast_nodes@)), Seq::empty()) {
            Ok(ds) => r matches Ok((sys, code)) && registered(Map::empty(), sys@, ds)
                && nodes_view(code@) == code_of(nodes_view(ast_nodes@)),
            Err(f) => r matches Err(e) && e.fault() == f,
        },
{
    match collect_user_macros(ast_nodes) {
        Err(e) => Err(e),
        Ok((defs, code)) => {
            let mut sys = MacroSystem::new();
            register_all(&mut sys, defs);
            Ok((sys, code))
        },
    }
}

/// `(do ...)` around the forms `ast_nodes`, spanning the whole source.
pub fn create_do_wrapper(ast_nodes: Vec<AstNode>, source: &str) -> (r: AstNode)
    ensures
        node_view(r) == ({
            let sp = Span { start: 0, end: source.spec_bytes().len() as usize };
            Node { term: Term::List(seq![sym_node("do"@, sp)] + nodes_view(ast_nodes@), sp), span: sp }
        }),
{
    let span = Span { start: 0, end: source.len() };
    let do_symbol = make_node(Expr::Symbol("do".to_string(), span), span);
    let ghost before = ast_nodes@;
    let mut items = ast_nodes;
    items.insert(0, do_symbol);
    proof {
        assert(items@ =~= seq![do_symbol] + before);
        lemma_nodes_view_concat(seq![do_symbol], before);
        lemma_nodes_view_single(do_symbol);
    }
    make_node(Expr::List(items, span), span)
}

/// The program node of the code `ast_nodes`: a single form as it is, else
/// `(do ...)` spanning the whole source.
pub fn wrap_in_do_if_needed(ast_nodes: Vec<AstNode>, source: &str) -> (r: AstNode)
    ensures
        node_view(r) == program_spec(nodes_view(ast_nodes@), source.spec_bytes().len()),
{
    proof { lemma_nodes_view(ast_nodes@); }
    if ast_nodes.len() == 1 {
        let mut nodes = ast_nodes;
        let ghost v = nodes@;
        let r = nodes.pop().unwrap();
        assert(r == v[0]);
        return r;
    }
    create_do_wrapper(ast_nodes, source)
}

/// Registers a program's macro definitions as user macros of `env` and
/// expands the rest of the program, wrapped in `(do ...)` when needed. A
/// bad definition fails before anything is registered.
pub fn build_macro_environment_and_expand(ast_nodes: Vec<AstNode>, source: &str, env: &mut MacroEnv) -> (r: Result<AstNode, SutraError>)
    ensures
        final(env).core_macros@ == old(env).core_macros@,
        final(env).source == old(env).source,
        match user_defs(defs_of(nodes_view(ast_nodes@)), Seq::empty()) {
            Err(f) => r matches Err(e) && e.fault() == f && final(env).user_macros@ == old(env).user_macros@
                && final(env).trace@ == old(env).trace@,
            Ok(ds) => {
                let program = program_spec(code_of(nodes_view(ast_nodes@)), source.spec_bytes().len());
                &&& registered(old(env).user_macros@, final(env).user_macros@, ds)
                &&& node_result_matches(r, traced_spec(final(env).user_macros@, old(env).core_macros@, program, 0).0)
                &&& steps_view(final(env).trace@) == steps_view(old(env).trace@)
                    + traced_spec(final(env).user_macros@, old(env).core_macros@, program, 0).1
            },
        },
{
    let (defs, code) = match collect_user_macros(ast_nodes) {
        Err(e) => {
            return Err(e);
        },
        Ok(x) => x,
    };
    register_all(&mut env.user_macros, defs);
    let program = wrap_in_do_if_needed(code, source);
    expand_macros_recursively(program, env)
}

} // verus!
