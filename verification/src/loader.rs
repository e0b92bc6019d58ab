//! Loading macro definitions from Sutra source text.
use vstd::prelude::*;
use crate::ast::{AstNode, Node, Params, node_view, nodes_view, lemma_nodes_view};
use crate::errors::{SourceContext, SutraError, Fault, general_fault, general_error};
use crate::macros::{MacroTemplate, MacroDefinition, MacroSystem, is_macro_definition_spec, is_macro_definition,
    macro_definition_spec, parse_macro_definition, definition_internal_spec, parse_macro_definition_internal};
use crate::parser::{parse, parse_spec, parse_error_at, is_parse_error};
use crate::text::{chars_of, push_char, push_str, str_eq, is_white_space, trim_start_spec, char_is_whitespace};

verus! {

// ---------------------------------------------------------------------------
// Comment lines
// ---------------------------------------------------------------------------

/// `l` without one trailing carriage return.
pub open spec fn strip_cr(l: Seq<char>) -> Seq<char> {
    if l.len() > 0 && l.last() == '\r' { l.drop_last() } else { l }
}

/// The lines of `s` (`str::lines`), reading on with the unfinished line
/// `cur` after the complete lines `acc`: lines end at `\n` (and a `\r`
/// just before it is dropped); a final empty line is not a line.
pub open spec fn lines_from(s: Seq<char>, cur: Seq<char>, acc: Seq<Seq<char>>) -> Seq<Seq<char>>
    decreases s.len(),
{
    if s.len() == 0 {
        if cur.len() == 0 { acc } else { acc.push(cur) }
    } else if s[0] == '\n' {
        lines_from(s.drop_first(), Seq::empty(), acc.push(strip_cr(cur)))
    } else {
        lines_from(s.drop_first(), cur.push(s[0]), acc)
    }
}

/// The lines of `s`.
pub open spec fn lines_spec(s: Seq<char>) -> Seq<Seq<char>> {
    lines_from(s, Seq::empty(), Seq::empty())
}

/// A comment line: `;;` after optional leading white space.
pub open spec fn is_comment_line(l: Seq<char>) -> bool {
    let t = trim_start_spec(l);
    t.len() >= 2 && t[0] == ';' && t[1] == ';'
}

/// The lines that are not comment lines, in order.
pub open spec fn kept_lines(ls: Seq<Seq<char>>) -> Seq<Seq<char>>
    decreases ls.len(),
{
    if ls.len() == 0 {
        Seq::empty()
    } else if is_comment_line(ls.last()) {
        kept_lines(ls.drop_last())
    } else {
        kept_lines(ls.drop_last()).push(ls.last())
    }
}

/// Lines joined with `\n` between them.
pub open spec fn join_lines(ls: Seq<Seq<char>>) -> Seq<char>
    decreases ls.len(),
{
    if ls.len() == 0 {
        Seq::empty()
    } else if ls.len() == 1 {
        ls[0]
    } else {
        join_lines(ls.drop_last()) + seq!['\n'] + ls.last()
    }
}

/// `s` without its comment lines.
pub open spec fn without_comment_lines(s: Seq<char>) -> Seq<char> {
    join_lines(kept_lines(lines_spec(s)))
}

fn is_comment_line_exec(l: &Vec<char>) -> (r: bool)
    ensures
        r == is_comment_line(l@),
{
    let mut a: usize = 0;
    assert(l@.skip(0) =~= l@);
    while a < l.len() && char_is_whitespace(l[a])
        invariant
            a <= l@.len(),
            trim_start_spec(l@.skip(a as int)) == trim_start_spec(l@),
        decreases l@.len() - a,
    {
        assert(l@.skip(a as int).drop_first() =~= l@.skip(a + 1));
        assert(l@.skip(a as int)[0] == l@[a as int]);
        a = a + 1;
    }
    let ghost rest = l@.skip(a as int);
    assert(rest.len() > 0 ==> rest[0] == l@[a as int]);
    assert(trim_start_spec(rest) == rest);
    l.len() - a >= 2 && l[a] == ';' && l[a + 1] == ';'
}

proof fn lemma_join_push(ls: Seq<Seq<char>>, l: Seq<char>)
    ensures
        join_lines(ls.push(l)) == if ls.len() == 0 { l } else { join_lines(ls) + seq!['\n'] + l },
{
    assert(ls.push(l).drop_last() =~= ls);
    if ls.len() == 0 {
        assert(ls.push(l)[0] == l);
    }
}

proof fn lemma_kept_push(ls: Seq<Seq<char>>, l: Seq<char>)
    ensures
        kept_lines(ls.push(l)) == if is_comment_line(l) { kept_lines(ls) } else { kept_lines(ls).push(l) },
{
    assert(ls.push(l).drop_last() =~= ls);
}

/// `source` without its comment lines (those that start with `;;` after
/// optional white space), the other lines joined by `\n`.
pub fn filter_comment_lines(source: &str) -> (r: String)
    ensures
        r@ == without_comment_lines(source@),
{
    let cs = chars_of(source);
    let mut out = String::new();
    let mut kept: usize = 0;
    let mut cur: Vec<char> = Vec::new();
    let ghost mut acc: Seq<Seq<char>> = Seq::empty();
    let mut i: usize = 0;
    assert(cs@.skip(0) =~= cs@);
    while i < cs.len()
        invariant
            i <= cs@.len(),
            cs@ == source@,
            lines_from(cs@.skip(i as int), cur@, acc) == lines_spec(source@),
            out@ == join_lines(kept_lines(acc)),
            kept == 0 <==> kept_lines(acc).len() == 0,
        decreases cs@.len() - i,
    {
        let c = cs[i];
        assert(cs@.skip(i as int).drop_first() =~= cs@.skip(i + 1));
        if c == '\n' {
            let mut line = cur;
            if line.len() > 0 && line[line.len() - 1] == '\r' {
                line.pop();
            }
            assert(line@ == strip_cr(cur@)) by {
                if cur@.len() > 0 && cur@.last() == '\r' {
                    assert(line@ =~= cur@.drop_last());
                }
            }
            proof { lemma_kept_push(acc, line@); }
            if !is_comment_line_exec(&line) {
                proof { lemma_join_push(kept_lines(acc), line@); }
                if kept > 0 {
                    push_char(&mut out, '\n');
                }
                let mut j: usize = 0;
                let ghost base = out@;
                while j < line.len()
                    invariant
                        j <= line@.len(),
                        out@ == base + line@.subrange(0, j as int),
                    decreases line@.len() - j,
                {
                    push_char(&mut out, line[j]);
                    j = j + 1;
                    assert(out@ =~= base + line@.subrange(0, j as int));
                }
                assert(line@.subrange(0, line@.len() as int) =~= line@);
                kept = 1;
            }
            proof { acc = acc.push(line@); }
            cur = Vec::new();
            assert(cur@ =~= Seq::<char>::empty());
        } else {
            cur.push(c);
        }
        i = i + 1;
    }
    assert(cs@.skip(i as int) =~= Seq::<char>::empty());
    if cur.len() > 0 {
        proof {
            lemma_kept_push(acc, cur@);
        }
        if !is_comment_line_exec(&cur) {
            proof { lemma_join_push(kept_lines(acc), cur@); }
            if kept > 0 {
                push_char(&mut out, '\n');
            }
            let mut j: usize = 0;
            let ghost base = out@;
            while j < cur.len()
                invariant
                    j <= cur@.len(),
                    out@ == base + cur@.subrange(0, j as int),
                decreases cur@.len() - j,
            {
                push_char(&mut out, cur[j]);
                j = j + 1;
                assert(out@ =~= base + cur@.subrange(0, j as int));
            }
            assert(cur@.subrange(0, cur@.len() as int) =~= cur@);
        }
    }
    out
}

// ---------------------------------------------------------------------------
// Macro sources
// ---------------------------------------------------------------------------

/// The model of a macro read from source: its name, parameters and body.
pub open spec fn def_view(d: (String, MacroTemplate)) -> (Seq<char>, Params, Node) {
    (d.0@, d.1.params@, node_view(*d.1.body))
}

/// The models of read macros, in order.
pub open spec fn defs_view(v: Seq<(String, MacroTemplate)>) -> Seq<(Seq<char>, Params, Node)> {
    v.map_values(|d: (String, MacroTemplate)| def_view(d))
}

/// The message for a second definition of `name` in one source.
pub open spec fn duplicate_message(name: Seq<char>) -> Seq<char> {
    "duplicate macro definition for '"@ + name + "'"@
}

/// The definitions among the forms `ns`, in order, given the names `seen`
/// already defined: forms that are not definitions are skipped; a malformed
/// definition or a second definition of a name is an error.
pub open spec fn defs_from(ns: Seq<Node>, seen: Seq<Seq<char>>) -> Result<Seq<(Seq<char>, Params, Node)>, Fault>
    decreases ns.len(),
{
    if ns.len() == 0 {
        Ok(Seq::empty())
    } else if !is_macro_definition_spec(ns[0]) {
        defs_from(ns.drop_first(), seen)
    } else {
        match macro_definition_spec(ns[0]) {
            Err(f) => Err(f),
            Ok((name, p, b)) => if seen.contains(name) {
                Err(general_fault(duplicate_message(name), ns[0].span))
            } else {
                match defs_from(ns.drop_first(), seen.push(name)) {
                    Ok(ds) => Ok(seq![(name, p, b)] + ds),
                    Err(f) => Err(f),
                }
            },
        }
    }
}

pub open spec fn cons_defs(a: Seq<(Seq<char>, Params, Node)>, r: Result<Seq<(Seq<char>, Params, Node)>, Fault>)
    -> Result<Seq<(Seq<char>, Params, Node)>, Fault> {
    match r {
        Ok(ds) => Ok(a + ds),
        Err(f) => Err(f),
    }
}

pub(crate) fn contains_name(seen: &Vec<String>, name: &str) -> (r: bool)
    ensures
        r == strings_view_of(seen@).contains(name@),
{
    let mut i: usize = 0;
    while i < seen.len()
        invariant
            i <= seen@.len(),
            forall|j: int| 0 <= j < i ==> seen@[j]@ != name@,
        decreases seen@.len() - i,
    {
        if str_eq(seen[i].as_str(), name) {
            assert(strings_view_of(seen@)[i as int] == name@);
            return true;
        }
        i = i + 1;
    }
    assert forall|j: int| 0 <= j < strings_view_of(seen@).len() implies strings_view_of(seen@)[j] != name@ by {
        assert(strings_view_of(seen@)[j] == seen@[j]@);
    }
    false
}

/// The characters of each string.
pub open spec fn strings_view_of(v: Seq<String>) -> Seq<Seq<char>> {
    v.map_values(|s: String| s@)
}

/// Reads the macro definitions `(define (name params...) body)` of a
/// source text, after dropping its comment lines. Other forms are skipped.
/// A parse error, a malformed definition or a name defined twice fails.
pub fn parse_macros_from_source(source: &str) -> (r: Result<Vec<(String, MacroTemplate)>, SutraError>)
    ensures
        match parse_spec(without_comment_lines(source@)) {
            Err(f) => r matches Err(e) && parse_error_at(e, f, "macro source"@, without_comment_lines(source@)),
            Ok(ns) => match defs_from(ns, Seq::empty()) {
                Ok(ds) => r matches Ok(v) && defs_view(v@) == ds,
                Err(f) => r matches Err(e) && e.fault() == f,
            },
        },
{
    let filtered = filter_comment_lines(source);
    let ctx = SourceContext::from_file("macro source", filtered.as_str());
    let exprs = match parse(filtered.as_str(), ctx) {
        Ok(v) => v,
        Err(e) => {
            return Err(e);
        },
    };
    let ghost ns = nodes_view(exprs@);
    proof { lemma_nodes_view(exprs@); }
    let mut macros: Vec<(String, MacroTemplate)> = Vec::new();
    let mut seen: Vec<String> = Vec::new();
    let mut i: usize = 0;
    proof {
        assert(ns.skip(0) =~= ns);
        assert(defs_view(macros@) =~= Seq::<(Seq<char>, Params, Node)>::empty());
        assert(strings_view_of(seen@) =~= Seq::<Seq<char>>::empty());
        if let Ok(ds) = defs_from(ns, Seq::empty()) {
            assert(Seq::<(Seq<char>, Params, Node)>::empty() + ds =~= ds);
        }
    }
    while i < exprs.len()
        invariant
            i <= exprs@.len(),
            ns == nodes_view(exprs@),
            ns.len() == exprs@.len(),
            forall|j: int| 0 <= j < exprs@.len() ==> #[trigger] ns[j] == node_view(exprs@[j]),
            cons_defs(defs_view(macros@), defs_from(ns.skip(i as int), strings_view_of(seen@))) == defs_from(ns, Seq::empty()),
            parse_spec(without_comment_lines(source@)) == Ok::<Seq<Node>, crate::parser::ParseFault>(ns),
        decreases exprs@.len() - i,
    {
        let ghost rest = ns.skip(i as int);
        proof {
            assert(rest[0] == ns[i as int]);
            assert(rest.drop_first() =~= ns.skip(i + 1));
        }
        if is_macro_definition(&exprs[i]) {
            match parse_macro_definition(&exprs[i]) {
                Err(e) => {
                    assert(macro_definition_spec(rest[0]) == Err::<(Seq<char>, Params, Node), Fault>(e.fault()));
                    assert(defs_from(rest, strings_view_of(seen@)) == Err::<Seq<(Seq<char>, Params, Node)>, Fault>(e.fault()));
                    return Err(e);
                },
                Ok((name, template)) => {
                    if contains_name(&seen, name.as_str()) {
                        let mut msg = String::new();
                        push_str(&mut msg, "duplicate macro definition for '");
                        push_str(&mut msg, name.as_str());
                        push_str(&mut msg, "'");
                        let e = general_error(msg.as_str(), SourceContext::from_file(name.as_str(), "define"),
                            "duplicate macro", exprs[i].span);
                        assert(msg@ == duplicate_message(name@));
                        assert(defs_from(rest, strings_view_of(seen@)) == Err::<Seq<(Seq<char>, Params, Node)>, Fault>(e.fault()));
                        return Err(e.with_suggestion("Ensure all macro names within a file are unique.".to_string()));
                    }
                    let ghost d = (name@, template.params@, node_view(*template.body));
                    let ghost before = macros@;
                    let ghost seen_before = seen@;
                    seen.push(name.clone());
                    macros.push((name, template));
                    proof {
                        assert(defs_view(macros@) =~= defs_view(before).push(d));
                        assert(strings_view_of(seen@) =~= strings_view_of(seen_before).push(d.0));
                        if let Ok(ds) = defs_from(ns.skip(i + 1), strings_view_of(seen@)) {
                            assert(defs_view(before).push(d) + ds =~= defs_view(before) + (seq![d] + ds));
                        }
                    }
                },
            }
        }
        i = i + 1;
    }
    proof {
        assert(ns.skip(i as int) =~= Seq::<Node>::empty());
        assert(defs_view(macros@) + Seq::<(Seq<char>, Params, Node)>::empty() =~= defs_view(macros@));
    }
    Ok(macros)
}

// ---------------------------------------------------------------------------
// Loading into a macro system
// ---------------------------------------------------------------------------

/// The definitions among the forms `ns` of a macro source, in order, up to
/// the first malformed one, and the failure of that one.
pub open spec fn internal_defs(ns: Seq<Node>) -> (Seq<(Seq<char>, Params, Node)>, Option<Fault>)
    decreases ns.len(),
{
    if ns.len() == 0 {
        (Seq::empty(), None)
    } else {
        match definition_internal_spec(ns[0]) {
            Err(f) => (Seq::empty(), Some(f)),
            Ok(None) => internal_defs(ns.drop_first()),
            Ok(Some(d)) => {
                let (ds, f) = internal_defs(ns.drop_first());
                (seq![d] + ds, f)
            },
        }
    }
}

/// The last of `defs` named `k`: its parameters and body.
pub open spec fn last_def(defs: Seq<(Seq<char>, Params, Node)>, k: Seq<char>) -> Option<(Params, Node)>
    decreases defs.len(),
{
    if defs.len() == 0 {
        None
    } else if defs.last().0 == k {
        Some((defs.last().1, defs.last().2))
    } else {
        last_def(defs.drop_last(), k)
    }
}

/// `after` is `before` with the templates `defs` registered in order: a
/// name defined there maps to the template of its last definition, and every
/// other name is unchanged.
pub open spec fn registered(before: Map<Seq<char>, MacroDefinition>, after: Map<Seq<char>, MacroDefinition>,
    defs: Seq<(Seq<char>, Params, Node)>) -> bool {
    &&& forall|k: Seq<char>| #[trigger] after.contains_key(k) <==> (before.contains_key(k) || last_def(defs, k) is Some)
    &&& forall|k: Seq<char>| #[trigger] after.contains_key(k) ==> match last_def(defs, k) {
        Some((p, b)) => after[k] matches MacroDefinition::Template(t) && t.params@ == p && node_view(*t.body) == b,
        None => after[k] == before[k],
    }
}

impl MacroSystem {
    /// Registers the macro definitions of a source text, in order (a later
    /// definition of a name replaces an earlier one). A parse error leaves
    /// the system unchanged; a definition without a name fails after the
    /// definitions before it were registered.
    pub fn load_from_source(&mut self, source: &str) -> (r: Result<(), SutraError>)
        ensures
            match parse_spec(source@) {
                Err(f) => r matches Err(e) && parse_error_at(e, f, "macro_source"@, source@)
                    && final(self)@ == old(self)@,
                Ok(ns) => registered(old(self)@, final(self)@, internal_defs(ns).0) && match internal_defs(ns).1 {
                    None => r is Ok,
                    Some(f) => r matches Err(e) && e.fault() == f,
                },
            },
    {
        let source_ctx = SourceContext::from_file("macro_source", source);
        let exprs = match parse(source, source_ctx) {
            Ok(v) => v,
            Err(e) => {
                return Err(e);
            },
        };
        let ghost ns = nodes_view(exprs@);
        let ghost start = self@;
        let ghost mut defs: Seq<(Seq<char>, Params, Node)> = Seq::empty();
        proof {
            lemma_nodes_view(exprs@);
            assert(ns.skip(0) =~= ns);
            assert(defs + internal_defs(ns).0 =~= internal_defs(ns).0);
        }
        let mut i: usize = 0;
        while i < exprs.len()
            invariant
                i <= exprs@.len(),
                ns == nodes_view(exprs@),
                ns.len() == exprs@.len(),
                forall|j: int| 0 <= j < exprs@.len() ==> #[trigger] ns[j] == node_view(exprs@[j]),
                defs + internal_defs(ns.skip(i as int)).0 == internal_defs(ns).0,
                internal_defs(ns.skip(i as int)).1 == internal_defs(ns).1,
                registered(start, self@, defs),
                parse_spec(source@) == Ok::<Seq<Node>, crate::parser::ParseFault>(ns),
                start == old(self)@,
            decreases exprs@.len() - i,
        {
            let ghost rest = ns.skip(i as int);
            proof {
                assert(rest[0] == ns[i as int]);
                assert(rest.drop_first() =~= ns.skip(i + 1));
            }
            match parse_macro_definition_internal(&exprs[i]) {
                Err(e) => {
                    proof {
                        assert(definition_internal_spec(rest[0]) == Err::<Option<(Seq<char>, Params, Node)>, Fault>(e.fault()));
                        assert(internal_defs(rest).1 == Some(e.fault()));
                        assert(internal_defs(rest).0 =~= Seq::<(Seq<char>, Params, Node)>::empty());
                        assert(defs + Seq::<(Seq<char>, Params, Node)>::empty() =~= defs);
                    }
                    return Err(e);
                },
                Ok(None) => {},
                Ok(Some((name, def))) => {
                    let ghost defd = def;
                    let ghost d = match defd {
                        MacroDefinition::Template(t) => (name@, t.params@, node_view(*t.body)),
                        _ => (name@, arbitrary(), arbitrary()),
                    };
                    let ghost before = self@;
                    self.register(name, def);
                    proof {
                        assert(defs.push(d) + internal_defs(ns.skip(i + 1)).0 =~= defs + (seq![d] + internal_defs(ns.skip(i + 1)).0));
                        assert(defs.push(d).drop_last() =~= defs);
                        assert forall|k: Seq<char>| #[trigger] self@.contains_key(k) <==> (start.contains_key(k) || last_def(defs.push(d), k) is Some) by {
                        }
                        assert forall|k: Seq<char>| #[trigger] self@.contains_key(k) implies match last_def(defs.push(d), k) {
                            Some((p, b)) => self@[k] matches MacroDefinition::Template(t) && t.params@ == p && node_view(*t.body) == b,
                            None => self@[k] == start[k],
                        } by {
                        }
                        defs = defs.push(d);
                    }
                },
            }
            i = i + 1;
        }
        proof {
            assert(ns.skip(i as int) =~= Seq::<Node>::empty());
            assert(defs + Seq::<(Seq<char>, Params, Node)>::empty() =~= defs);
        }
        Ok(())
    }
}

} // verus!
