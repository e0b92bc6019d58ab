//! Discovery of tests written in Sutra: which files hold them, and the
//! `(test "name" (expect ...) body...)` forms in a parsed file.
use vstd::prelude::*;
use std::sync::Arc;
use crate::span::Span;
use crate::ast::{AstNode, Expr, Node, Term, node_view, nodes_view, lemma_nodes_view, share, share_all};
use crate::errors::{SourceContext, SutraError, Fault, general_fault, general_error};
use crate::text::{chars_of, str_eq, push_str};

verus! {

/// A test read from a source file: its name, its optional `(expect ...)`
/// form, its body, its span and the file it came from.
#[derive(Debug, Clone)]
pub struct ASTDefinition {
    pub name: String,
    pub expect_form: Option<AstNode>,
    pub body: Vec<AstNode>,
    pub span: Span,
    pub source_file: SourceContext,
}

/// The model of a test: name, expect form, body and span.
pub struct TestDef {
    pub name: Seq<char>,
    pub expect_form: Option<Node>,
    pub body: Seq<Node>,
    pub span: Span,
}

pub open spec fn opt_node_view(o: Option<AstNode>) -> Option<Node> {
    match o {
        Some(n) => Some(node_view(n)),
        None => None,
    }
}

/// The model of a read test.
pub open spec fn test_def_view(d: ASTDefinition) -> TestDef {
    TestDef { name: d.name@, expect_form: opt_node_view(d.expect_form), body: nodes_view(d.body@), span: d.span }
}

/// Whether `n` is a list whose first item is the symbol `word`.
pub open spec fn headed_by(n: Node, word: Seq<char>) -> bool {
    n.term matches Term::List(items, _) && items.len() > 0 && (items[0].term matches Term::Symbol(s, _) && s == word)
}

/// The test a form denotes: `None` unless it is a list headed by `test`;
/// then it needs a string name, and an `(expect ...)` form may follow.
pub open spec fn test_form_spec(n: Node) -> Result<Option<TestDef>, Fault> {
    match n.term {
        Term::List(items, span) => if !headed_by(n, "test"@) {
            Ok(None)
        } else if items.len() < 2 {
            Err(general_fault("Invalid test form: expected at least a name"@, span))
        } else {
            match items[1].term {
                Term::Str(name, _) => if items.len() > 2 && headed_by(items[2], "expect"@) {
                    Ok(Some(TestDef { name, expect_form: Some(items[2]), body: items.skip(3), span }))
                } else {
                    Ok(Some(TestDef { name, expect_form: None, body: items.skip(2), span }))
                },
                _ => Err(general_fault("Invalid test form: test name must be a string"@, items[1].span)),
            }
        },
        _ => Ok(None),
    }
}

/// The tests among the forms `ns`, in order, or the first failure.
pub open spec fn tests_from(ns: Seq<Node>) -> Result<Seq<TestDef>, Fault>
    decreases ns.len(),
{
    if ns.len() == 0 {
        Ok(Seq::empty())
    } else {
        match test_form_spec(ns[0]) {
            Err(f) => Err(f),
            Ok(None) => tests_from(ns.drop_first()),
            Ok(Some(d)) => match tests_from(ns.drop_first()) {
                Ok(ds) => Ok(seq![d] + ds),
                Err(f) => Err(f),
            },
        }
    }
}

/// The text after the last `/` of a path.
pub open spec fn file_name_of(p: Seq<char>) -> Seq<char>
    decreases p.len(),
{
    if p.len() == 0 {
        p
    } else if p.last() == '/' {
        Seq::empty()
    } else {
        file_name_of(p.drop_last()).push(p.last())
    }
}

/// A path without what ends it but names nothing: trailing `/` and `.`
/// components (`dir/a.sutra/` and `dir/a.sutra/.` name `dir/a.sutra`).
pub open spec fn strip_tail(p: Seq<char>) -> Seq<char>
    decreases p.len(),
{
    if p.len() > 0 && p.last() == '/' {
        strip_tail(p.drop_last())
    } else if p.len() >= 2 && p.last() == '.' && p[p.len() - 2] == '/' {
        strip_tail(p.drop_last())
    } else {
        p
    }
}

/// Whether a path names a `.sutra` file: the name of its last component
/// ends in `.sutra` and does not begin at that dot (its extension is
/// `sutra`).
pub open spec fn is_sutra_path(p: Seq<char>) -> bool {
    let n = file_name_of(strip_tail(p));
    n.len() > 6 && n.skip(n.len() - 6) == ".sutra"@
}

fn headed_by_exec(n: &AstNode, word: &str) -> (r: bool)
    ensures
        r == headed_by(node_view(*n), word@),
{
    match &*n.value {
        Expr::List(items, _) => {
            proof { lemma_nodes_view(items@); }
            if items.len() == 0 {
                return false;
            }
            match &*items[0].value {
                Expr::Symbol(s, _) => str_eq(s.as_str(), word),
                _ => false,
            }
        },
        _ => false,
    }
}

fn copy_from(items: &Vec<AstNode>, k: usize) -> (r: Vec<AstNode>)
    requires
        k <= items@.len(),
    ensures
        nodes_view(r@) == nodes_view(items@).skip(k as int),
{
    let r = share_all(&items.as_slice()[k..items.len()]);
    proof {
        lemma_nodes_view(items@);
        crate::ast::lemma_nodes_view_subrange(items@, k as int, items@.len() as int);
        assert(nodes_view(items@).subrange(k as int, items@.len() as int) =~= nodes_view(items@).skip(k as int));
    }
    r
}

fn test_form(node: &AstNode, source_file: &SourceContext) -> (r: Result<Option<ASTDefinition>, SutraError>)
    ensures
        match (r, test_form_spec(node_view(*node))) {
            (Ok(None), Ok(None)) => true,
            (Ok(Some(d)), Ok(Some(t))) => test_def_view(d) == t && d.source_file.name@ == source_file.name@
                && d.source_file.content@ == source_file.content@,
            (Err(e), Err(f)) => e.fault() == f,
            _ => false,
        },
{
    if !headed_by_exec(node, "test") {
        proof {
            if let Term::List(_, _) = node_view(*node).term {
            }
        }
        return Ok(None);
    }
    let (items, span) = match &*node.value {
        Expr::List(items, span) => (items, *span),
        _ => {
            return Ok(None);
        },
    };
    proof { lemma_nodes_view(items@); }
    if items.len() < 2 {
        return Err(general_error("Invalid test form: expected at least a name", source_file.copy(), "validation", span));
    }
    let name = match &*items[1].value {
        Expr::String(s, _) => s.clone(),
        _ => {
            return Err(general_error("Invalid test form: test name must be a string", source_file.copy(), "validation",
                items[1].span));
        },
    };
    if items.len() > 2 && headed_by_exec(&items[2], "expect") {
        let body = copy_from(items, 3);
        Ok(Some(ASTDefinition { name, expect_form: Some(share(&items[2])), body, span, source_file: source_file.copy() }))
    } else {
        let body = copy_from(items, 2);
        Ok(Some(ASTDefinition { name, expect_form: None, body, span, source_file: source_file.copy() }))
    }
}

/// Discovers tests in files and parsed programs.
#[derive(Debug)]
pub struct TestDiscoverer;

impl TestDiscoverer {
    /// Whether `path` names a `.sutra` file.
    pub fn is_sutra_file(path: &str) -> (r: bool)
        ensures
            r == is_sutra_path(path@),
    {
        let all = chars_of(path);
        let mut end = all.len();
        assert(all@.subrange(0, end as int) =~= all@);
        while end > 0 && (all[end - 1] == '/' || (end >= 2 && all[end - 1] == '.' && all[end - 2] == '/'))
            invariant
                end <= all@.len(),
                all@ == path@,
                strip_tail(all@.subrange(0, end as int)) == strip_tail(path@),
            decreases end,
        {
            assert(all@.subrange(0, end as int).drop_last() =~= all@.subrange(0, end - 1));
            end = end - 1;
        }
        let mut cs: Vec<char> = Vec::new();
        let mut k: usize = 0;
        while k < end
            invariant
                k <= end <= all@.len(),
                cs@ == all@.subrange(0, k as int),
            decreases end - k,
        {
            cs.push(all[k]);
            k = k + 1;
            assert(cs@ =~= all@.subrange(0, k as int));
        }
        proof {
            let t = all@.subrange(0, end as int);
            assert(cs@ == t);
            if t.len() >= 2 {
                assert(t[t.len() - 2] == all@[end - 2]);
            }
            assert(strip_tail(t) == t);
        }
        let ghost tail = strip_tail(path@);
        let mut start = cs.len();
        assert(cs@.subrange(0, start as int) =~= cs@);
        assert(file_name_of(tail) + cs@.subrange(start as int, cs@.len() as int) =~= file_name_of(tail));
        while start > 0 && cs[start - 1] != '/'
            invariant
                start <= cs@.len(),
                cs@ == tail,
                file_name_of(tail) == file_name_of(cs@.subrange(0, start as int)) + cs@.subrange(start as int, cs@.len() as int),
                forall|j: int| start <= j < cs@.len() ==> cs@[j] != '/',
            decreases start,
        {
            let ghost pre = cs@.subrange(0, start as int);
            assert(pre.drop_last() =~= cs@.subrange(0, start - 1));
            assert(pre.last() == cs@[start - 1]);
            assert(file_name_of(pre) == file_name_of(pre.drop_last()).push(pre.last()));
            assert(file_name_of(pre.drop_last()).push(pre.last()) + cs@.subrange(start as int, cs@.len() as int)
                =~= file_name_of(cs@.subrange(0, start - 1)) + cs@.subrange(start - 1, cs@.len() as int));
            start = start - 1;
        }
        proof {
            let pre = cs@.subrange(0, start as int);
            if start > 0 {
                assert(pre.last() == '/');
            }
            assert(file_name_of(pre) =~= Seq::<char>::empty());
            assert(file_name_of(tail) =~= cs@.subrange(start as int, cs@.len() as int));
        }
        let n = cs.len() - start;
        if n <= 6 {
            return false;
        }
        let b = cs.len() - 6;
        let ok = cs[b] == '.' && cs[b + 1] == 's' && cs[b + 2] == 'u' && cs[b + 3] == 't' && cs[b + 4] == 'r'
            && cs[b + 5] == 'a';
        proof {
            reveal_strlit(".sutra");
            let name = cs@.subrange(start as int, cs@.len() as int);
            assert(name.skip(name.len() - 6) =~= cs@.subrange(b as int, cs@.len() as int));
            if ok {
                assert(cs@.subrange(b as int, cs@.len() as int) =~= ".sutra"@);
            } else {
                assert(cs@.subrange(b as int, cs@.len() as int) != ".sutra"@) by {
                    let t = cs@.subrange(b as int, cs@.len() as int);
                    assert(t[0] == cs@[b as int] && t[1] == cs@[b + 1] && t[2] == cs@[b + 2]);
                    assert(t[3] == cs@[b + 3] && t[4] == cs@[b + 4] && t[5] == cs@[b + 5]);
                }
            }
        }
        ok
    }

    /// The tests among the top-level forms of a parsed file, in order; a
    /// malformed test form fails the whole file.
    pub fn extract_tests_from_ast(ast: Vec<AstNode>, source_file: SourceContext) -> (r: Result<Vec<ASTDefinition>, SutraError>)
        ensures
            match tests_from(nodes_view(ast@)) {
                Ok(ds) => r matches Ok(v) && v@.len() == ds.len()
                    && (forall|i: int| 0 <= i < v@.len() ==> test_def_view(#[trigger] v@[i]) == ds[i])
                    && (forall|i: int| 0 <= i < v@.len() ==> (#[trigger] v@[i]).source_file.name@ == source_file.name@
                        && v@[i].source_file.content@ == source_file.content@),
                Err(f) => r matches Err(e) && e.fault() == f,
            },
    {
        let ghost ns = nodes_view(ast@);
        proof {
            lemma_nodes_view(ast@);
            assert(ns.skip(0) =~= ns);
        }
        let mut tests: Vec<ASTDefinition> = Vec::new();
        let ghost mut done: Seq<TestDef> = Seq::empty();
        let mut i: usize = 0;
        proof {
            if let Ok(ds) = tests_from(ns) {
                assert(done + ds =~= ds);
            }
        }
        while i < ast.len()
            invariant
                i <= ast@.len(),
                ns == nodes_view(ast@),
                ns.len() == ast@.len(),
                forall|j: int| 0 <= j < ast@.len() ==> #[trigger] ns[j] == node_view(ast@[j]),
                tests@.len() == done.len(),
                forall|j: int| 0 <= j < tests@.len() ==> test_def_view(#[trigger] tests@[j]) == done[j],
                forall|j: int| 0 <= j < tests@.len() ==> (#[trigger] tests@[j]).source_file.name@ == source_file.name@
                    && tests@[j].source_file.content@ == source_file.content@,
                match tests_from(ns.skip(i as int)) {
                    Ok(ds) => tests_from(ns) == Ok::<Seq<TestDef>, Fault>(done + ds),
                    Err(f) => tests_from(ns) == Err::<Seq<TestDef>, Fault>(f),
                },
            decreases ast@.len() - i,
        {
            let ghost rest = ns.skip(i as int);
            proof {
                assert(rest[0] == ns[i as int]);
                assert(rest.drop_first() =~= ns.skip(i + 1));
            }
            match test_form(&ast[i], &source_file) {
                Err(e) => {
                    return Err(e);
                },
                Ok(None) => {},
                Ok(Some(d)) => {
                    let ghost t = test_def_view(d);
                    tests.push(d);
                    proof {
                        if let Ok(ds) = tests_from(ns.skip(i + 1)) {
                            assert(done.push(t) + ds =~= done + (seq![t] + ds));
                        }
                        done = done.push(t);
                    }
                },
            }
            i = i + 1;
        }
        proof {
            assert(ns.skip(i as int) =~= Seq::<Node>::empty());
            assert(done + Seq::<TestDef>::empty() =~= done);
        }
        Ok(tests)
    }
}

/// Why a test without an `(expect ...)` form cannot be registered.
pub open spec fn missing_expect_message(name: Seq<char>) -> Seq<char> {
    "Test '"@ + name + "' missing (expect ...) form"@
}

/// Why a second test of one name cannot be registered.
pub open spec fn duplicate_test_message(name: Seq<char>) -> Seq<char> {
    "Duplicate test name '"@ + name + "'."@
}

/// Whether a test named `name` is among `registry`.
pub open spec fn registry_has(registry: Seq<ASTDefinition>, name: Seq<char>) -> bool {
    exists|i: int| 0 <= i < registry.len() && (#[trigger] registry[i]).name@ == name
}

/// Whether no two tests of `registry` share a name.
pub open spec fn names_distinct(registry: Seq<ASTDefinition>) -> bool {
    forall|i: int, j: int| 0 <= i < j < registry.len() ==> (#[trigger] registry[i]).name@ != (#[trigger] registry[j]).name@
}

/// Adds a discovered test to the registry of tests to run. A test without
/// an `(expect ...)` form, or one whose name is taken, is refused and the
/// registry is left as it was; so a registry never holds two tests of one
/// name.
pub fn register_single_test(registry: &mut Vec<ASTDefinition>, test_form: ASTDefinition) -> (r: Result<(), SutraError>)
    ensures
        test_form.expect_form is None ==> (r matches Err(e)
            && e.fault() == general_fault(missing_expect_message(test_form.name@), test_form.span)
            && final(registry)@ == old(registry)@),
        test_form.expect_form is Some && registry_has(old(registry)@, test_form.name@) ==> (r matches Err(e)
            && e.fault() == general_fault(duplicate_test_message(test_form.name@), test_form.span)
            && final(registry)@ == old(registry)@),
        test_form.expect_form is Some && !registry_has(old(registry)@, test_form.name@) ==> r is Ok
            && final(registry)@ == old(registry)@.push(test_form),
        names_distinct(old(registry)@) ==> names_distinct(final(registry)@),
{
    let has_expect = match &test_form.expect_form {
        Some(_) => true,
        None => false,
    };
    if !has_expect {
        let mut msg = String::new();
        push_str(&mut msg, "Test '");
        push_str(&mut msg, test_form.name.as_str());
        push_str(&mut msg, "' missing (expect ...) form");
        assert(msg@ =~= missing_expect_message(test_form.name@));
        return Err(general_error(msg.as_str(), test_form.source_file.copy(), "test registration", test_form.span));
    }
    let mut i: usize = 0;
    while i < registry.len()
        invariant
            i <= registry@.len(),
            test_form.expect_form is Some,
            registry@ == old(registry)@,
            forall|j: int| 0 <= j < i ==> (#[trigger] registry@[j]).name@ != test_form.name@,
        decreases registry@.len() - i,
    {
        if str_eq(registry[i].name.as_str(), test_form.name.as_str()) {
            let mut msg = String::new();
            push_str(&mut msg, "Duplicate test name '");
            push_str(&mut msg, test_form.name.as_str());
            push_str(&mut msg, "'.");
            assert(msg@ =~= duplicate_test_message(test_form.name@));
            return Err(general_error(msg.as_str(), test_form.source_file.copy(), "test registration", test_form.span));
        }
        i = i + 1;
    }
    let ghost before = registry@;
    registry.push(test_form);
    proof {
        assert(!registry_has(before, test_form.name@));
        assert forall|a: int, b: int| names_distinct(before) && 0 <= a < b < registry@.len()
            implies (#[trigger] registry@[a]).name@ != (#[trigger] registry@[b]).name@ by {
            if b == before.len() {
                assert(registry@[a] == before[a]);
            }
        }
    }
    Ok(())
}

} // verus!
