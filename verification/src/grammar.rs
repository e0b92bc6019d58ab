//! A structural check of a PEG grammar text: the required rules are
//! defined, and every rule refers only to defined or built-in rules.
//!
//! A rule starts on a line that holds ` = `: the text before it is the
//! rule's name, and the whole line starts its definition. Lines that follow
//! continue the definition. Empty lines and lines starting with `//` are
//! skipped; every line is trimmed first.
use vstd::prelude::*;
use crate::ast::strings_view;
use crate::errors::{SutraError, ErrorKind, grammar_validation_error, general_error, SourceContext};
use crate::loader::{lines_spec, lines_from, strip_cr};
use crate::span::Span;
use crate::text::{chars_of, push_char, push_str, str_eq, trim_spec, trim_chars, string_from_chars};
use vstd::string::StringSliceAdditionalSpecFns;

verus! {

// ---------------------------------------------------------------------------
// Identifier references (the `regex` crate)
// ---------------------------------------------------------------------------

#[verifier::external_type_specification]
#[verifier::external_body]
pub struct ExRegexError(regex::Error);

/// A character an identifier may hold: an ASCII letter, digit or `_`.
pub open spec fn is_ident_char(c: char) -> bool {
    ('a' <= c && c <= 'z') || ('A' <= c && c <= 'Z') || ('0' <= c && c <= '9') || c == '_'
}

/// The identifiers of `s`, read on with the unfinished identifier `cur`
/// after the finished ones `acc`: each maximal run of identifier characters
/// gives the run without its leading digits, if anything is left.
pub open spec fn identifiers_from(s: Seq<char>, cur: Seq<char>, acc: Seq<Seq<char>>) -> Seq<Seq<char>>
    decreases s.len(),
{
    if s.len() == 0 {
        if cur.len() > 0 { acc.push(cur) } else { acc }
    } else if !is_ident_char(s[0]) {
        identifiers_from(s.drop_first(), Seq::empty(), if cur.len() > 0 { acc.push(cur) } else { acc })
    } else if cur.len() == 0 && '0' <= s[0] && s[0] <= '9' {
        identifiers_from(s.drop_first(), cur, acc)
    } else {
        identifiers_from(s.drop_first(), cur.push(s[0]), acc)
    }
}

/// The matches of the identifier pattern in `text`, in order: the pattern
/// matches leftmost-first and greedily, so each match starts at the first
/// letter or `_` of a run of identifier characters and takes the rest of the
/// run.
pub open spec fn identifiers_in(text: Seq<char>) -> Seq<Seq<char>> {
    identifiers_from(text, Seq::empty(), Seq::empty())
}

/// The pattern of an identifier: a letter or `_`, then letters, digits and
/// `_`, as the first capture group.
pub open spec fn identifier_pattern() -> Seq<char> {
    "([a-zA-Z_][a-zA-Z0-9_]*)"@
}

/// Compiles `pattern` (`regex::Regex::new`) and collects the first capture
/// group of each of its matches in `text` (`Regex::captures_iter`, then
/// `cap[1]`). The pattern is the library's identifier pattern: it is valid
/// and small, and `Regex::new` fails only on an invalid pattern or one over
/// the size limit, so compiling succeeds. `captures_iter` yields the
/// successive non-overlapping leftmost-first matches, so the groups are the
/// identifiers of the text. Indexing a group that did not take part in a
/// match panics; the only group of this pattern spans every match.
#[verifier::external_body]
fn regex_group_one(pattern: &str, text: &str) -> (r: Result<Vec<String>, regex::Error>)
    requires
        pattern@ == identifier_pattern(),
    ensures
        r is Ok,
        r matches Ok(v) ==> strings_view(v@) == identifiers_in(text@),
{
    let re = regex::Regex::new(pattern)?;
    Ok(re.captures_iter(text).map(|cap| cap[1].to_string()).collect())
}

// ---------------------------------------------------------------------------
// Specification
// ---------------------------------------------------------------------------

/// Words that look like identifiers in a definition but are not rule names.
pub open spec fn is_keyword(x: Seq<char>) -> bool {
    x == "true"@ || x == "false"@ || x == "and"@ || x == "or"@ || x == "not"@ || x == "if"@
        || x == "else"@ || x == "do"@ || x == "..."@
}

/// Rules that any grammar may refer to without defining them.
pub open spec fn is_builtin_rule(x: Seq<char>) -> bool {
    x == "SOI"@ || x == "EOI"@ || x == "WHITESPACE"@ || x == "COMMENT"@ || x == "ANY"@
        || x == "ASCII_DIGIT"@ || x == "ASCII_ALPHA"@ || x == "ASCII_ALPHANUMERIC"@ || x == "POP"@
        || x == "PUSH"@ || x == "PEEK"@ || x == "PEEK_ALL"@ || x == "DROP"@ || x == "define"@
        || x == "quote"@ || x == "lambda"@ || x == "_"@ || x == "n"@ || x == "t"@ || x == "r"@
}

/// The rules every grammar must define, in the order they are checked.
pub open spec fn required_rules() -> Seq<Seq<char>> {
    seq!["program"@, "expr"@, "list"@, "atom"@, "symbol"@]
}

/// The words of `xs` that are not keywords, in order.
pub open spec fn drop_keywords(xs: Seq<Seq<char>>) -> Seq<Seq<char>>
    decreases xs.len(),
{
    if xs.len() == 0 {
        Seq::empty()
    } else if is_keyword(xs.last()) {
        drop_keywords(xs.drop_last())
    } else {
        drop_keywords(xs.drop_last()).push(xs.last())
    }
}

/// The rule names a definition refers to.
pub open spec fn references_of(def: Seq<char>) -> Seq<Seq<char>> {
    drop_keywords(identifiers_in(def))
}

/// The lines of a grammar, trimmed.
pub open spec fn grammar_lines(content: Seq<char>) -> Seq<Seq<char>> {
    lines_spec(content).map_values(|l: Seq<char>| trim_spec(l))
}

/// Lines that carry nothing: empty lines and `//` comments.
pub open spec fn is_skipped_line(l: Seq<char>) -> bool {
    l.len() == 0 || (l.len() >= 2 && l[0] == '/' && l[1] == '/')
}

/// The position of the first ` = ` in `l` at or after `i`.
pub open spec fn find_assign(l: Seq<char>, i: int) -> Option<int>
    decreases l.len() - i,
{
    if i < 0 || i + 3 > l.len() {
        None
    } else if l[i] == ' ' && l[i + 1] == '=' && l[i + 2] == ' ' {
        Some(i)
    } else {
        find_assign(l, i + 1)
    }
}

/// The position of a name in a list of (name, definition) pairs.
pub open spec fn index_of_name(rs: Seq<(Seq<char>, Seq<char>)>, n: Seq<char>) -> Option<int>
    decreases rs.len(),
{
    if rs.len() == 0 {
        None
    } else if rs.last().0 == n {
        Some(rs.len() - 1)
    } else {
        index_of_name(rs.drop_last(), n)
    }
}

/// Stores a finished rule: it replaces a rule of the same name in place, or
/// is added at the end.
pub open spec fn store_rule(rs: Seq<(Seq<char>, Seq<char>)>, cur: Option<(Seq<char>, Seq<char>)>) -> Seq<(Seq<char>, Seq<char>)> {
    match cur {
        None => rs,
        Some((n, d)) => match index_of_name(rs, n) {
            Some(i) => rs.update(i, (n, d)),
            None => rs.push((n, d)),
        },
    }
}

/// The rules of the lines `ls` read so far: those finished, and the one
/// being read.
pub open spec fn collect_rules(ls: Seq<Seq<char>>) -> (Seq<(Seq<char>, Seq<char>)>, Option<(Seq<char>, Seq<char>)>)
    decreases ls.len(),
{
    if ls.len() == 0 {
        (Seq::empty(), None)
    } else {
        let (rs, cur) = collect_rules(ls.drop_last());
        let l = ls.last();
        if is_skipped_line(l) {
            (rs, cur)
        } else {
            match find_assign(l, 0) {
                Some(p) => (store_rule(rs, cur), Some((trim_spec(l.take(p)), l))),
                None => match cur {
                    Some((n, d)) => (rs, Some((n, d + seq!['\n'] + l))),
                    None => (rs, None),
                },
            }
        }
    }
}

/// The (name, definition) pairs of a grammar text, one per name.
pub open spec fn grammar_rules(content: Seq<char>) -> Seq<(Seq<char>, Seq<char>)> {
    let (rs, cur) = collect_rules(grammar_lines(content));
    store_rule(rs, cur)
}

/// A rule of a grammar: its name, its definition and the rules it refers to.
#[derive(Debug, Clone)]
pub struct Rule {
    pub name: String,
    pub definition: String,
    pub references: Vec<String>,
}

/// The model of a rule.
pub open spec fn rule_view(r: Rule) -> (Seq<char>, Seq<char>, Seq<Seq<char>>) {
    (r.name@, r.definition@, strings_view(r.references@))
}

/// The models of rules, in order.
pub open spec fn rule_views(v: Seq<Rule>) -> Seq<(Seq<char>, Seq<char>, Seq<Seq<char>>)> {
    v.map_values(|r: Rule| rule_view(r))
}

/// The rules `v` are those of the pairs `g`, with their references.
pub open spec fn rules_match(v: Seq<Rule>, g: Seq<(Seq<char>, Seq<char>)>) -> bool {
    &&& v.len() == g.len()
    &&& forall|i: int| 0 <= i < v.len() ==> (#[trigger] v[i]).name@ == g[i].0 && v[i].definition@ == g[i].1
        && strings_view(v[i].references@) == references_of(g[i].1)
}


// ---------------------------------------------------------------------------
// Reading rules
// ---------------------------------------------------------------------------

pub open spec fn chars_views(v: Seq<Vec<char>>) -> Seq<Seq<char>> {
    v.map_values(|x: Vec<char>| x@)
}

pub open spec fn pairs_view(v: Seq<(String, String)>) -> Seq<(Seq<char>, Seq<char>)> {
    v.map_values(|p: (String, String)| (p.0@, p.1@))
}

pub open spec fn opt_pair_view(o: Option<(String, String)>) -> Option<(Seq<char>, Seq<char>)> {
    match o {
        Some(p) => Some((p.0@, p.1@)),
        None => None,
    }
}

fn split_lines(cs: &Vec<char>) -> (r: Vec<Vec<char>>)
    ensures
        chars_views(r@) == lines_spec(cs@),
{
    let mut r: Vec<Vec<char>> = Vec::new();
    let mut cur: Vec<char> = Vec::new();
    let mut i: usize = 0;
    assert(cs@.skip(0) =~= cs@);
    assert(chars_views(r@) =~= Seq::<Seq<char>>::empty());
    while i < cs.len()
        invariant
            i <= cs@.len(),
            lines_from(cs@.skip(i as int), cur@, chars_views(r@)) == lines_spec(cs@),
        decreases cs@.len() - i,
    {
        let c = cs[i];
        assert(cs@.skip(i as int).drop_first() =~= cs@.skip(i + 1));
        assert(cs@.skip(i as int)[0] == c);
        if c == '\n' {
            let mut line = cur;
            if line.len() > 0 && line[line.len() - 1] == '\r' {
                line.pop();
            }
            assert(line@ == strip_cr(cur@)) by {
                if cur@.len() > 0 && cur@.last() == '\r' {
                    assert(line@ =~= cur@.drop_last());
                }
            }
            let ghost before = r@;
            r.push(line);
            assert(chars_views(r@) =~= chars_views(before).push(strip_cr(cur@)));
            cur = Vec::new();
            assert(cur@ =~= Seq::<char>::empty());
        } else {
            cur.push(c);
        }
        i = i + 1;
    }
    assert(cs@.skip(i as int) =~= Seq::<char>::empty());
    if cur.len() > 0 {
        let ghost before = r@;
        r.push(cur);
        assert(chars_views(r@) =~= chars_views(before).push(r@.last()@));
    }
    r
}

fn find_assign_exec(l: &Vec<char>) -> (r: Option<usize>)
    ensures
        match r {
            Some(p) => find_assign(l@, 0) == Some(p as int) && p + 3 <= l@.len(),
            None => find_assign(l@, 0) is None,
        },
{
    let mut i: usize = 0;
    while l.len() >= 3 && i <= l.len() - 3
        invariant
            find_assign(l@, i as int) == find_assign(l@, 0),
            i <= l@.len(),
        decreases l@.len() - i,
    {
        if l[i] == ' ' && l[i + 1] == '=' && l[i + 2] == ' ' {
            return Some(i);
        }
        i = i + 1;
    }
    None
}

fn index_of_name_exec(rs: &Vec<(String, String)>, name: &str) -> (r: Option<usize>)
    ensures
        match r {
            Some(i) => index_of_name(pairs_view(rs@), name@) == Some(i as int) && i < rs@.len(),
            None => index_of_name(pairs_view(rs@), name@) is None,
        },
{
    let ghost pv = pairs_view(rs@);
    let mut k = rs.len();
    assert(pv.take(k as int) =~= pv);
    while k > 0
        invariant
            k <= rs@.len(),
            pv == pairs_view(rs@),
            pv.len() == rs@.len(),
            index_of_name(pv, name@) == index_of_name(pv.take(k as int), name@),
        decreases k,
    {
        let ghost t = pv.take(k as int);
        assert(t.last() == pv[k - 1]);
        assert(t.drop_last() =~= pv.take(k - 1));
        if str_eq(rs[k - 1].0.as_str(), name) {
            return Some(k - 1);
        }
        k = k - 1;
    }
    None
}

fn store_rule_exec(rs: &mut Vec<(String, String)>, cur: Option<(String, String)>)
    ensures
        pairs_view(final(rs)@) == store_rule(pairs_view(old(rs)@), opt_pair_view(cur)),
{
    match cur {
        None => {},
        Some((n, d)) => {
            let ghost before = rs@;
            let ghost item = (n@, d@);
            match index_of_name_exec(rs, n.as_str()) {
                Some(i) => {
                    rs.set(i, (n, d));
                    assert(pairs_view(rs@) =~= pairs_view(before).update(i as int, item));
                },
                None => {
                    rs.push((n, d));
                    assert(pairs_view(rs@) =~= pairs_view(before).push(item));
                },
            }
        },
    }
}

fn is_keyword_exec(x: &str) -> (r: bool)
    ensures
        r == is_keyword(x@),
{
    str_eq(x, "true") || str_eq(x, "false") || str_eq(x, "and") || str_eq(x, "or") || str_eq(x, "not")
        || str_eq(x, "if") || str_eq(x, "else") || str_eq(x, "do") || str_eq(x, "...")
}

fn references_exec(def: &str) -> (r: Vec<String>)
    ensures
        strings_view(r@) == references_of(def@),
{
    proof { reveal_strlit("([a-zA-Z_][a-zA-Z0-9_]*)"); }
    let found = match regex_group_one("([a-zA-Z_][a-zA-Z0-9_]*)", def) {
        Ok(v) => v,
        Err(_) => Vec::new(),
    };
    let ghost fv = strings_view(found@);
    let mut kept: Vec<String> = Vec::new();
    let mut i: usize = 0;
    assert(fv.take(0) =~= Seq::<Seq<char>>::empty());
    assert(strings_view(kept@) =~= Seq::<Seq<char>>::empty());
    while i < found.len()
        invariant
            i <= found@.len(),
            fv == strings_view(found@),
            fv.len() == found@.len(),
            strings_view(kept@) == drop_keywords(fv.take(i as int)),
        decreases found@.len() - i,
    {
        let ghost t = fv.take(i + 1);
        assert(t.drop_last() =~= fv.take(i as int));
        assert(t.last() == found@[i as int]@);
        if !is_keyword_exec(found[i].as_str()) {
            let ghost before = kept@;
            kept.push(found[i].clone());
            assert(strings_view(kept@) =~= strings_view(before).push(found@[i as int]@));
        }
        i = i + 1;
    }
    assert(fv.take(i as int) =~= fv);
    kept
}

/// The rules of a grammar text, one per name, in the order their names
/// first appear (a later rule of the same name replaces the earlier one).
pub fn parse_grammar_rules(content: &str) -> (r: Result<Vec<Rule>, SutraError>)
    ensures
        r matches Ok(v) && rules_match(v@, grammar_rules(content@)),
{
    let cs = chars_of(content);
    let lines = split_lines(&cs);
    let ghost tl = grammar_lines(content@);
    let mut rs: Vec<(String, String)> = Vec::new();
    let mut cur: Option<(String, String)> = None;
    let mut j: usize = 0;
    proof {
        assert(tl.len() == lines@.len());
        assert(tl.take(0) =~= Seq::<Seq<char>>::empty());
        assert(pairs_view(rs@) =~= Seq::<(Seq<char>, Seq<char>)>::empty());
    }
    while j < lines.len()
        invariant
            j <= lines@.len(),
            tl == grammar_lines(content@),
            tl.len() == lines@.len(),
            chars_views(lines@) == lines_spec(content@),
            cs@ == content@,
            collect_rules(tl.take(j as int)) == (pairs_view(rs@), opt_pair_view(cur)),
        decreases lines@.len() - j,
    {
        let l = trim_chars(lines[j].as_slice());
        proof {
            assert(chars_views(lines@)[j as int] == lines@[j as int]@);
            assert(tl[j as int] == trim_spec(lines_spec(content@)[j as int]));
            assert(l@ == tl[j as int]);
            assert(tl.take(j + 1).drop_last() =~= tl.take(j as int));
            assert(tl.take(j + 1).last() == tl[j as int]);
        }
        let skipped = l.len() == 0 || (l.len() >= 2 && l[0] == '/' && l[1] == '/');
        if !skipped {
            match find_assign_exec(&l) {
                Some(p) => {
                    let name_chars = trim_chars(&l.as_slice()[0..p]);
                    assert(l@.subrange(0, p as int) =~= l@.take(p as int));
                    let name = string_from_chars(name_chars.as_slice());
                    let line = string_from_chars(l.as_slice());
                    let mut finished: Option<(String, String)> = None;
                    std::mem::swap(&mut finished, &mut cur);
                    store_rule_exec(&mut rs, finished);
                    cur = Some((name, line));
                },
                None => {
                    match cur {
                        Some((n, d)) => {
                            let mut d2 = d;
                            push_char(&mut d2, '\n');
                            let ghost before = d2@;
                            let mut k: usize = 0;
                            while k < l.len()
                                invariant
                                    k <= l@.len(),
                                    d2@ == before + l@.take(k as int),
                                decreases l@.len() - k,
                            {
                                push_char(&mut d2, l[k]);
                                k = k + 1;
                                assert(d2@ =~= before + l@.take(k as int));
                            }
                            assert(l@.take(k as int) =~= l@);
                            cur = Some((n, d2));
                        },
                        None => {
                            cur = None;
                        },
                    }
                },
            }
        }
        j = j + 1;
    }
    assert(tl.take(j as int) =~= tl);
    store_rule_exec(&mut rs, cur);
    let ghost g = grammar_rules(content@);
    assert(pairs_view(rs@) == g);
    let mut rules: Vec<Rule> = Vec::new();
    let mut i: usize = 0;
    while i < rs.len()
        invariant
            i <= rs@.len(),
            pairs_view(rs@) == g,
            rules@.len() == i,
            forall|k: int| 0 <= k < i ==> (#[trigger] rules@[k]).name@ == g[k].0 && rules@[k].definition@ == g[k].1
                && strings_view(rules@[k].references@) == references_of(g[k].1),
        decreases rs@.len() - i,
    {
        assert(g[i as int] == (rs@[i as int].0@, rs@[i as int].1@));
        let references = references_exec(rs[i].1.as_str());
        rules.push(Rule { name: rs[i].0.clone(), definition: rs[i].1.clone(), references });
        i = i + 1;
    }
    Ok(rules)
}

// ---------------------------------------------------------------------------
// Checking rules
// ---------------------------------------------------------------------------

/// Whether a rule named `n` is among the rules `rv`.
pub open spec fn has_rule(rv: Seq<(Seq<char>, Seq<char>, Seq<Seq<char>>)>, n: Seq<char>) -> bool {
    exists|i: int| 0 <= i < rv.len() && (#[trigger] rv[i]).0 == n
}

/// A finding: its message and the definition it concerns (empty for a
/// missing rule).
pub type Issue = (Seq<char>, Seq<char>);

/// One finding per required rule that `rv` lacks, in order.
pub open spec fn missing_issues(req: Seq<Seq<char>>, rv: Seq<(Seq<char>, Seq<char>, Seq<Seq<char>>)>) -> Seq<Issue>
    decreases req.len(),
{
    if req.len() == 0 {
        Seq::empty()
    } else {
        let prev = missing_issues(req.drop_last(), rv);
        if has_rule(rv, req.last()) {
            prev
        } else {
            prev.push(("Missing required rule: "@ + req.last(), ""@))
        }
    }
}

/// The message for a reference from `rule` to the undefined rule `target`.
pub open spec fn undefined_message(rule: Seq<char>, target: Seq<char>) -> Seq<char> {
    "Rule '"@ + rule + "' references undefined rule '"@ + target + "'"@
}

/// One finding per reference in `refs` (of the rule `name` with definition
/// `def`) to a rule that is neither in `rv` nor built in.
pub open spec fn reference_issues(name: Seq<char>, def: Seq<char>, refs: Seq<Seq<char>>,
    rv: Seq<(Seq<char>, Seq<char>, Seq<Seq<char>>)>) -> Seq<Issue>
    decreases refs.len(),
{
    if refs.len() == 0 {
        Seq::empty()
    } else {
        let prev = reference_issues(name, def, refs.drop_last(), rv);
        let x = refs.last();
        if has_rule(rv, x) || is_builtin_rule(x) {
            prev
        } else {
            prev.push((undefined_message(name, x), def))
        }
    }
}

/// The reference findings of the rules `rs`, rule by rule, given all rules `rv`.
pub open spec fn rules_issues(rs: Seq<(Seq<char>, Seq<char>, Seq<Seq<char>>)>, rv: Seq<(Seq<char>, Seq<char>, Seq<Seq<char>>)>)
    -> Seq<Issue>
    decreases rs.len(),
{
    if rs.len() == 0 {
        Seq::empty()
    } else {
        rules_issues(rs.drop_last(), rv) + reference_issues(rs.last().0, rs.last().1, rs.last().2, rv)
    }
}

/// All findings about a set of rules: missing required rules first, then
/// undefined references.
pub open spec fn grammar_issues(rv: Seq<(Seq<char>, Seq<char>, Seq<Seq<char>>)>) -> Seq<Issue> {
    missing_issues(required_rules(), rv) + rules_issues(rv, rv)
}

/// The rules any grammar may refer to without defining them, by name.
pub open spec fn builtin_rule_names() -> Seq<Seq<char>> {
    seq!["SOI"@, "EOI"@, "WHITESPACE"@, "COMMENT"@, "ANY"@, "ASCII_DIGIT"@, "ASCII_ALPHA"@,
        "ASCII_ALPHANUMERIC"@, "POP"@, "PUSH"@, "PEEK"@, "PEEK_ALL"@, "DROP"@, "define"@, "quote"@,
        "lambda"@, "_"@, "n"@, "t"@, "r"@]
}

/// A name is built in exactly when it is one of `builtin_rule_names()`:
/// the start and end of input, whitespace and comments, any character, the
/// ASCII classes, the stack operations, and the words `define`, `quote`,
/// `lambda`, `_`, `n`, `t` and `r`.
pub proof fn law_builtin_rules(x: Seq<char>)
    ensures
        is_builtin_rule(x) <==> builtin_rule_names().contains(x),
{
    let names = builtin_rule_names();
    assert(names.len() == 20);
    if is_builtin_rule(x) {
        if x == "SOI"@ {
            assert(names[0] == x);
        } else if x == "EOI"@ {
            assert(names[1] == x);
        } else if x == "WHITESPACE"@ {
            assert(names[2] == x);
        } else if x == "COMMENT"@ {
            assert(names[3] == x);
        } else if x == "ANY"@ {
            assert(names[4] == x);
        } else if x == "ASCII_DIGIT"@ {
            assert(names[5] == x);
        } else if x == "ASCII_ALPHA"@ {
            assert(names[6] == x);
        } else if x == "ASCII_ALPHANUMERIC"@ {
            assert(names[7] == x);
        } else if x == "POP"@ {
            assert(names[8] == x);
        } else if x == "PUSH"@ {
            assert(names[9] == x);
        } else if x == "PEEK"@ {
            assert(names[10] == x);
        } else if x == "PEEK_ALL"@ {
            assert(names[11] == x);
        } else if x == "DROP"@ {
            assert(names[12] == x);
        } else if x == "define"@ {
            assert(names[13] == x);
        } else if x == "quote"@ {
            assert(names[14] == x);
        } else if x == "lambda"@ {
            assert(names[15] == x);
        } else if x == "_"@ {
            assert(names[16] == x);
        } else if x == "n"@ {
            assert(names[17] == x);
        } else if x == "t"@ {
            assert(names[18] == x);
        } else if x == "r"@ {
            assert(names[19] == x);
        }
    }
    if names.contains(x) {
        let i = choose|i: int| 0 <= i < names.len() && names[i] == x;
        assert(is_builtin_rule(names[i])) by {
            if i == 0 {
                assert(names[0] == "SOI"@);
            } else if i == 1 {
                assert(names[1] == "EOI"@);
            } else if i == 2 {
                assert(names[2] == "WHITESPACE"@);
            } else if i == 3 {
                assert(names[3] == "COMMENT"@);
            } else if i == 4 {
                assert(names[4] == "ANY"@);
            } else if i == 5 {
                assert(names[5] == "ASCII_DIGIT"@);
            } else if i == 6 {
                assert(names[6] == "ASCII_ALPHA"@);
            } else if i == 7 {
                assert(names[7] == "ASCII_ALPHANUMERIC"@);
            } else if i == 8 {
                assert(names[8] == "POP"@);
            } else if i == 9 {
                assert(names[9] == "PUSH"@);
            } else if i == 10 {
                assert(names[10] == "PEEK"@);
            } else if i == 11 {
                assert(names[11] == "PEEK_ALL"@);
            } else if i == 12 {
                assert(names[12] == "DROP"@);
            } else if i == 13 {
                assert(names[13] == "define"@);
            } else if i == 14 {
                assert(names[14] == "quote"@);
            } else if i == 15 {
                assert(names[15] == "lambda"@);
            } else if i == 16 {
                assert(names[16] == "_"@);
            } else if i == 17 {
                assert(names[17] == "n"@);
            } else if i == 18 {
                assert(names[18] == "t"@);
            } else if i == 19 {
                assert(names[19] == "r"@);
            }
        }
    }
}

/// The findings for a missing required rule: one that `rv` does not define.
pub open spec fn missing_rule_issue(rv: Seq<(Seq<char>, Seq<char>, Seq<Seq<char>>)>, i: Issue) -> bool {
    exists|m: int| #![trigger required_rules()[m]]
        0 <= m < required_rules().len() && !has_rule(rv, required_rules()[m])
        && i == ("Missing required rule: "@ + required_rules()[m], ""@)
}

/// The findings for an undefined reference: a reference of some rule of `rv`
/// to a name that `rv` does not define and that is not built in, reported
/// with that rule's definition.
pub open spec fn undefined_reference_issue(rv: Seq<(Seq<char>, Seq<char>, Seq<Seq<char>>)>, i: Issue) -> bool {
    exists|j: int, m: int| #![trigger rv[j].2[m]]
        0 <= j < rv.len() && 0 <= m < rv[j].2.len()
        && !has_rule(rv, rv[j].2[m]) && !builtin_rule_names().contains(rv[j].2[m])
        && i == (undefined_message(rv[j].0, rv[j].2[m]), rv[j].1)
}

proof fn lemma_missing_issues(req: Seq<Seq<char>>, rv: Seq<(Seq<char>, Seq<char>, Seq<Seq<char>>)>)
    ensures
        forall|k: int| 0 <= k < missing_issues(req, rv).len() ==> exists|m: int| #![trigger req[m]]
            0 <= m < req.len() && !has_rule(rv, req[m])
            && #[trigger] missing_issues(req, rv)[k] == ("Missing required rule: "@ + req[m], ""@),
    decreases req.len(),
{
    if req.len() > 0 {
        let pre = req.drop_last();
        lemma_missing_issues(pre, rv);
        let prev = missing_issues(pre, rv);
        assert forall|k: int| 0 <= k < missing_issues(req, rv).len() implies exists|m: int| #![trigger req[m]]
            0 <= m < req.len() && !has_rule(rv, req[m])
            && #[trigger] missing_issues(req, rv)[k] == ("Missing required rule: "@ + req[m], ""@) by {
            if k < prev.len() {
                assert(missing_issues(req, rv)[k] == prev[k]);
                let m = choose|m: int| #![trigger pre[m]] 0 <= m < pre.len() && !has_rule(rv, pre[m])
                    && prev[k] == ("Missing required rule: "@ + pre[m], ""@);
                assert(pre[m] == req[m]);
            } else {
                assert(req[req.len() - 1] == req.last());
            }
        }
    }
}

spec fn undefined_ref(name: Seq<char>, def: Seq<char>, refs: Seq<Seq<char>>,
    rv: Seq<(Seq<char>, Seq<char>, Seq<Seq<char>>)>, i: Issue) -> bool {
    exists|m: int| #![trigger refs[m]]
        0 <= m < refs.len() && !has_rule(rv, refs[m]) && !is_builtin_rule(refs[m])
        && i == (undefined_message(name, refs[m]), def)
}

proof fn lemma_reference_issues(name: Seq<char>, def: Seq<char>, refs: Seq<Seq<char>>,
    rv: Seq<(Seq<char>, Seq<char>, Seq<Seq<char>>)>)
    ensures
        forall|k: int| 0 <= k < reference_issues(name, def, refs, rv).len()
            ==> undefined_ref(name, def, refs, rv, #[trigger] reference_issues(name, def, refs, rv)[k]),
    decreases refs.len(),
{
    if refs.len() > 0 {
        let pre = refs.drop_last();
        lemma_reference_issues(name, def, pre, rv);
        let prev = reference_issues(name, def, pre, rv);
        assert forall|k: int| 0 <= k < reference_issues(name, def, refs, rv).len()
            implies undefined_ref(name, def, refs, rv, #[trigger] reference_issues(name, def, refs, rv)[k]) by {
            if k < prev.len() {
                assert(reference_issues(name, def, refs, rv)[k] == prev[k]);
                assert(undefined_ref(name, def, pre, rv, prev[k]));
                let m = choose|m: int| #![trigger pre[m]] 0 <= m < pre.len() && !has_rule(rv, pre[m])
                    && !is_builtin_rule(pre[m]) && prev[k] == (undefined_message(name, pre[m]), def);
                assert(pre[m] == refs[m]);
            } else {
                assert(refs[refs.len() - 1] == refs.last());
            }
        }
    }
}

spec fn undefined_in(rs: Seq<(Seq<char>, Seq<char>, Seq<Seq<char>>)>, rv: Seq<(Seq<char>, Seq<char>, Seq<Seq<char>>)>,
    i: Issue) -> bool {
    exists|j: int, m: int| #![trigger rs[j].2[m]]
        0 <= j < rs.len() && 0 <= m < rs[j].2.len() && !has_rule(rv, rs[j].2[m]) && !is_builtin_rule(rs[j].2[m])
        && i == (undefined_message(rs[j].0, rs[j].2[m]), rs[j].1)
}

proof fn lemma_rules_issues(rs: Seq<(Seq<char>, Seq<char>, Seq<Seq<char>>)>, rv: Seq<(Seq<char>, Seq<char>, Seq<Seq<char>>)>)
    ensures
        forall|k: int| 0 <= k < rules_issues(rs, rv).len() ==> undefined_in(rs, rv, #[trigger] rules_issues(rs, rv)[k]),
    decreases rs.len(),
{
    if rs.len() > 0 {
        let pre = rs.drop_last();
        let last = rs.last();
        lemma_rules_issues(pre, rv);
        lemma_reference_issues(last.0, last.1, last.2, rv);
        let prev = rules_issues(pre, rv);
        let tail = reference_issues(last.0, last.1, last.2, rv);
        assert(rules_issues(rs, rv) == prev + tail);
        assert forall|k: int| 0 <= k < rules_issues(rs, rv).len() implies undefined_in(rs, rv, #[trigger] rules_issues(rs, rv)[k]) by {
            if k < prev.len() {
                assert(rules_issues(rs, rv)[k] == prev[k]);
                assert(undefined_in(pre, rv, prev[k]));
                let (j, m) = choose|j: int, m: int| #![trigger pre[j].2[m]]
                    0 <= j < pre.len() && 0 <= m < pre[j].2.len() && !has_rule(rv, pre[j].2[m])
                    && !is_builtin_rule(pre[j].2[m]) && prev[k] == (undefined_message(pre[j].0, pre[j].2[m]), pre[j].1);
                assert(pre[j] == rs[j]);
                assert(rs[j].2[m] == pre[j].2[m]);
            } else {
                let k2 = k - prev.len();
                assert(rules_issues(rs, rv)[k] == tail[k2]);
                assert(undefined_ref(last.0, last.1, last.2, rv, tail[k2]));
                let m = choose|m: int| #![trigger last.2[m]] 0 <= m < last.2.len() && !has_rule(rv, last.2[m])
                    && !is_builtin_rule(last.2[m]) && tail[k2] == (undefined_message(last.0, last.2[m]), last.1);
                let j = rs.len() - 1;
                assert(rs[j] == last);
                assert(rs[j].2[m] == last.2[m]);
            }
        }
    }
}

/// Every finding about a set of rules is either a required rule that the
/// rules lack, or a reference of one of the rules to a name that no rule
/// defines and that is not built in: a reference to a built-in rule, such
/// as `ASCII_DIGIT`, is never reported.
pub proof fn law_grammar_issues(rv: Seq<(Seq<char>, Seq<char>, Seq<Seq<char>>)>)
    ensures
        forall|k: int| 0 <= k < grammar_issues(rv).len()
            ==> missing_rule_issue(rv, #[trigger] grammar_issues(rv)[k]) || undefined_reference_issue(rv, grammar_issues(rv)[k]),
{
    let miss = missing_issues(required_rules(), rv);
    let refs = rules_issues(rv, rv);
    lemma_missing_issues(required_rules(), rv);
    lemma_rules_issues(rv, rv);
    assert(grammar_issues(rv) == miss + refs);
    assert forall|k: int| 0 <= k < grammar_issues(rv).len()
        implies missing_rule_issue(rv, #[trigger] grammar_issues(rv)[k]) || undefined_reference_issue(rv, grammar_issues(rv)[k]) by {
        if k < miss.len() {
            assert(grammar_issues(rv)[k] == miss[k]);
        } else {
            let k2 = k - miss.len();
            assert(grammar_issues(rv)[k] == refs[k2]);
            assert(undefined_in(rv, rv, refs[k2]));
            let (j, m) = choose|j: int, m: int| #![trigger rv[j].2[m]]
                0 <= j < rv.len() && 0 <= m < rv[j].2.len() && !has_rule(rv, rv[j].2[m]) && !is_builtin_rule(rv[j].2[m])
                && refs[k2] == (undefined_message(rv[j].0, rv[j].2[m]), rv[j].1);
            law_builtin_rules(rv[j].2[m]);
        }
    }
}

proof fn lemma_contains_concat(a: Seq<Issue>, b: Seq<Issue>, x: Issue)
    ensures
        a.contains(x) ==> (a + b).contains(x),
        b.contains(x) ==> (a + b).contains(x),
{
    if a.contains(x) {
        let i = choose|i: int| 0 <= i < a.len() && a[i] == x;
        assert((a + b)[i] == x);
    }
    if b.contains(x) {
        let i = choose|i: int| 0 <= i < b.len() && b[i] == x;
        assert((a + b)[a.len() + i] == x);
    }
}

proof fn lemma_contains_push(a: Seq<Issue>, y: Issue, x: Issue)
    ensures
        a.contains(x) ==> a.push(y).contains(x),
        a.push(y).contains(y),
{
    if a.contains(x) {
        let i = choose|i: int| 0 <= i < a.len() && a[i] == x;
        assert(a.push(y)[i] == x);
    }
    assert(a.push(y)[a.len() as int] == y);
}

proof fn lemma_missing_complete(req: Seq<Seq<char>>, rv: Seq<(Seq<char>, Seq<char>, Seq<Seq<char>>)>, m: int)
    requires
        0 <= m < req.len(),
        !has_rule(rv, req[m]),
    ensures
        missing_issues(req, rv).contains(("Missing required rule: "@ + req[m], ""@)),
    decreases req.len(),
{
    let pre = req.drop_last();
    let x = ("Missing required rule: "@ + req[m], ""@);
    if m < req.len() - 1 {
        assert(pre[m] == req[m]);
        lemma_missing_complete(pre, rv, m);
        lemma_contains_push(missing_issues(pre, rv), ("Missing required rule: "@ + req.last(), ""@), x);
    } else {
        assert(req[m] == req.last());
        lemma_contains_push(missing_issues(pre, rv), x, x);
    }
}

proof fn lemma_reference_complete(name: Seq<char>, def: Seq<char>, refs: Seq<Seq<char>>,
    rv: Seq<(Seq<char>, Seq<char>, Seq<Seq<char>>)>, m: int)
    requires
        0 <= m < refs.len(),
        !has_rule(rv, refs[m]),
        !is_builtin_rule(refs[m]),
    ensures
        reference_issues(name, def, refs, rv).contains((undefined_message(name, refs[m]), def)),
    decreases refs.len(),
{
    let pre = refs.drop_last();
    let x = (undefined_message(name, refs[m]), def);
    if m < refs.len() - 1 {
        assert(pre[m] == refs[m]);
        lemma_reference_complete(name, def, pre, rv, m);
        let prev = reference_issues(name, def, pre, rv);
        lemma_contains_push(prev, (undefined_message(name, refs.last()), def), x);
    } else {
        assert(refs[m] == refs.last());
        lemma_contains_push(reference_issues(name, def, pre, rv), x, x);
    }
}

proof fn lemma_rules_complete(rs: Seq<(Seq<char>, Seq<char>, Seq<Seq<char>>)>, rv: Seq<(Seq<char>, Seq<char>, Seq<Seq<char>>)>,
    j: int, m: int)
    requires
        0 <= j < rs.len(),
        0 <= m < rs[j].2.len(),
        !has_rule(rv, rs[j].2[m]),
        !is_builtin_rule(rs[j].2[m]),
    ensures
        rules_issues(rs, rv).contains((undefined_message(rs[j].0, rs[j].2[m]), rs[j].1)),
    decreases rs.len(),
{
    let pre = rs.drop_last();
    let last = rs.last();
    let x = (undefined_message(rs[j].0, rs[j].2[m]), rs[j].1);
    let prev = rules_issues(pre, rv);
    let tail = reference_issues(last.0, last.1, last.2, rv);
    assert(rules_issues(rs, rv) == prev + tail);
    if j < rs.len() - 1 {
        assert(pre[j] == rs[j]);
        lemma_rules_complete(pre, rv, j, m);
    } else {
        assert(rs[j] == last);
        lemma_reference_complete(last.0, last.1, last.2, rv, m);
    }
    lemma_contains_concat(prev, tail, x);
}

/// Every lack is reported: each required rule (`program`, `expr`, `list`,
/// `atom`, `symbol`) that the rules do not define gives its finding, and each
/// reference of a rule to a name that no rule defines and that is not built
/// in gives a finding with that rule's definition.
pub proof fn law_grammar_lacks_reported(rv: Seq<(Seq<char>, Seq<char>, Seq<Seq<char>>)>)
    ensures
        !has_rule(rv, "program"@) ==> grammar_issues(rv).contains(("Missing required rule: "@ + "program"@, ""@)),
        !has_rule(rv, "expr"@) ==> grammar_issues(rv).contains(("Missing required rule: "@ + "expr"@, ""@)),
        !has_rule(rv, "list"@) ==> grammar_issues(rv).contains(("Missing required rule: "@ + "list"@, ""@)),
        !has_rule(rv, "atom"@) ==> grammar_issues(rv).contains(("Missing required rule: "@ + "atom"@, ""@)),
        !has_rule(rv, "symbol"@) ==> grammar_issues(rv).contains(("Missing required rule: "@ + "symbol"@, ""@)),
        forall|j: int, m: int| #![trigger rv[j].2[m]]
            0 <= j < rv.len() && 0 <= m < rv[j].2.len() && !has_rule(rv, rv[j].2[m])
            && !builtin_rule_names().contains(rv[j].2[m])
            ==> grammar_issues(rv).contains((undefined_message(rv[j].0, rv[j].2[m]), rv[j].1)),
{
    let req = required_rules();
    let miss = missing_issues(req, rv);
    let refs = rules_issues(rv, rv);
    assert(grammar_issues(rv) == miss + refs);
    let empty: Seq<char> = ""@;
    if !has_rule(rv, "program"@) {
        assert(req[0] == "program"@);
        lemma_missing_complete(req, rv, 0);
        lemma_contains_concat(miss, refs, ("Missing required rule: "@ + "program"@, empty));
    }
    if !has_rule(rv, "expr"@) {
        assert(req[1] == "expr"@);
        lemma_missing_complete(req, rv, 1);
        lemma_contains_concat(miss, refs, ("Missing required rule: "@ + "expr"@, empty));
    }
    if !has_rule(rv, "list"@) {
        assert(req[2] == "list"@);
        lemma_missing_complete(req, rv, 2);
        lemma_contains_concat(miss, refs, ("Missing required rule: "@ + "list"@, empty));
    }
    if !has_rule(rv, "atom"@) {
        assert(req[3] == "atom"@);
        lemma_missing_complete(req, rv, 3);
        lemma_contains_concat(miss, refs, ("Missing required rule: "@ + "atom"@, empty));
    }
    if !has_rule(rv, "symbol"@) {
        assert(req[4] == "symbol"@);
        lemma_missing_complete(req, rv, 4);
        lemma_contains_concat(miss, refs, ("Missing required rule: "@ + "symbol"@, empty));
    }
    assert forall|j: int, m: int| #![trigger rv[j].2[m]]
        0 <= j < rv.len() && 0 <= m < rv[j].2.len() && !has_rule(rv, rv[j].2[m])
        && !builtin_rule_names().contains(rv[j].2[m])
        implies grammar_issues(rv).contains((undefined_message(rv[j].0, rv[j].2[m]), rv[j].1)) by {
        law_builtin_rules(rv[j].2[m]);
        lemma_rules_complete(rv, rv, j, m);
        lemma_contains_concat(miss, refs, (undefined_message(rv[j].0, rv[j].2[m]), rv[j].1));
    }
}

/// Whether `e` is the grammar error for the finding `i`.
pub open spec fn is_issue_error(e: SutraError, i: Issue) -> bool {
    &&& e.kind matches ErrorKind::GeneralValidation { message } && message@ == i.0
    &&& e.source_info.source.name@ == "grammar_validation"@
    &&& e.source_info.source.content@ == i.1
    &&& e.source_info.phase@ == "Grammar Structure"@
    &&& e.diagnostic_info.error_code@ == "validation.grammar.error"@
}

/// The errors `es` report the findings `is`, in order.
pub open spec fn errors_report(es: Seq<SutraError>, is: Seq<Issue>) -> bool {
    es.len() == is.len() && forall|k: int| 0 <= k < es.len() ==> is_issue_error(#[trigger] es[k], is[k])
}

fn has_rule_exec(rules: &Vec<Rule>, n: &str) -> (r: bool)
    ensures
        r == has_rule(rule_views(rules@), n@),
{
    let ghost rv = rule_views(rules@);
    let mut i: usize = 0;
    while i < rules.len()
        invariant
            i <= rules@.len(),
            rv == rule_views(rules@),
            rv.len() == rules@.len(),
            forall|k: int| 0 <= k < i ==> (#[trigger] rv[k]).0 != n@,
        decreases rules@.len() - i,
    {
        assert(rv[i as int].0 == rules@[i as int].name@);
        if str_eq(rules[i].name.as_str(), n) {
            return true;
        }
        i = i + 1;
    }
    false
}

fn is_builtin_exec(x: &str) -> (r: bool)
    ensures
        r == is_builtin_rule(x@),
{
    str_eq(x, "SOI") || str_eq(x, "EOI") || str_eq(x, "WHITESPACE") || str_eq(x, "COMMENT") || str_eq(x, "ANY")
        || str_eq(x, "ASCII_DIGIT") || str_eq(x, "ASCII_ALPHA") || str_eq(x, "ASCII_ALPHANUMERIC") || str_eq(x, "POP")
        || str_eq(x, "PUSH") || str_eq(x, "PEEK") || str_eq(x, "PEEK_ALL") || str_eq(x, "DROP") || str_eq(x, "define")
        || str_eq(x, "quote") || str_eq(x, "lambda") || str_eq(x, "_") || str_eq(x, "n") || str_eq(x, "t")
        || str_eq(x, "r")
}

proof fn lemma_error_code()
    ensures
        "validation.grammar."@ + "error"@ == "validation.grammar.error"@,
{
    reveal_strlit("validation.grammar.");
    reveal_strlit("error");
    reveal_strlit("validation.grammar.error");
    assert("validation.grammar."@ + "error"@ =~= "validation.grammar.error"@);
}

proof fn lemma_errors_push(es: Seq<SutraError>, is: Seq<Issue>, e: SutraError, i: Issue)
    requires
        errors_report(es, is),
        is_issue_error(e, i),
    ensures
        errors_report(es.push(e), is.push(i)),
{
    assert forall|k: int| 0 <= k < es.push(e).len() implies is_issue_error(#[trigger] es.push(e)[k], is.push(i)[k]) by {
        if k < es.len() {
            assert(es.push(e)[k] == es[k]);
        }
    }
}

/// The errors of a set of rules: a missing required rule, or a reference
/// to a rule that is neither defined nor built in.
pub fn check_grammar_rules(rules: &Vec<Rule>) -> (r: Vec<SutraError>)
    ensures
        errors_report(r@, grammar_issues(rule_views(rules@))),
{
    let ghost rv = rule_views(rules@);
    let mut errors: Vec<SutraError> = Vec::new();
    let required = ["program", "expr", "list", "atom", "symbol"];
    let ghost req = required_rules();
    let mut q: usize = 0;
    proof {
        assert(required@.map_values(|s: &str| s@) =~= req);
        assert(req.take(0) =~= Seq::<Seq<char>>::empty());
    }
    while q < 5
        invariant
            q <= 5,
            rv == rule_views(rules@),
            req == required_rules(),
            required@.map_values(|s: &str| s@) == req,
            errors_report(errors@, missing_issues(req.take(q as int), rv)),
        decreases 5 - q,
    {
        let name = required[q];
        proof {
            assert(req.take(q + 1).drop_last() =~= req.take(q as int));
            assert(req.take(q + 1).last() == req[q as int]);
            assert(name@ == req[q as int]);
        }
        if !has_rule_exec(rules, name) {
            let mut message = String::new();
            push_str(&mut message, "Missing required rule: ");
            push_str(&mut message, name);
            let e = grammar_validation_error(message, "", false);
            proof { lemma_error_code(); }
            proof { lemma_errors_push(errors@, missing_issues(req.take(q as int), rv), e, ("Missing required rule: "@ + name@, ""@)); }
            errors.push(e);
        }
        q = q + 1;
    }
    assert(req.take(5) =~= req);
    let ghost missing = missing_issues(req, rv);
    let mut i: usize = 0;
    assert(rv.take(0) =~= Seq::<(Seq<char>, Seq<char>, Seq<Seq<char>>)>::empty());
    assert(missing + Seq::<Issue>::empty() =~= missing);
    while i < rules.len()
        invariant
            i <= rules@.len(),
            rv == rule_views(rules@),
            rv.len() == rules@.len(),
            errors_report(errors@, missing + rules_issues(rv.take(i as int), rv)),
        decreases rules@.len() - i,
    {
        let rule = &rules[i];
        let ghost base = missing + rules_issues(rv.take(i as int), rv);
        let ghost refs = strings_view(rule.references@);
        proof {
            assert(rv.take(i + 1).drop_last() =~= rv.take(i as int));
            assert(rv.take(i + 1).last() == rv[i as int]);
            assert(rv[i as int] == rule_view(rules@[i as int]));
            assert(refs.take(0) =~= Seq::<Seq<char>>::empty());
            assert(base + Seq::<Issue>::empty() =~= base);
        }
        let mut k: usize = 0;
        while k < rule.references.len()
            invariant
                k <= rule.references@.len(),
                rv == rule_views(rules@),
                refs == strings_view(rule.references@),
                refs.len() == rule.references@.len(),
                errors_report(errors@, base + reference_issues(rule.name@, rule.definition@, refs.take(k as int), rv)),
            decreases rule.references@.len() - k,
        {
            let x = &rule.references[k];
            proof {
                assert(refs.take(k + 1).drop_last() =~= refs.take(k as int));
                assert(refs.take(k + 1).last() == x@);
            }
            if !has_rule_exec(rules, x.as_str()) && !is_builtin_exec(x.as_str()) {
                let mut message = String::new();
                push_str(&mut message, "Rule '");
                push_str(&mut message, rule.name.as_str());
                push_str(&mut message, "' references undefined rule '");
                push_str(&mut message, x.as_str());
                push_str(&mut message, "'");
                let e = grammar_validation_error(message, rule.definition.as_str(), false);
                proof { lemma_error_code(); }
                let ghost issue = (undefined_message(rule.name@, x@), rule.definition@);
                proof {
                    let prev = reference_issues(rule.name@, rule.definition@, refs.take(k as int), rv);
                    lemma_errors_push(errors@, base + prev, e, issue);
                    assert((base + prev).push(issue) =~= base + prev.push(issue));
                }
                errors.push(e);
            }
            k = k + 1;
        }
        proof {
            assert(refs.take(k as int) =~= refs);
            assert(base + reference_issues(rule.name@, rule.definition@, refs, rv)
                =~= missing + rules_issues(rv.take(i + 1), rv));
        }
        i = i + 1;
    }
    assert(rv.take(i as int) =~= rv);
    errors
}

/// The errors of a grammar text: reading its rules always succeeds.
pub fn validate_grammar_str(content: &str) -> (r: Result<Vec<SutraError>, SutraError>)
    ensures
        r matches Ok(es) && exists|v: Seq<Rule>| rules_match(v, grammar_rules(content@))
            && errors_report(es@, grammar_issues(rule_views(v))),
{
    let rules = match parse_grammar_rules(content) {
        Ok(v) => v,
        Err(e) => {
            return Err(e);
        },
    };
    let errors = check_grammar_rules(&rules);
    assert(rules_match(rules@, grammar_rules(content@)) && errors_report(errors@, grammar_issues(rule_views(rules@))));
    Ok(errors)
}

} // verus!
