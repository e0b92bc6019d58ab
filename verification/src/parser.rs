//! The reader: Sutra source text to syntax tree nodes.
//!
//! The reader is purely syntactic. Lists are written `( ... )` or
//! `{ ... }`; `'x` quotes `x`; `"..."` is a string with the escapes `\n`,
//! `\t`, `\\` and `\"`; `true` and `false` are booleans; `-?digits(.digits)?`
//! is a number; `...name` is a spread; a name with dots is a path; any other
//! word is a symbol. `(define (name params...) body)` and
//! `(lambda (params...) body)` read as a three-item list whose second item
//! is a parameter list. Spans are byte offsets into the source.
use vstd::prelude::*;
use crate::span::Span;
use crate::errors::{SourceContext, ErrorKind, SutraError, SourceInfo, DiagnosticInfo};
use crate::ast::{AstNode, Expr, ParamList, Path, Node, Term, Params, node_view, nodes_view, expr_view,
    strings_view, opt_string_view, make_node, lemma_nodes_view};
use crate::lexer::{Token, TokKind, byte_offset, lex_spec, lex, tokens_wf, byte_offsets, lemma_lex_wf,
    is_delimiter};
use crate::std_macros::{split_dots, split_dots_exec, sym_node};
use crate::text::{chars_of, str_eq, string_from_chars, push_char};
use vstd::utf8::encode_utf8;
use crate::pretty::pretty_term;

verus! {

// ---------------------------------------------------------------------------
// Specification
// ---------------------------------------------------------------------------

/// Why reading failed, and where.
pub enum ParseFault {
    /// A malformed construct (`MalformedConstruct`), with its description.
    Malformed(Seq<char>, Span),
    /// An invalid literal (`InvalidLiteral`): its type and its text.
    BadLiteral(Seq<char>, Seq<char>, Span),
    /// A required parameter after the rest parameter.
    ParamOrder(Span),
}

/// The byte span of the characters `[a, b)` of `s`.
pub open spec fn char_span(s: Seq<char>, a: int, b: int) -> Span {
    Span { start: byte_offset(s, a) as usize, end: byte_offset(s, b) as usize }
}

/// The byte span of a token.
pub open spec fn tok_span(s: Seq<char>, tk: Token) -> Span {
    char_span(s, tk.start as int, tk.end as int)
}

/// The text of a token.
pub open spec fn tok_text(s: Seq<char>, tk: Token) -> Seq<char> {
    s.subrange(tk.start as int, tk.end as int)
}

/// The empty span at the end of the text.
pub open spec fn end_span(s: Seq<char>) -> Span {
    char_span(s, s.len() as int, s.len() as int)
}

/// The contents of a string literal with its escapes resolved: `\n`, `\t`,
/// `\\` and `\"` stand for newline, tab, backslash and quote; a backslash
/// before any other character is kept with it, and a final lone backslash
/// is kept.
pub open spec fn unescape_spec(w: Seq<char>) -> Seq<char>
    decreases w.len(),
{
    if w.len() == 0 {
        Seq::empty()
    } else if w[0] != '\\' {
        seq![w[0]] + unescape_spec(w.drop_first())
    } else if w.len() == 1 {
        seq!['\\']
    } else {
        let c = w[1];
        let head = if c == 'n' {
            seq!['\n']
        } else if c == 't' {
            seq!['\t']
        } else if c == '\\' {
            seq!['\\']
        } else if c == '"' {
            seq!['"']
        } else {
            seq!['\\', c]
        };
        head + unescape_spec(w.skip(2))
    }
}

pub open spec fn is_digit(c: char) -> bool {
    '0' <= c <= '9'
}

/// The end of the run of digits that starts at `i`.
pub open spec fn digits_end(w: Seq<char>, i: int) -> int
    decreases w.len() - i,
{
    if 0 <= i < w.len() && is_digit(w[i]) { digits_end(w, i + 1) } else { i }
}

/// Whether `w` is a number literal: an optional `-`, digits, and optionally
/// a `.` followed by digits.
pub open spec fn is_number_text(w: Seq<char>) -> bool {
    let a: int = if w.len() > 0 && w[0] == '-' { 1 } else { 0 };
    let b = digits_end(w, a);
    &&& b > a
    &&& (b == w.len() || (w[b] == '.' && digits_end(w, b + 1) > b + 1 && digits_end(w, b + 1) == w.len()))
}

/// Whether `w` is a spread: `...` followed by a name.
pub open spec fn is_spread_text(w: Seq<char>) -> bool {
    w.len() > 3 && w[0] == '.' && w[1] == '.' && w[2] == '.'
}

/// The node for a name: a path if it holds a dot (every piece non-empty),
/// else a symbol.
pub open spec fn name_node(w: Seq<char>, span: Span) -> Result<Node, ParseFault> {
    if w.contains('.') {
        let parts = split_dots(w);
        if exists|k: int| 0 <= k < parts.len() && (#[trigger] parts[k]).len() == 0 {
            Err(ParseFault::BadLiteral("path"@, w, span))
        } else {
            Ok(Node { term: Term::Path(parts, span), span })
        }
    } else {
        Ok(sym_node(w, span))
    }
}

/// The node for a word token.
pub open spec fn word_node(s: Seq<char>, tk: Token) -> Result<Node, ParseFault> {
    let w = tok_text(s, tk);
    let span = tok_span(s, tk);
    if w == "true"@ {
        Ok(Node { term: Term::Bool(true, span), span })
    } else if w == "false"@ {
        Ok(Node { term: Term::Bool(false, span), span })
    } else if is_number_text(w) {
        Ok(Node { term: Term::Number(w, span), span })
    } else if is_spread_text(w) {
        match name_node(w.skip(3), char_span(s, tk.start + 3, tk.end as int)) {
            Ok(inner) => Ok(Node { term: Term::Spread(Box::new(inner)), span }),
            Err(f) => Err(f),
        }
    } else {
        name_node(w, span)
    }
}

/// The node for a string token.
pub open spec fn str_node(s: Seq<char>, tk: Token) -> Node {
    let span = tok_span(s, tk);
    Node { term: Term::Str(unescape_spec(s.subrange(tk.start + 1, tk.end - 1)), span), span }
}

/// Whether a token can stand in a parameter list: a word that is neither a
/// number nor a boolean.
pub open spec fn is_param_word(s: Seq<char>, tk: Token) -> bool {
    let w = tok_text(s, tk);
    tk.kind == TokKind::Word && !is_number_text(w) && w != "true"@ && w != "false"@
}

/// The index of the `)` that closes a parameter list whose items start at
/// token `k`, if every item before it is a parameter word.
pub open spec fn param_close(s: Seq<char>, t: Seq<Token>, k: int) -> Option<int>
    decreases t.len() - k,
{
    if k < 0 || k >= t.len() {
        None
    } else if t[k].kind == TokKind::Close {
        Some(k)
    } else if is_param_word(s, t[k]) {
        param_close(s, t, k + 1)
    } else {
        None
    }
}

/// The parameter list of the words `t[k..to]`, added to `acc`: names go to
/// the required list until a spread `...rest` names the rest parameter; a
/// name after it is out of order, and a second spread is invalid.
pub open spec fn build_params(s: Seq<char>, t: Seq<Token>, k: int, to: int, acc: Params) -> Result<Params, ParseFault>
    decreases to - k,
{
    if k >= to || k < 0 || k >= t.len() {
        Ok(acc)
    } else {
        let tk = t[k];
        let w = tok_text(s, tk);
        if is_spread_text(w) {
            if acc.rest is None {
                build_params(s, t, k + 1, to, Params { rest: Some(w.skip(3)), ..acc })
            } else {
                Err(ParseFault::BadLiteral("parameter"@, "spread_arg"@, tok_span(s, tk)))
            }
        } else {
            if acc.rest is None {
                build_params(s, t, k + 1, to, Params { required: acc.required.push(w), ..acc })
            } else {
                Err(ParseFault::ParamOrder(tok_span(s, tk)))
            }
        }
    }
}

pub open spec fn closer(brace: bool) -> TokKind {
    if brace { TokKind::CloseBrace } else { TokKind::Close }
}

pub open spec fn missing_closer(brace: bool) -> Seq<char> {
    if brace { "Missing closing brace"@ } else { "Missing closing parenthesis"@ }
}

/// Reads one expression starting at token `k`: the node and the index of
/// the token after it.
pub open spec fn read_expr(s: Seq<char>, t: Seq<Token>, k: int) -> Result<(Node, int), ParseFault>
    decreases t.len() - k, 1int,
{
    if k < 0 || k >= t.len() {
        Err(ParseFault::Malformed("Syntax error"@, end_span(s)))
    } else {
        let tk = t[k];
        match tk.kind {
            TokKind::Open => match special_form(s, t, k) {
                Some(r) => r,
                None => read_list(s, t, k, false),
            },
            TokKind::OpenBrace => read_list(s, t, k, true),
            TokKind::Close => Err(ParseFault::Malformed("Syntax error"@, char_span(s, tk.start as int, tk.start as int))),
            TokKind::CloseBrace => Err(ParseFault::Malformed("Syntax error"@, char_span(s, tk.start as int, tk.start as int))),
            TokKind::Tick => match read_expr(s, t, k + 1) {
                Ok((n, k2)) => {
                    let span = Span { start: byte_offset(s, tk.start as int) as usize, end: n.span.end };
                    Ok((Node { term: Term::Quote(Box::new(n), span), span }, k2))
                },
                Err(f) => Err(f),
            },
            TokKind::Str => Ok((str_node(s, tk), k + 1)),
            TokKind::Word => match word_node(s, tk) {
                Ok(n) => Ok((n, k + 1)),
                Err(f) => Err(f),
            },
        }
    }
}

/// Reads a list whose opening token is `t[k]`.
pub open spec fn read_list(s: Seq<char>, t: Seq<Token>, k: int, brace: bool) -> Result<(Node, int), ParseFault>
    decreases t.len() - k, 0int,
{
    if k < 0 || k >= t.len() {
        Err(ParseFault::Malformed("Syntax error"@, end_span(s)))
    } else {
        match read_items(s, t, k + 1, brace) {
            Ok((items, kc)) => {
                let span = char_span(s, t[k].start as int, t[kc].end as int);
                Ok((Node { term: Term::List(items, span), span }, kc + 1))
            },
            Err(f) => Err(f),
        }
    }
}

/// Reads the items of a list from token `k` up to its closing token: the
/// items and the index of the closing token.
pub open spec fn read_items(s: Seq<char>, t: Seq<Token>, k: int, brace: bool) -> Result<(Seq<Node>, int), ParseFault>
    decreases t.len() - k, 2int,
{
    if k < 0 || k >= t.len() {
        Err(ParseFault::Malformed(missing_closer(brace), end_span(s)))
    } else if t[k].kind == closer(brace) {
        Ok((Seq::empty(), k))
    } else if t[k].kind == closer(!brace) {
        Err(ParseFault::Malformed(missing_closer(brace), char_span(s, t[k].start as int, t[k].start as int)))
    } else {
        match read_expr(s, t, k) {
            Err(f) => Err(f),
            Ok((n, k2)) => if k2 <= k || k2 > t.len() {
                Err(ParseFault::Malformed("Syntax error"@, end_span(s)))
            } else {
                match read_items(s, t, k2, brace) {
                    Ok((ns, kc)) => Ok((seq![n] + ns, kc)),
                    Err(f) => Err(f),
                }
            },
        }
    }
}

/// Reads `(define (params...) body)` or `(lambda (params...) body)` at
/// token `k`; `None` when the tokens do not have that shape (they are then
/// read as an ordinary list).
pub open spec fn special_form(s: Seq<char>, t: Seq<Token>, k: int) -> Option<Result<(Node, int), ParseFault>>
    decreases t.len() - k, 0int,
{
    if 0 <= k && k + 2 < t.len() && t[k + 1].kind == TokKind::Word
        && (tok_text(s, t[k + 1]) == "define"@ || tok_text(s, t[k + 1]) == "lambda"@)
        && t[k + 2].kind == TokKind::Open {
        match param_close(s, t, k + 3) {
            None => None,
            Some(pc) => if pc < k + 3 || pc >= t.len() {
                None
            } else {
                match read_expr(s, t, pc + 1) {
                    Err(_) => None,
                    Ok((body, kb)) => if kb < t.len() && kb > pc && t[kb].kind == TokKind::Close {
                        let span = char_span(s, t[k].start as int, t[kb].end as int);
                        let pspan = char_span(s, t[k + 2].start as int, t[pc].end as int);
                        match build_params(s, t, k + 3, pc, Params { required: Seq::empty(), rest: None, span: pspan }) {
                            Err(f) => Some(Err(f)),
                            Ok(p) => Some(Ok((Node {
                                term: Term::List(seq![
                                    sym_node(tok_text(s, t[k + 1]), span),
                                    Node { term: Term::Params(p), span: pspan },
                                    body,
                                ], span),
                                span,
                            }, kb + 1))),
                        }
                    } else {
                        None
                    },
                }
            },
        }
    } else {
        None
    }
}

/// Reads every expression from token `k` to the end.
pub open spec fn read_all(s: Seq<char>, t: Seq<Token>, k: int) -> Result<Seq<Node>, ParseFault>
    decreases t.len() - k,
{
    if k < 0 || k >= t.len() {
        Ok(Seq::empty())
    } else {
        match read_expr(s, t, k) {
            Err(f) => Err(f),
            Ok((n, k2)) => if k2 <= k || k2 > t.len() {
                Err(ParseFault::Malformed("Syntax error"@, end_span(s)))
            } else {
                match read_all(s, t, k2) {
                    Ok(ns) => Ok(seq![n] + ns),
                    Err(f) => Err(f),
                }
            },
        }
    }
}

/// The nodes of a source text, or why it cannot be read.
pub open spec fn parse_spec(s: Seq<char>) -> Result<Seq<Node>, ParseFault> {
    match lex_spec(s) {
        None => Err(ParseFault::Malformed("Missing closing quote"@, end_span(s))),
        Some(t) => read_all(s, t, 0),
    }
}

/// Whether `e` is the reader's error for `f` over the source named `name`
/// with text `content`: phase `parsing`, code `sutra::parse`, no help text.
pub open spec fn parse_error_at(e: SutraError, f: ParseFault, name: Seq<char>, content: Seq<char>) -> bool {
    &&& e.source_info.source.name@ == name
    &&& e.source_info.source.content@ == content
    &&& e.source_info.phase@ == "parsing"@
    &&& e.diagnostic_info.help is None
    &&& e.diagnostic_info.error_code@ == "sutra::parse"@
    &&& match f {
        ParseFault::Malformed(c, sp) => (e.kind matches ErrorKind::MalformedConstruct { construct } && construct@ == c)
            && e.source_info.primary_span == sp,
        ParseFault::BadLiteral(ty, v, sp) => (e.kind matches ErrorKind::InvalidLiteral { literal_type, value }
            && literal_type@ == ty && value@ == v) && e.source_info.primary_span == sp,
        ParseFault::ParamOrder(sp) => (e.kind matches ErrorKind::ParameterOrderViolation { rest_span } && rest_span == sp)
            && e.source_info.primary_span == sp,
    }
}

/// Whether `e` is the reader's error for `f` over the source `src`.
pub open spec fn is_parse_error(e: SutraError, f: ParseFault, src: SourceContext) -> bool {
    parse_error_at(e, f, src.name@, src.content@)
}

// ---------------------------------------------------------------------------
// Implementation
// ---------------------------------------------------------------------------

/// What the reader's helpers may assume: `offs` holds the byte offset of
/// every character position, and the tokens are those of a lexed text.
pub open spec fn reader_ok(cs: Seq<char>, offs: Seq<usize>, t: Seq<Token>) -> bool {
    &&& offs.len() == cs.len() + 1
    &&& forall|i: int| 0 <= i <= cs.len() ==> #[trigger] offs[i] == byte_offset(cs, i)
    &&& tokens_wf(cs, t)
}

/// The exec result `r` agrees with the specified result `q`.
pub open spec fn node_result_is(r: Result<AstNode, SutraError>, q: Result<Node, ParseFault>, src: SourceContext) -> bool {
    match (r, q) {
        (Ok(n), Ok(m)) => node_view(n) == m,
        (Err(e), Err(f)) => is_parse_error(e, f, src),
        _ => false,
    }
}

/// The exec result `r` agrees with the specified result `q`.
pub open spec fn read_result_is(r: Result<(AstNode, usize), SutraError>, q: Result<(Node, int), ParseFault>, src: SourceContext) -> bool {
    match (r, q) {
        (Ok((n, k2)), Ok((m, j))) => node_view(n) == m && k2 == j,
        (Err(e), Err(f)) => is_parse_error(e, f, src),
        _ => false,
    }
}

fn parse_fail(src: &SourceContext, kind: ErrorKind, span: Span) -> (e: SutraError)
    ensures
        e.kind == kind,
        e.source_info.primary_span == span,
        e.source_info.source.name@ == src.name@,
        e.source_info.source.content@ == src.content@,
        e.source_info.phase@ == "parsing"@,
        e.diagnostic_info.help is None,
        e.diagnostic_info.error_code@ == "sutra::parse"@,
{
    SutraError {
        kind,
        source_info: SourceInfo { source: src.copy(), primary_span: span, phase: "parsing".to_string() },
        diagnostic_info: DiagnosticInfo { help: None, error_code: "sutra::parse".to_string() },
    }
}

fn malformed(src: &SourceContext, msg: &str, span: Span) -> (e: SutraError)
    ensures
        is_parse_error(e, ParseFault::Malformed(msg@, span), *src),
{
    parse_fail(src, ErrorKind::MalformedConstruct { construct: msg.to_string() }, span)
}

fn span_at(cs: &Vec<char>, offs: &Vec<usize>, a: usize, b: usize) -> (r: Span)
    requires
        offs@.len() == cs@.len() + 1,
        forall|i: int| 0 <= i <= cs@.len() ==> #[trigger] offs@[i] == byte_offset(cs@, i),
        a <= cs@.len(),
        b <= cs@.len(),
    ensures
        r == char_span(cs@, a as int, b as int),
{
    let r = Span { start: offs[a], end: offs[b] };
    assert(offs@[a as int] == byte_offset(cs@, a as int));
    assert(offs@[b as int] == byte_offset(cs@, b as int));
    r
}

fn chars_range(cs: &Vec<char>, a: usize, b: usize) -> (r: Vec<char>)
    requires
        a <= b <= cs@.len(),
    ensures
        r@ == cs@.subrange(a as int, b as int),
{
    let mut r: Vec<char> = Vec::new();
    let mut i = a;
    while i < b
        invariant
            a <= i <= b <= cs@.len(),
            r@ == cs@.subrange(a as int, i as int),
        decreases b - i,
    {
        r.push(cs[i]);
        i = i + 1;
        assert(r@ =~= cs@.subrange(a as int, i as int));
    }
    r
}

fn chars_eq_lit(w: &Vec<char>, lit: &str) -> (r: bool)
    ensures
        r == (w@ == lit@),
{
    let st = string_from_chars(w.as_slice());
    str_eq(st.as_str(), lit)
}

fn digits_end_exec(w: &Vec<char>, i: usize) -> (r: usize)
    requires
        i <= w@.len(),
    ensures
        r == digits_end(w@, i as int),
        i <= r <= w@.len(),
{
    let mut j = i;
    while j < w.len() && '0' <= w[j] && w[j] <= '9'
        invariant
            i <= j <= w@.len(),
            digits_end(w@, j as int) == digits_end(w@, i as int),
        decreases w@.len() - j,
    {
        j = j + 1;
    }
    j
}

pub(crate) fn is_number_exec(w: &Vec<char>) -> (r: bool)
    ensures
        r == is_number_text(w@),
{
    let n = w.len();
    let a: usize = if n > 0 && w[0] == '-' { 1 } else { 0 };
    let b = digits_end_exec(w, a);
    if b <= a {
        return false;
    }
    if b == n {
        return true;
    }
    if w[b] != '.' {
        return false;
    }
    let c = digits_end_exec(w, b + 1);
    c > b + 1 && c == n
}

fn is_spread_exec(w: &Vec<char>) -> (r: bool)
    ensures
        r == is_spread_text(w@),
{
    w.len() > 3 && w[0] == '.' && w[1] == '.' && w[2] == '.'
}

fn name_node_exec(w: &Vec<char>, span: Span, src: &SourceContext) -> (r: Result<AstNode, SutraError>)
    ensures
        node_result_is(r, name_node(w@, span), *src),
{
    let name = string_from_chars(w.as_slice());
    let mut has_dot = false;
    let mut i: usize = 0;
    while i < w.len()
        invariant
            i <= w@.len(),
            has_dot == (exists|j: int| 0 <= j < i && w@[j] == '.'),
        decreases w@.len() - i,
    {
        if w[i] == '.' {
            has_dot = true;
        }
        i = i + 1;
    }
    assert(has_dot == w@.contains('.'));
    if !has_dot {
        return Ok(make_node(Expr::Symbol(name, span), span));
    }
    let parts = split_dots_exec(name.as_str());
    let ghost pv = strings_view(parts@);
    assert(pv == split_dots(w@));
    let mut k: usize = 0;
    while k < parts.len()
        invariant
            k <= parts@.len(),
            pv == strings_view(parts@),
            pv == split_dots(w@),
            pv.len() == parts@.len(),
            w@.contains('.'),
            name@ == w@,
            forall|j: int| 0 <= j < k ==> (#[trigger] pv[j]).len() != 0,
        decreases parts@.len() - k,
    {
        assert(pv[k as int] == parts@[k as int]@);
        if parts[k].as_str().is_empty() {
            assert(pv[k as int].len() == 0);
            return Err(parse_fail(src, ErrorKind::InvalidLiteral { literal_type: "path".to_string(), value: name }, span));
        }
        k = k + 1;
    }
    Ok(make_node(Expr::Path(Path(parts), span), span))
}

fn word_node_exec(cs: &Vec<char>, offs: &Vec<usize>, tk: Token, src: &SourceContext) -> (r: Result<AstNode, SutraError>)
    requires
        offs@.len() == cs@.len() + 1,
        forall|i: int| 0 <= i <= cs@.len() ==> #[trigger] offs@[i] == byte_offset(cs@, i),
        tk.start < tk.end <= cs@.len(),
    ensures
        node_result_is(r, word_node(cs@, tk), *src),
{
    let w = chars_range(cs, tk.start, tk.end);
    let span = span_at(cs, offs, tk.start, tk.end);
    if chars_eq_lit(&w, "true") {
        Ok(make_node(Expr::Bool(true, span), span))
    } else if chars_eq_lit(&w, "false") {
        Ok(make_node(Expr::Bool(false, span), span))
    } else if is_number_exec(&w) {
        Ok(make_node(Expr::Number(string_from_chars(w.as_slice()), span), span))
    } else if is_spread_exec(&w) {
        let inner_w = chars_range(cs, tk.start + 3, tk.end);
        assert(inner_w@ =~= w@.skip(3));
        let ispan = span_at(cs, offs, tk.start + 3, tk.end);
        match name_node_exec(&inner_w, ispan, src) {
            Ok(inner) => Ok(make_node(Expr::Spread(Box::new(inner)), span)),
            Err(e) => Err(e),
        }
    } else {
        name_node_exec(&w, span, src)
    }
}

/// Resolves the escapes of the characters `cs[a..b]`.
fn unescape_range(cs: &Vec<char>, a: usize, b: usize) -> (r: String)
    requires
        a <= b <= cs@.len(),
    ensures
        r@ == unescape_spec(cs@.subrange(a as int, b as int)),
{
    let mut out = String::new();
    let mut i = a;
    assert(out@ + unescape_spec(cs@.subrange(a as int, b as int)) =~= unescape_spec(cs@.subrange(a as int, b as int)));
    while i < b
        invariant
            a <= i <= b <= cs@.len(),
            out@ + unescape_spec(cs@.subrange(i as int, b as int)) == unescape_spec(cs@.subrange(a as int, b as int)),
        decreases b - i,
    {
        let ghost w = cs@.subrange(i as int, b as int);
        let ghost before = out@;
        let c = cs[i];
        assert(w[0] == c);
        if c != '\\' {
            push_char(&mut out, c);
            assert(w.drop_first() =~= cs@.subrange(i + 1, b as int));
            assert(before + (seq![c] + unescape_spec(w.drop_first())) =~= out@ + unescape_spec(w.drop_first()));
            i = i + 1;
        } else if i + 1 >= b {
            push_char(&mut out, '\\');
            assert(w.len() == 1);
            assert(cs@.subrange(b as int, b as int) =~= Seq::<char>::empty());
            assert(before + seq!['\\'] =~= out@ + Seq::<char>::empty());
            i = b;
        } else {
            let d = cs[i + 1];
            assert(w[1] == d);
            if d == 'n' {
                push_char(&mut out, '\n');
            } else if d == 't' {
                push_char(&mut out, '\t');
            } else if d == '\\' {
                push_char(&mut out, '\\');
            } else if d == '"' {
                push_char(&mut out, '"');
            } else {
                push_char(&mut out, '\\');
                push_char(&mut out, d);
            }
            assert(w.skip(2) =~= cs@.subrange(i + 2, b as int));
            let ghost head = if d == 'n' {
                seq!['\n']
            } else if d == 't' {
                seq!['\t']
            } else if d == '\\' {
                seq!['\\']
            } else if d == '"' {
                seq!['"']
            } else {
                seq!['\\', d]
            };
            assert(out@ =~= before + head);
            assert(before + (head + unescape_spec(w.skip(2))) =~= out@ + unescape_spec(w.skip(2)));
            i = i + 2;
        }
    }
    assert(cs@.subrange(b as int, b as int) =~= Seq::<char>::empty());
    assert(out@ + Seq::<char>::empty() =~= out@);
    out
}

/// The contents of a string literal `text` (its first and last characters
/// are the quotes, dropped unseen) with its escapes resolved.
pub fn unescape_string(text: &str) -> (r: Result<String, SutraError>)
    requires
        text@.len() >= 2,
        (text@[0] as u32) < 0x80,
        (text@.last() as u32) < 0x80,
    ensures
        r matches Ok(s) && s@ == unescape_spec(text@.subrange(1, text@.len() - 1)),
{
    let cs = chars_of(text);
    Ok(unescape_range(&cs, 1, cs.len() - 1))
}

fn is_param_word_exec(cs: &Vec<char>, tk: Token) -> (r: bool)
    requires
        tk.start <= tk.end <= cs@.len(),
    ensures
        r == is_param_word(cs@, tk),
{
    if tk.kind != TokKind::Word {
        return false;
    }
    let w = chars_range(cs, tk.start, tk.end);
    !is_number_exec(&w) && !chars_eq_lit(&w, "true") && !chars_eq_lit(&w, "false")
}

fn param_close_exec(cs: &Vec<char>, t: &Vec<Token>, j: usize) -> (r: Option<usize>)
    requires
        j <= t@.len(),
        tokens_wf(cs@, t@),
    ensures
        match r {
            Some(pc) => param_close(cs@, t@, j as int) == Some(pc as int) && j <= pc < t@.len()
                && t@[pc as int].kind == TokKind::Close,
            None => param_close(cs@, t@, j as int) is None,
        },
{
    let mut i = j;
    while i < t.len() && t[i].kind != TokKind::Close && is_param_word_exec(cs, t[i])
        invariant
            j <= i <= t@.len(),
            tokens_wf(cs@, t@),
            param_close(cs@, t@, i as int) == param_close(cs@, t@, j as int),
        decreases t@.len() - i,
    {
        i = i + 1;
    }
    if i < t.len() && t[i].kind == TokKind::Close {
        Some(i)
    } else {
        None
    }
}

proof fn lemma_strings_view_push(v: Seq<String>, x: String)
    ensures
        strings_view(v.push(x)) == strings_view(v).push(x@),
{
    assert(strings_view(v.push(x)) =~= strings_view(v).push(x@));
}

fn build_params_exec(cs: &Vec<char>, offs: &Vec<usize>, t: &Vec<Token>, from: usize, to: usize, pspan: Span,
    src: &SourceContext) -> (r: Result<ParamList, SutraError>)
    requires
        reader_ok(cs@, offs@, t@),
        from <= to <= t@.len(),
    ensures
        match (r, build_params(cs@, t@, from as int, to as int, Params { required: Seq::empty(), rest: None, span: pspan })) {
            (Ok(p), Ok(q)) => p@ == q,
            (Err(e), Err(f)) => is_parse_error(e, f, *src),
            _ => false,
        },
{
    let mut required: Vec<String> = Vec::new();
    let mut rest: Option<String> = None;
    let mut i = from;
    assert(strings_view(required@) =~= Seq::<Seq<char>>::empty());
    while i < to
        invariant
            reader_ok(cs@, offs@, t@),
            from <= i <= to <= t@.len(),
            build_params(cs@, t@, i as int, to as int, Params { required: strings_view(required@), rest: opt_string_view(rest), span: pspan })
                == build_params(cs@, t@, from as int, to as int, Params { required: Seq::empty(), rest: None, span: pspan }),
        decreases to - i,
    {
        let tk = t[i];
        assert(tk == t@[i as int]);
        let w = chars_range(cs, tk.start, tk.end);
        let sp = span_at(cs, offs, tk.start, tk.end);
        if is_spread_exec(&w) {
            if rest.is_none() {
                let r = chars_range(cs, tk.start + 3, tk.end);
                assert(r@ =~= w@.skip(3));
                rest = Some(string_from_chars(r.as_slice()));
            } else {
                return Err(parse_fail(src, ErrorKind::InvalidLiteral {
                    literal_type: "parameter".to_string(),
                    value: "spread_arg".to_string(),
                }, sp));
            }
        } else {
            if rest.is_none() {
                let ghost before = required@;
                required.push(string_from_chars(w.as_slice()));
                proof { lemma_strings_view_push(before, required@.last()); assert(before.push(required@.last()) =~= required@); }
            } else {
                return Err(parse_fail(src, ErrorKind::ParameterOrderViolation { rest_span: sp }, sp));
            }
        }
        i = i + 1;
    }
    Ok(ParamList { required, rest, span: pspan })
}

/// Puts `a` in front of the items of a list result.
pub open spec fn cons_items(a: Seq<Node>, r: Result<(Seq<Node>, int), ParseFault>) -> Result<(Seq<Node>, int), ParseFault> {
    match r {
        Ok((ns, kc)) => Ok((a + ns, kc)),
        Err(f) => Err(f),
    }
}

/// Puts `a` in front of the nodes of a result.
pub open spec fn cons_nodes(a: Seq<Node>, r: Result<Seq<Node>, ParseFault>) -> Result<Seq<Node>, ParseFault> {
    match r {
        Ok(ns) => Ok(a + ns),
        Err(f) => Err(f),
    }
}

proof fn lemma_nodes_view_push(v: Seq<AstNode>, n: AstNode)
    ensures
        nodes_view(v.push(n)) == nodes_view(v).push(node_view(n)),
{
    assert(v.push(n).drop_last() =~= v);
}

fn read_expr_exec(cs: &Vec<char>, offs: &Vec<usize>, t: &Vec<Token>, k: usize, src: &SourceContext)
    -> (r: Result<(AstNode, usize), SutraError>)
    requires
        reader_ok(cs@, offs@, t@),
        k <= t@.len(),
    ensures
        read_result_is(r, read_expr(cs@, t@, k as int), *src),
        r matches Ok((_, k2)) ==> k < k2 <= t@.len(),
    decreases t@.len() - k, 1int,
{
    if k >= t.len() {
        let sp = span_at(cs, offs, cs.len(), cs.len());
        return Err(malformed(src, "Syntax error", sp));
    }
    let tk = t[k];
    assert(tk == t@[k as int]);
    match tk.kind {
        TokKind::Open => match special_form_exec(cs, offs, t, k, src) {
            Some(r) => r,
            None => read_list_exec(cs, offs, t, k, false, src),
        },
        TokKind::OpenBrace => read_list_exec(cs, offs, t, k, true, src),
        TokKind::Close => {
            let sp = span_at(cs, offs, tk.start, tk.start);
            Err(malformed(src, "Syntax error", sp))
        },
        TokKind::CloseBrace => {
            let sp = span_at(cs, offs, tk.start, tk.start);
            Err(malformed(src, "Syntax error", sp))
        },
        TokKind::Tick => match read_expr_exec(cs, offs, t, k + 1, src) {
            Ok((n, k2)) => {
                let span = Span { start: offs[tk.start], end: n.span.end };
                assert(offs@[tk.start as int] == byte_offset(cs@, tk.start as int));
                Ok((make_node(Expr::Quote(Box::new(n), span), span), k2))
            },
            Err(e) => Err(e),
        },
        TokKind::Str => {
            let span = span_at(cs, offs, tk.start, tk.end);
            let content = unescape_range(cs, tk.start + 1, tk.end - 1);
            Ok((make_node(Expr::String(content, span), span), k + 1))
        },
        TokKind::Word => match word_node_exec(cs, offs, tk, src) {
            Ok(n) => Ok((n, k + 1)),
            Err(e) => Err(e),
        },
    }
}

fn read_list_exec(cs: &Vec<char>, offs: &Vec<usize>, t: &Vec<Token>, k: usize, brace: bool, src: &SourceContext)
    -> (r: Result<(AstNode, usize), SutraError>)
    requires
        reader_ok(cs@, offs@, t@),
        k < t@.len(),
    ensures
        read_result_is(r, read_list(cs@, t@, k as int, brace), *src),
        r matches Ok((_, k2)) ==> k < k2 <= t@.len(),
    decreases t@.len() - k, 0int,
{
    let cl = if brace { TokKind::CloseBrace } else { TokKind::Close };
    let other = if brace { TokKind::Close } else { TokKind::CloseBrace };
    let msg = if brace { "Missing closing brace" } else { "Missing closing parenthesis" };
    assert(msg@ == missing_closer(brace));
    let mut items: Vec<AstNode> = Vec::new();
    let n_toks = t.len();
    let mut j = k + 1;
    proof {
        let q = read_items(cs@, t@, k + 1, brace);
        if let Ok((ns, kc)) = q {
            assert(Seq::<Node>::empty() + ns =~= ns);
        }
        assert(nodes_view(items@) =~= Seq::<Node>::empty());
    }
    while j < t.len() && t[j].kind != cl
        invariant
            reader_ok(cs@, offs@, t@),
            k < j <= t@.len(),
            cl == closer(brace),
            other == closer(!brace),
            msg@ == missing_closer(brace),
            cons_items(nodes_view(items@), read_items(cs@, t@, j as int, brace)) == read_items(cs@, t@, k + 1, brace),
        decreases t@.len() - j,
    {
        if t[j].kind == other {
            let sp = span_at(cs, offs, t[j].start, t[j].start);
            return Err(malformed(src, msg, sp));
        }
        match read_expr_exec(cs, offs, t, j, src) {
            Err(e) => {
                return Err(e);
            },
            Ok((n, j2)) => {
                proof {
                    let a = nodes_view(items@);
                    lemma_nodes_view_push(items@, n);
                    let q = read_items(cs@, t@, j2 as int, brace);
                    if let Ok((ns, kc)) = q {
                        assert(a.push(node_view(n)) + ns =~= a + (seq![node_view(n)] + ns));
                    }
                }
                items.push(n);
                j = j2;
            },
        }
    }
    if j >= t.len() {
        let sp = span_at(cs, offs, cs.len(), cs.len());
        return Err(malformed(src, msg, sp));
    }
    assert(nodes_view(items@) + Seq::<Node>::empty() =~= nodes_view(items@));
    let span = span_at(cs, offs, t[k].start, t[j].end);
    Ok((make_node(Expr::List(items, span), span), j + 1))
}

fn special_form_exec(cs: &Vec<char>, offs: &Vec<usize>, t: &Vec<Token>, k: usize, src: &SourceContext)
    -> (r: Option<Result<(AstNode, usize), SutraError>>)
    requires
        reader_ok(cs@, offs@, t@),
        k < t@.len(),
    ensures
        match (r, special_form(cs@, t@, k as int)) {
            (None, None) => true,
            (Some(x), Some(q)) => read_result_is(x, q, *src) && (x matches Ok((_, k2)) ==> k < k2 <= t@.len()),
            _ => false,
        },
    decreases t@.len() - k, 0int,
{
    if t.len() - k <= 2 {
        return None;
    }
    if t[k + 1].kind != TokKind::Word || t[k + 2].kind != TokKind::Open {
        return None;
    }
    let head = chars_range(cs, t[k + 1].start, t[k + 1].end);
    let is_def = chars_eq_lit(&head, "define");
    let is_lam = chars_eq_lit(&head, "lambda");
    if !is_def && !is_lam {
        return None;
    }
    let pc = match param_close_exec(cs, t, k + 3) {
        None => {
            return None;
        },
        Some(pc) => pc,
    };
    match read_expr_exec(cs, offs, t, pc + 1, src) {
        Err(_) => None,
        Ok((body, kb)) => {
            if kb >= t.len() || t[kb].kind != TokKind::Close {
                return None;
            }
            let span = span_at(cs, offs, t[k].start, t[kb].end);
            let pspan = span_at(cs, offs, t[k + 2].start, t[pc].end);
            match build_params_exec(cs, offs, t, k + 3, pc, pspan, src) {
                Err(e) => Some(Err(e)),
                Ok(p) => {
                    let name = string_from_chars(head.as_slice());
                    let form = make_node(Expr::Symbol(name, span), span);
                    let pnode = make_node(Expr::ParamList(p), pspan);
                    let ghost bv = node_view(body);
                    let mut items: Vec<AstNode> = Vec::new();
                    items.push(form);
                    items.push(pnode);
                    items.push(body);
                    proof {
                        lemma_nodes_view(items@);
                        assert(nodes_view(items@) =~= seq![node_view(form), node_view(pnode), bv]);
                    }
                    Some(Ok((make_node(Expr::List(items, span), span), kb + 1)))
                },
            }
        },
    }
}

fn read_all_exec(cs: &Vec<char>, offs: &Vec<usize>, t: &Vec<Token>, src: &SourceContext)
    -> (r: Result<Vec<AstNode>, SutraError>)
    requires
        reader_ok(cs@, offs@, t@),
    ensures
        match (r, read_all(cs@, t@, 0)) {
            (Ok(v), Ok(ns)) => nodes_view(v@) == ns,
            (Err(e), Err(f)) => is_parse_error(e, f, *src),
            _ => false,
        },
{
    let mut items: Vec<AstNode> = Vec::new();
    let mut j: usize = 0;
    proof {
        if let Ok(ns) = read_all(cs@, t@, 0) {
            assert(Seq::<Node>::empty() + ns =~= ns);
        }
        assert(nodes_view(items@) =~= Seq::<Node>::empty());
    }
    while j < t.len()
        invariant
            reader_ok(cs@, offs@, t@),
            j <= t@.len(),
            cons_nodes(nodes_view(items@), read_all(cs@, t@, j as int)) == read_all(cs@, t@, 0),
        decreases t@.len() - j,
    {
        match read_expr_exec(cs, offs, t, j, src) {
            Err(e) => {
                return Err(e);
            },
            Ok((n, j2)) => {
                proof {
                    let a = nodes_view(items@);
                    lemma_nodes_view_push(items@, n);
                    if let Ok(ns) = read_all(cs@, t@, j2 as int) {
                        assert(a.push(node_view(n)) + ns =~= a + (seq![node_view(n)] + ns));
                    }
                }
                items.push(n);
                j = j2;
            },
        }
    }
    assert(nodes_view(items@) + Seq::<Node>::empty() =~= nodes_view(items@));
    Ok(items)
}

/// Reads a source text into its top-level nodes. `source_context` names the
/// text in errors: an unclosed string, list or block, a stray closing
/// delimiter, a path with an empty piece, or a misplaced rest parameter.
pub fn parse(source_text: &str, source_context: SourceContext) -> (r: Result<Vec<AstNode>, SutraError>)
    ensures
        match (r, parse_spec(source_text@)) {
            (Ok(v), Ok(ns)) => nodes_view(v@) == ns,
            (Err(e), Err(f)) => is_parse_error(e, f, source_context),
            _ => false,
        },
{
    let cs = chars_of(source_text);
    let total = source_text.as_bytes().len();
    let offs = byte_offsets(&cs, total);
    match lex(&cs) {
        None => {
            let sp = span_at(&cs, &offs, cs.len(), cs.len());
            Err(malformed(&source_context, "Missing closing quote", sp))
        },
        Some(toks) => {
            proof { lemma_lex_wf(cs@, 0); }
            read_all_exec(&cs, &offs, &toks, &source_context)
        },
    }
}

// ---------------------------------------------------------------------------
// Program wrapping
// ---------------------------------------------------------------------------

/// A program as one node: no nodes give an empty list at offset zero, one
/// node is itself, and several are wrapped in `(do ...)` spanning from the
/// first node's start to the last node's end.
pub open spec fn wrap_in_do_spec(ns: Seq<Node>) -> Node {
    if ns.len() == 0 {
        let sp = Span { start: 0, end: 0 };
        Node { term: Term::List(Seq::empty(), sp), span: sp }
    } else if ns.len() == 1 {
        ns[0]
    } else {
        let sp = Span { start: ns[0].span.start, end: ns.last().span.end };
        Node { term: Term::List(seq![sym_node("do"@, sp)] + ns, sp), span: sp }
    }
}

/// Wraps the nodes of a program in a `(do ...)` form when there are several.
pub fn wrap_in_do(nodes: Vec<AstNode>) -> (r: AstNode)
    ensures
        node_view(r) == wrap_in_do_spec(nodes_view(nodes@)),
{
    proof { lemma_nodes_view(nodes@); }
    let n = nodes.len();
    if n == 0 {
        let span = Span { start: 0, end: 0 };
        let items: Vec<AstNode> = Vec::new();
        assert(nodes_view(items@) =~= Seq::<Node>::empty());
        make_node(Expr::List(items, span), span)
    } else if n == 1 {
        let mut nodes = nodes;
        let ghost v = nodes@;
        let r = nodes.pop().unwrap();
        assert(r == v[0]);
        r
    } else {
        let span = Span { start: nodes[0].span.start, end: nodes[n - 1].span.end };
        let do_symbol = make_node(Expr::Symbol("do".to_string(), span), span);
        let ghost before = nodes@;
        let mut items = nodes;
        items.insert(0, do_symbol);
        proof {
            assert(items@ =~= seq![do_symbol] + before);
            crate::ast::lemma_nodes_view_concat(seq![do_symbol], before);
            crate::ast::lemma_nodes_view_single(do_symbol);
        }
        make_node(Expr::List(items, span), span)
    }
}

/// A boolean read back from its printed text is the same boolean: a word
/// token whose text is the printing of `b` reads as `b`, spanning the token.
pub proof fn law_booleans_read_back(b: bool, sp: Span, s: Seq<char>, tk: Token)
    requires
        tok_text(s, tk) == pretty_term(Term::Bool(b, sp)),
    ensures
        word_node(s, tk) == Ok::<Node, ParseFault>(Node { term: Term::Bool(b, tok_span(s, tk)), span: tok_span(s, tk) }),
{
    reveal_strlit("true");
    reveal_strlit("false");
    assert("true"@[0] != "false"@[0]);
}

/// A number prints as it was written, and reads back from that text as the
/// same number, spanning the token.
pub proof fn law_numbers_read_back(t: Seq<char>, sp: Span, s: Seq<char>, tk: Token)
    requires
        is_number_text(t),
        tok_text(s, tk) == pretty_term(Term::Number(t, sp)),
    ensures
        pretty_term(Term::Number(t, sp)) == t,
        word_node(s, tk) == Ok::<Node, ParseFault>(Node { term: Term::Number(t, tok_span(s, tk)), span: tok_span(s, tk) }),
{
    reveal_strlit("true");
    reveal_strlit("false");
    let a: int = if t.len() > 0 && t[0] == '-' { 1 } else { 0 };
    assert(digits_end(t, a) > a);
    assert(is_digit(t[a]));
    assert(t != "true"@) by {
        if t == "true"@ {
            assert(t[0] == 't');
        }
    }
    assert(t != "false"@) by {
        if t == "false"@ {
            assert(t[0] == 'f');
        }
    }
}

} // verus!
