//! The first stage of the reader: source characters to tokens.
//!
//! Positions are character indices into the source; `byte_offset` turns
//! them into the byte offsets that spans use.
use vstd::prelude::*;
use vstd::utf8::{encode_utf8, encode_scalar};

verus! {

// ---------------------------------------------------------------------------
// Byte offsets
// ---------------------------------------------------------------------------

/// The byte offset of character `i` in `s`: the length of the UTF-8
/// encoding of the characters before it.
pub open spec fn byte_offset(s: Seq<char>, i: int) -> nat {
    encode_utf8(s.take(i)).len()
}

/// The number of bytes in the UTF-8 encoding of `c`.
pub open spec fn utf8_width(c: char) -> nat {
    encode_scalar(c as u32).len()
}

proof fn lemma_encode_concat(a: Seq<char>, b: Seq<char>)
    ensures
        encode_utf8(a + b) == encode_utf8(a) + encode_utf8(b),
    decreases a.len(),
{
    if a.len() == 0 {
        assert(a + b =~= b);
        assert(encode_utf8(a) =~= Seq::<u8>::empty());
        assert(encode_utf8(a) + encode_utf8(b) =~= encode_utf8(b));
    } else {
        assert((a + b).drop_first() =~= a.drop_first() + b);
        assert((a + b)[0] == a[0]);
        lemma_encode_concat(a.drop_first(), b);
        assert(encode_utf8(a + b) =~= encode_utf8(a) + encode_utf8(b));
    }
}

proof fn lemma_encode_single(c: char)
    ensures
        encode_utf8(seq![c]) == encode_scalar(c as u32),
{
    assert(seq![c].drop_first() =~= Seq::<char>::empty());
    assert(encode_utf8(Seq::<char>::empty()) =~= Seq::<u8>::empty());
    assert(encode_utf8(seq![c]) =~= encode_scalar(c as u32) + encode_utf8(Seq::<char>::empty()));
}

/// Byte offsets grow by the width of each character.
pub proof fn lemma_byte_offset_step(s: Seq<char>, i: int)
    requires
        0 <= i < s.len(),
    ensures
        byte_offset(s, i + 1) == byte_offset(s, i) + utf8_width(s[i]),
{
    assert(s.take(i + 1) =~= s.take(i) + seq![s[i]]);
    lemma_encode_concat(s.take(i), seq![s[i]]);
    lemma_encode_single(s[i]);
}

/// Byte offsets are monotonic and bounded by the full encoding.
pub proof fn lemma_byte_offset_le(s: Seq<char>, i: int, j: int)
    requires
        0 <= i <= j <= s.len(),
    ensures
        byte_offset(s, i) <= byte_offset(s, j),
        byte_offset(s, j) <= encode_utf8(s).len(),
{
    assert(s.take(j) =~= s.take(i) + s.subrange(i, j));
    lemma_encode_concat(s.take(i), s.subrange(i, j));
    assert(s =~= s.take(j) + s.skip(j));
    lemma_encode_concat(s.take(j), s.skip(j));
}

fn char_width(c: char) -> (w: usize)
    ensures
        w == utf8_width(c),
        1 <= w <= 4,
{
    let v = c as u32;
    proof { vstd::utf8::char_is_scalar(c); }
    if v <= 0x7F {
        1
    } else if v <= 0x7FF {
        2
    } else if v <= 0xFFFF {
        3
    } else {
        4
    }
}

/// The byte offset of every character position `0..=cs.len()`; `total` is
/// the byte length of the text.
pub fn byte_offsets(cs: &Vec<char>, total: usize) -> (r: Vec<usize>)
    requires
        total == encode_utf8(cs@).len(),
    ensures
        r@.len() == cs@.len() + 1,
        forall|i: int| 0 <= i <= cs@.len() ==> #[trigger] r@[i] == byte_offset(cs@, i),
{
    let mut r: Vec<usize> = Vec::new();
    let mut acc: usize = 0;
    let mut i: usize = 0;
    assert(cs@.take(0) =~= Seq::<char>::empty());
    assert(encode_utf8(Seq::<char>::empty()) =~= Seq::<u8>::empty());
    while i < cs.len()
        invariant
            i <= cs@.len(),
            total == encode_utf8(cs@).len(),
            r@.len() == i,
            acc == byte_offset(cs@, i as int),
            forall|j: int| 0 <= j < i ==> #[trigger] r@[j] == byte_offset(cs@, j),
        decreases cs@.len() - i,
    {
        r.push(acc);
        proof {
            lemma_byte_offset_step(cs@, i as int);
            lemma_byte_offset_le(cs@, i + 1, cs@.len() as int);
        }
        let w = char_width(cs[i]);
        acc = acc + w;
        i = i + 1;
    }
    r.push(acc);
    r
}

// ---------------------------------------------------------------------------
// Tokens
// ---------------------------------------------------------------------------

/// The kinds of token.
#[derive(Debug, Clone, Copy, PartialEq, Eq, Structural)]
pub enum TokKind {
    Open,
    Close,
    OpenBrace,
    CloseBrace,
    Tick,
    Str,
    Word,
}

/// A token: its kind and the character range `[start, end)` it covers.
#[derive(Debug, Clone, Copy, PartialEq, Eq, Structural)]
pub struct Token {
    pub kind: TokKind,
    pub start: usize,
    pub end: usize,
}

/// White space between tokens.
pub open spec fn is_space(c: char) -> bool {
    c == ' ' || c == '\t' || c == '\n' || c == '\r'
}

/// A single-character token.
pub open spec fn is_punct(c: char) -> bool {
    c == '(' || c == ')' || c == '{' || c == '}' || c == '\''
}

/// A character that ends a word.
pub open spec fn is_delimiter(c: char) -> bool {
    is_space(c) || is_punct(c) || c == '"' || c == ';'
}

/// The kind of the single-character token `c`.
pub open spec fn punct_kind(c: char) -> TokKind {
    if c == '(' {
        TokKind::Open
    } else if c == ')' {
        TokKind::Close
    } else if c == '{' {
        TokKind::OpenBrace
    } else if c == '}' {
        TokKind::CloseBrace
    } else {
        TokKind::Tick
    }
}

/// The end of the word that starts at `i`.
pub open spec fn word_end(s: Seq<char>, i: int) -> int
    decreases s.len() - i,
{
    if 0 <= i < s.len() && !is_delimiter(s[i]) { word_end(s, i + 1) } else { i }
}

/// The end of a comment whose text starts at `i`: the next newline, or the
/// end of the text.
pub open spec fn comment_end(s: Seq<char>, i: int) -> int
    decreases s.len() - i,
{
    if 0 <= i < s.len() && s[i] != '\n' { comment_end(s, i + 1) } else { i }
}

/// The position just after the closing quote of a string literal whose
/// contents start at `i`; a backslash escapes the character after it.
/// `None` when the text ends first.
pub open spec fn string_end(s: Seq<char>, i: int) -> Option<int>
    decreases s.len() - i,
{
    if i < 0 || i >= s.len() {
        None
    } else if s[i] == '"' {
        Some(i + 1)
    } else if s[i] == '\\' {
        if i + 1 < s.len() { string_end(s, i + 2) } else { None }
    } else {
        string_end(s, i + 1)
    }
}

pub proof fn lemma_word_end(s: Seq<char>, i: int)
    requires
        0 <= i <= s.len(),
    ensures
        i <= word_end(s, i) <= s.len(),
        i < s.len() && !is_delimiter(s[i]) ==> word_end(s, i) > i,
        forall|j: int| i <= j < word_end(s, i) ==> !is_delimiter(#[trigger] s[j]),
        word_end(s, i) < s.len() ==> is_delimiter(s[word_end(s, i)]),
    decreases s.len() - i,
{
    if i < s.len() && !is_delimiter(s[i]) {
        lemma_word_end(s, i + 1);
    }
}

pub proof fn lemma_comment_end(s: Seq<char>, i: int)
    requires
        0 <= i <= s.len(),
    ensures
        i <= comment_end(s, i) <= s.len(),
    decreases s.len() - i,
{
    if i < s.len() && s[i] != '\n' {
        lemma_comment_end(s, i + 1);
    }
}

pub proof fn lemma_string_end(s: Seq<char>, i: int)
    ensures
        string_end(s, i) matches Some(e) ==> 0 <= i < e <= s.len() && s[e - 1] == '"',
    decreases s.len() - i,
{
    if 0 <= i < s.len() && s[i] != '"' {
        if s[i] == '\\' {
            if i + 1 < s.len() {
                lemma_string_end(s, i + 2);
            }
        } else {
            lemma_string_end(s, i + 1);
        }
    }
}

/// Puts `t` in front of a token sequence, if there is one.
pub open spec fn cons_token(t: Token, rest: Option<Seq<Token>>) -> Option<Seq<Token>> {
    match rest {
        Some(ts) => Some(seq![t] + ts),
        None => None,
    }
}

/// The tokens of `s` from position `i` on; `None` when a string literal is
/// not closed. White space separates tokens; `;` starts a comment that runs
/// to the end of the line.
pub open spec fn lex_from(s: Seq<char>, i: int) -> Option<Seq<Token>>
    decreases s.len() - i,
{
    if i < 0 || i >= s.len() {
        Some(Seq::empty())
    } else {
        let c = s[i];
        if is_space(c) {
            lex_from(s, i + 1)
        } else if c == ';' {
            proof { lemma_comment_end(s, i + 1); }
            lex_from(s, comment_end(s, i + 1))
        } else if is_punct(c) {
            cons_token(Token { kind: punct_kind(c), start: i as usize, end: (i + 1) as usize }, lex_from(s, i + 1))
        } else if c == '"' {
            proof { lemma_string_end(s, i + 1); }
            match string_end(s, i + 1) {
                None => None,
                Some(e) => cons_token(Token { kind: TokKind::Str, start: i as usize, end: e as usize }, lex_from(s, e)),
            }
        } else {
            proof { lemma_word_end(s, i); }
            let e = word_end(s, i);
            cons_token(Token { kind: TokKind::Word, start: i as usize, end: e as usize }, lex_from(s, e))
        }
    }
}

/// The tokens of `s`, or `None` when a string literal is not closed.
pub open spec fn lex_spec(s: Seq<char>) -> Option<Seq<Token>> {
    lex_from(s, 0)
}

/// Every token lies inside the text, is non-empty, and tokens come in order.
pub open spec fn tokens_wf(s: Seq<char>, t: Seq<Token>) -> bool {
    &&& forall|k: int| 0 <= k < t.len() ==> #[trigger] t[k].start < t[k].end <= s.len()
    &&& forall|k: int| 0 <= k < t.len() ==> (#[trigger] t[k]).kind == TokKind::Str ==> s[t[k].start as int] == '"'
        && s[t[k].end - 1] == '"' && t[k].end - t[k].start >= 2
    &&& forall|k: int| 0 <= k < t.len() ==> (#[trigger] t[k]).kind == TokKind::Word ==>
        forall|j: int| t[k].start <= j < t[k].end ==> !is_delimiter(#[trigger] s[j])
    &&& forall|k: int| 0 <= k < t.len() ==> (#[trigger] t[k]).kind != TokKind::Str && (#[trigger] t[k]).kind != TokKind::Word
        ==> t[k].end == t[k].start + 1 && t[k].kind == punct_kind(s[t[k].start as int]) && is_punct(s[t[k].start as int])
}

fn is_space_exec(c: char) -> (r: bool)
    ensures
        r == is_space(c),
{
    c == ' ' || c == '\t' || c == '\n' || c == '\r'
}

pub(crate) fn is_delimiter_exec(c: char) -> (r: bool)
    ensures
        r == is_delimiter(c),
{
    is_space_exec(c) || c == '(' || c == ')' || c == '{' || c == '}' || c == '\'' || c == '"' || c == ';'
}

fn scan_word(cs: &Vec<char>, i: usize) -> (e: usize)
    requires
        i <= cs@.len(),
    ensures
        e == word_end(cs@, i as int),
{
    let mut j = i;
    while j < cs.len() && !is_delimiter_exec(cs[j])
        invariant
            i <= j <= cs@.len(),
            word_end(cs@, j as int) == word_end(cs@, i as int),
        decreases cs@.len() - j,
    {
        j = j + 1;
    }
    j
}

fn scan_comment(cs: &Vec<char>, i: usize) -> (e: usize)
    requires
        i <= cs@.len(),
    ensures
        e == comment_end(cs@, i as int),
{
    let mut j = i;
    while j < cs.len() && cs[j] != '\n'
        invariant
            i <= j <= cs@.len(),
            comment_end(cs@, j as int) == comment_end(cs@, i as int),
        decreases cs@.len() - j,
    {
        j = j + 1;
    }
    j
}

fn scan_string(cs: &Vec<char>, i: usize) -> (r: Option<usize>)
    requires
        i <= cs@.len(),
    ensures
        match r {
            Some(e) => string_end(cs@, i as int) == Some(e as int),
            None => string_end(cs@, i as int) is None,
        },
{
    let mut j = i;
    while j < cs.len()
        invariant
            i <= j <= cs@.len() + 1,
            j <= cs@.len() ==> string_end(cs@, j as int) == string_end(cs@, i as int),
            j > cs@.len() ==> string_end(cs@, i as int) is None,
        decreases cs@.len() + 1 - j,
    {
        if cs[j] == '"' {
            return Some(j + 1);
        } else if cs[j] == '\\' {
            if j + 1 < cs.len() {
                j = j + 2;
            } else {
                return None;
            }
        } else {
            j = j + 1;
        }
    }
    None
}

fn punct_kind_exec(c: char) -> (k: TokKind)
    ensures
        k == punct_kind(c),
{
    if c == '(' {
        TokKind::Open
    } else if c == ')' {
        TokKind::Close
    } else if c == '{' {
        TokKind::OpenBrace
    } else if c == '}' {
        TokKind::CloseBrace
    } else {
        TokKind::Tick
    }
}

/// The tokens of a source text given as characters.
pub fn lex(cs: &Vec<char>) -> (r: Option<Vec<Token>>)
    ensures
        match r {
            Some(v) => lex_spec(cs@) == Some(v@),
            None => lex_spec(cs@) is None,
        },
{
    let mut toks: Vec<Token> = Vec::new();
    let mut i: usize = 0;
    assert(Seq::<Token>::empty() + lex_from(cs@, 0)->0 =~= lex_from(cs@, 0)->0);
    while i < cs.len()
        invariant
            i <= cs@.len(),
            cons_all(toks@, lex_from(cs@, i as int)) == lex_from(cs@, 0),
        decreases cs@.len() - i,
    {
        let c = cs[i];
        if is_space_exec(c) {
            i = i + 1;
        } else if c == ';' {
            proof { lemma_comment_end(cs@, i + 1); }
            i = scan_comment(cs, i + 1);
        } else if c == '(' || c == ')' || c == '{' || c == '}' || c == '\'' {
            let t = Token { kind: punct_kind_exec(c), start: i, end: i + 1 };
            proof { lemma_cons_all_push(toks@, t, lex_from(cs@, i + 1)); }
            toks.push(t);
            i = i + 1;
        } else if c == '"' {
            proof { lemma_string_end(cs@, i + 1); }
            match scan_string(cs, i + 1) {
                None => {
                    return None;
                },
                Some(e) => {
                    let t = Token { kind: TokKind::Str, start: i, end: e };
                    proof { lemma_cons_all_push(toks@, t, lex_from(cs@, e as int)); }
                    toks.push(t);
                    i = e;
                },
            }
        } else {
            proof { lemma_word_end(cs@, i as int); }
            let e = scan_word(cs, i);
            let t = Token { kind: TokKind::Word, start: i, end: e };
            proof { lemma_cons_all_push(toks@, t, lex_from(cs@, e as int)); }
            toks.push(t);
            i = e;
        }
    }
    assert(toks@ + Seq::<Token>::empty() =~= toks@);
    Some(toks)
}

/// Puts all of `a` in front of a token sequence, if there is one.
pub open spec fn cons_all(a: Seq<Token>, rest: Option<Seq<Token>>) -> Option<Seq<Token>> {
    match rest {
        Some(ts) => Some(a + ts),
        None => None,
    }
}

proof fn lemma_cons_all_push(a: Seq<Token>, t: Token, rest: Option<Seq<Token>>)
    ensures
        cons_all(a.push(t), rest) == cons_all(a, cons_token(t, rest)),
{
    if let Some(ts) = rest {
        assert(a.push(t) + ts =~= a + (seq![t] + ts));
    }
}

/// The tokens of a lexed text are well formed.
pub proof fn lemma_lex_wf(s: Seq<char>, i: int)
    requires
        0 <= i <= s.len(),
        s.len() <= usize::MAX,
    ensures
        lex_from(s, i) matches Some(t) ==> tokens_wf(s, t) && forall|k: int| 0 <= k < t.len() ==> i <= #[trigger] t[k].start,
    decreases s.len() - i,
{
    if i < s.len() {
        let c = s[i];
        if is_space(c) {
            lemma_lex_wf(s, i + 1);
        } else if c == ';' {
            lemma_comment_end(s, i + 1);
            lemma_lex_wf(s, comment_end(s, i + 1));
        } else if is_punct(c) {
            lemma_lex_wf(s, i + 1);
            if let Some(ts) = lex_from(s, i + 1) {
                let t = seq![Token { kind: punct_kind(c), start: i as usize, end: (i + 1) as usize }] + ts;
                assert forall|k: int| 0 <= k < t.len() implies i <= #[trigger] t[k].start by {
                    if k > 0 { assert(t[k] == ts[k - 1]); }
                }
                assert(tokens_wf(s, t)) by {
                    assert forall|k: int| 1 <= k < t.len() implies #[trigger] t[k] == ts[k - 1] by {}
                }
            }
        } else if c == '"' {
            lemma_string_end(s, i + 1);
            if let Some(e) = string_end(s, i + 1) {
                lemma_lex_wf(s, e);
                if let Some(ts) = lex_from(s, e) {
                    let t = seq![Token { kind: TokKind::Str, start: i as usize, end: e as usize }] + ts;
                    assert forall|k: int| 0 <= k < t.len() implies i <= #[trigger] t[k].start by {
                        if k > 0 { assert(t[k] == ts[k - 1]); }
                    }
                    assert(tokens_wf(s, t)) by {
                        assert forall|k: int| 1 <= k < t.len() implies #[trigger] t[k] == ts[k - 1] by {}
                    }
                }
            }
        } else {
            lemma_word_end(s, i);
            let e = word_end(s, i);
            lemma_lex_wf(s, e);
            if let Some(ts) = lex_from(s, e) {
                let t = seq![Token { kind: TokKind::Word, start: i as usize, end: e as usize }] + ts;
                assert forall|k: int| 0 <= k < t.len() implies i <= #[trigger] t[k].start by {
                    if k > 0 { assert(t[k] == ts[k - 1]); }
                }
                assert(tokens_wf(s, t)) by {
                    assert forall|k: int| 1 <= k < t.len() implies #[trigger] t[k] == ts[k - 1] by {}
                }
            }
        }
    }
}

} // verus!
