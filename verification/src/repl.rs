//! Pure helpers of the interactive shell.
use vstd::prelude::*;
use crate::text::{chars_of, trim_chars, trim_spec};

verus! {

/// The state of a scan for balanced parentheses: the nesting depth, whether
/// the scan is inside a string literal, and whether the next character is
/// escaped.
pub struct ScanState {
    pub depth: int,
    pub in_string: bool,
    pub escape_next: bool,
}

/// The scan state after reading `s`: parentheses count only outside string
/// literals, and a backslash inside a string escapes the next character.
pub open spec fn scan(s: Seq<char>) -> ScanState
    decreases s.len(),
{
    if s.len() == 0 {
        ScanState { depth: 0, in_string: false, escape_next: false }
    } else {
        let st = scan(s.drop_last());
        let ch = s.last();
        if st.escape_next {
            ScanState { depth: st.depth, in_string: st.in_string, escape_next: false }
        } else if ch == '\\' && st.in_string {
            ScanState { depth: st.depth, in_string: st.in_string, escape_next: true }
        } else if ch == '"' {
            ScanState { depth: st.depth, in_string: !st.in_string, escape_next: false }
        } else if ch == '(' && !st.in_string {
            ScanState { depth: st.depth + 1, in_string: false, escape_next: false }
        } else if ch == ')' && !st.in_string {
            ScanState { depth: st.depth - 1, in_string: false, escape_next: false }
        } else {
            st
        }
    }
}

/// An input is complete when, without surrounding white space, it is not
/// empty, its parentheses balance and no string literal is left open.
pub open spec fn complete_spec(input: Seq<char>) -> bool {
    let t = trim_spec(input);
    t.len() > 0 && scan(t).depth == 0 && !scan(t).in_string
}

/// Whether the input holds a complete expression, so that the shell can
/// evaluate it rather than read another line.
pub fn is_complete_expression(input: &str) -> (r: bool)
    ensures
        r == complete_spec(input@),
{
    let all = chars_of(input);
    let trimmed = trim_chars(all.as_slice());
    if trimmed.len() == 0 {
        return false;
    }
    let mut opens: usize = 0;
    let mut closes: usize = 0;
    let mut in_string = false;
    let mut escape_next = false;
    let mut i: usize = 0;
    while i < trimmed.len()
        invariant
            i <= trimmed@.len(),
            opens <= i,
            closes <= i,
            scan(trimmed@.take(i as int)) == (ScanState { depth: opens - closes, in_string, escape_next }),
        decreases trimmed@.len() - i,
    {
        let ch = trimmed[i];
        proof {
            assert(trimmed@.take(i + 1).drop_last() =~= trimmed@.take(i as int));
            assert(trimmed@.take(i + 1).last() == ch);
        }
        if escape_next {
            escape_next = false;
        } else if ch == '\\' && in_string {
            escape_next = true;
        } else if ch == '"' {
            in_string = !in_string;
        } else if ch == '(' && !in_string {
            opens = opens + 1;
        } else if ch == ')' && !in_string {
            closes = closes + 1;
        }
        i = i + 1;
    }
    proof { assert(trimmed@.take(trimmed@.len() as int) =~= trimmed@); }
    opens == closes && !in_string
}

} // verus!
