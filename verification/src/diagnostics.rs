//! Presentation helpers for diagnostics: error classes, the visual layout
//! of source lines (tabs expanded to stops of four columns), and the pointer
//! line drawn under a highlighted span.
use vstd::prelude::*;
use crate::ast::strings_view;
use crate::text::{push_char, push_str};
use unicode_segmentation::UnicodeSegmentation;

verus! {

/// The broad class of an error, as test expectations name it.
#[derive(Debug, Clone, Copy, PartialEq, Eq, Hash)]
pub enum ErrorType {
    Parse,
    Validation,
    Eval,
    TypeError,
    Internal,
    TestFailure,
}

impl ErrorType {
    /// The name of this class.
    pub fn as_str(&self) -> (r: &'static str)
        ensures
            r@ == match *self {
                ErrorType::Parse => "Parse"@,
                ErrorType::Validation => "Validation"@,
                ErrorType::Eval => "Eval"@,
                ErrorType::TypeError => "TypeError"@,
                ErrorType::Internal => "Internal"@,
                ErrorType::TestFailure => "TestFailure"@,
            },
    {
        match self {
            ErrorType::Parse => "Parse",
            ErrorType::Validation => "Validation",
            ErrorType::Eval => "Eval",
            ErrorType::TypeError => "TypeError",
            ErrorType::Internal => "Internal",
            ErrorType::TestFailure => "TestFailure",
        }
    }
}

// ---------------------------------------------------------------------------
// Visual layout
// ---------------------------------------------------------------------------

/// The width of a tab stop.
pub const TAB_WIDTH: usize = 4;

/// The extended grapheme clusters of a text (`UnicodeSegmentation::graphemes`
/// with `is_extended` set).
pub uninterp spec fn grapheme_clusters(s: Seq<char>) -> Seq<Seq<char>>;

/// The pieces of `ss` written one after another.
pub open spec fn concat(ss: Seq<Seq<char>>) -> Seq<char>
    decreases ss.len(),
{
    if ss.len() == 0 { Seq::empty() } else { concat(ss.drop_last()) + ss.last() }
}

/// The grapheme clusters of `s` (`unicode_segmentation`'s `graphemes(true)`).
/// The crate yields the substrings between consecutive cluster boundaries
/// from the start to the end of the text, so the clusters are non-empty and
/// together spell `s`; where the boundaries fall is left to the name.
#[verifier::external_body]
fn graphemes_of(s: &str) -> (r: Vec<String>)
    ensures
        strings_view(r@) == grapheme_clusters(s@),
        concat(strings_view(r@)) == s@,
        forall|i: int| 0 <= i < r@.len() ==> (#[trigger] r@[i])@.len() > 0,
{
    s.graphemes(true).map(|g: &str| g.to_string()).collect()
}

/// The column after a cluster `g` that starts at column `col` (columns
/// count from one): a tab moves to the next tab stop, anything else takes
/// one column.
pub open spec fn advance(col: nat, g: Seq<char>) -> nat {
    if g == seq!['\t'] { (col + 4 - ((col - 1) as nat % 4)) as nat } else { col + 1 }
}

/// The column after the clusters `gs`, starting from column one.
pub open spec fn visual_col(gs: Seq<Seq<char>>) -> nat
    decreases gs.len(),
{
    if gs.len() == 0 { 1 } else { advance(visual_col(gs.drop_last()), gs.last()) }
}

/// `s` without its trailing newlines.
pub open spec fn trim_newlines(s: Seq<char>) -> Seq<char>
    decreases s.len(),
{
    if s.len() > 0 && s.last() == '\n' { trim_newlines(s.drop_last()) } else { s }
}

/// The visual length of a line: the columns its text takes, tabs expanded,
/// trailing newlines ignored.
pub open spec fn visual_len_of(text: Seq<char>) -> nat {
    (visual_col(grapheme_clusters(trim_newlines(text))) - 1) as nat
}

/// A line of source text (which may end in a newline) and its visual length.
pub struct VisualLine {
    pub text: String,
    pub visual_len: usize,
}

proof fn lemma_concat_len(ss: Seq<Seq<char>>)
    requires
        forall|i: int| 0 <= i < ss.len() ==> (#[trigger] ss[i]).len() > 0,
    ensures
        ss.len() <= concat(ss).len(),
    decreases ss.len(),
{
    if ss.len() > 0 {
        assert forall|i: int| 0 <= i < ss.drop_last().len() implies (#[trigger] ss.drop_last()[i]).len() > 0 by {
            assert(ss.drop_last()[i] == ss[i]);
        }
        lemma_concat_len(ss.drop_last());
    }
}

impl VisualLine {
    /// The line `text` with its visual length.
    pub fn new(text: &str) -> (r: VisualLine)
        requires
            text@.len() < usize::MAX / 4,
        ensures
            r.text@ == text@,
            r.visual_len == visual_len_of(text@),
    {
        let cs = crate::text::chars_of(text);
        let mut end = cs.len();
        assert(cs@.subrange(0, end as int) =~= cs@);
        while end > 0 && cs[end - 1] == '\n'
            invariant
                end <= cs@.len(),
                cs@ == text@,
                trim_newlines(cs@.subrange(0, end as int)) == trim_newlines(text@),
            decreases end,
        {
            assert(cs@.subrange(0, end as int).drop_last() =~= cs@.subrange(0, end - 1));
            end = end - 1;
        }
        let content = crate::text::string_from_chars(&cs.as_slice()[0..end]);
        proof {
            assert(cs@.subrange(0, end as int) == content@);
            assert(trim_newlines(content@) == content@);
        }
        let gs = graphemes_of(content.as_str());
        proof {
            lemma_concat_len(strings_view(gs@));
            assert forall|i: int| 0 <= i < strings_view(gs@).len() implies (#[trigger] strings_view(gs@)[i]).len() > 0 by {
                assert(strings_view(gs@)[i] == gs@[i]@);
            }
        }
        let mut col: usize = 1;
        let mut i: usize = 0;
        while i < gs.len()
            invariant
                i <= gs@.len(),
                gs@.len() <= content@.len(),
                content@.len() < usize::MAX / 4,
                col == visual_col(strings_view(gs@).subrange(0, i as int)),
                col <= 1 + 4 * i,
            decreases gs@.len() - i,
        {
            let ghost pre = strings_view(gs@).subrange(0, i as int);
            assert(strings_view(gs@).subrange(0, i + 1).drop_last() =~= pre);
            assert(strings_view(gs@).subrange(0, i + 1).last() == gs@[i as int]@);
            let is_tab = crate::text::str_eq(gs[i].as_str(), "\t");
            proof {
                reveal_strlit("\t");
                assert("\t"@ =~= seq!['\t']);
            }
            if is_tab {
                col = col + TAB_WIDTH - ((col - 1) % TAB_WIDTH);
            } else {
                col = col + 1;
            }
            i = i + 1;
        }
        assert(strings_view(gs@).subrange(0, i as int) =~= strings_view(gs@));
        VisualLine { text: text.to_string(), visual_len: col - 1 }
    }
}

/// The lines of `s` with their newlines kept, reading on with the unfinished
/// line `cur` after the complete lines `acc`.
pub open spec fn layout_pieces(s: Seq<char>, cur: Seq<char>, acc: Seq<Seq<char>>) -> Seq<Seq<char>>
    decreases s.len(),
{
    if s.len() == 0 {
        if cur.len() == 0 { acc } else { acc.push(cur) }
    } else if s[0] == '\n' {
        layout_pieces(s.drop_first(), Seq::empty(), acc.push(cur.push('\n')))
    } else {
        layout_pieces(s.drop_first(), cur.push(s[0]), acc)
    }
}

/// The lines of a source for display: one empty line for an empty source,
/// else each line with its newline.
pub open spec fn layout_lines(s: Seq<char>) -> Seq<Seq<char>> {
    if s.len() == 0 { seq![Seq::empty()] } else { layout_pieces(s, Seq::empty(), Seq::empty()) }
}

/// How many newlines `s` holds.
pub open spec fn count_newlines(s: Seq<char>) -> nat
    decreases s.len(),
{
    if s.len() == 0 {
        0
    } else {
        (if s[0] == '\n' { 1nat } else { 0nat }) + count_newlines(s.drop_first())
    }
}

/// A display line: non-empty, with a newline at most at its end.
pub open spec fn is_display_line(l: Seq<char>) -> bool {
    &&& l.len() > 0
    &&& forall|j: int| 0 <= j < l.len() - 1 ==> l[j] != '\n'
}

proof fn lemma_layout_pieces(s: Seq<char>, cur: Seq<char>, acc: Seq<Seq<char>>)
    requires
        forall|j: int| 0 <= j < cur.len() ==> cur[j] != '\n',
        forall|i: int| 0 <= i < acc.len() ==> is_display_line(#[trigger] acc[i]),
    ensures
        concat(layout_pieces(s, cur, acc)) == concat(acc) + cur + s,
        forall|i: int| 0 <= i < layout_pieces(s, cur, acc).len() ==> is_display_line(#[trigger] layout_pieces(s, cur, acc)[i]),
        layout_pieces(s, cur, acc).len() == acc.len() + count_newlines(s)
            + (if (cur + s).len() > 0 && (cur + s).last() != '\n' { 1nat } else { 0nat }),
    decreases s.len(),
{
    if s.len() == 0 {
        assert(cur + s =~= cur);
        if cur.len() > 0 {
            assert(acc.push(cur).drop_last() =~= acc);
            assert(concat(acc.push(cur)) == concat(acc) + cur);
            assert(is_display_line(cur));
            assert forall|i: int| 0 <= i < acc.push(cur).len() implies is_display_line(#[trigger] acc.push(cur)[i]) by {
                if i < acc.len() { assert(acc.push(cur)[i] == acc[i]); }
            }
        }
        assert(concat(acc) + cur + s =~= concat(acc) + cur);
    } else if s[0] == '\n' {
        let line = cur.push('\n');
        assert(is_display_line(line));
        let acc2 = acc.push(line);
        assert forall|i: int| 0 <= i < acc2.len() implies is_display_line(#[trigger] acc2[i]) by {
            if i < acc.len() { assert(acc2[i] == acc[i]); }
        }
        lemma_layout_pieces(s.drop_first(), Seq::empty(), acc2);
        assert(acc2.drop_last() =~= acc);
        assert(concat(acc2) == concat(acc) + line);
        assert(concat(acc2) + Seq::<char>::empty() + s.drop_first() =~= concat(acc) + cur + s);
        assert(Seq::<char>::empty() + s.drop_first() =~= s.drop_first());
        if s.drop_first().len() > 0 {
            assert((cur + s).last() == s.drop_first().last());
        } else {
            assert((cur + s).last() == '\n');
        }
    } else {
        let cur2 = cur.push(s[0]);
        lemma_layout_pieces(s.drop_first(), cur2, acc);
        assert(concat(acc) + cur2 + s.drop_first() =~= concat(acc) + cur + s);
        assert(cur2 + s.drop_first() =~= cur + s);
    }
}

/// The lines of a layout: one empty line for an empty source; else they
/// are non-empty, hold a newline at most at their end, spell the source in
/// order, and there are as many as the source has newlines, plus one when
/// it does not end in a newline.
pub proof fn law_layout_lines(s: Seq<char>)
    ensures
        s.len() == 0 ==> layout_lines(s) == seq![Seq::<char>::empty()],
        s.len() > 0 ==> concat(layout_lines(s)) == s,
        s.len() > 0 ==> forall|i: int| 0 <= i < layout_lines(s).len() ==> is_display_line(#[trigger] layout_lines(s)[i]),
        s.len() > 0 ==> layout_lines(s).len() == count_newlines(s) + (if s.last() != '\n' { 1nat } else { 0nat }),
{
    if s.len() > 0 {
        lemma_layout_pieces(s, Seq::empty(), Seq::empty());
        assert(concat(Seq::<Seq<char>>::empty()) + Seq::<char>::empty() + s =~= s);
        assert(Seq::<char>::empty() + s =~= s);
    }
}

/// The visual layout of a source text, line by line.
pub struct VisualLayout {
    pub lines: Vec<VisualLine>,
}

/// The lines of the layout are those of `s`, each with its visual length.
pub open spec fn is_layout_of(lines: Seq<VisualLine>, s: Seq<char>) -> bool {
    &&& lines.len() == layout_lines(s).len()
    &&& forall|i: int| 0 <= i < lines.len() ==> (#[trigger] lines[i]).text@ == layout_lines(s)[i]
        && lines[i].visual_len == visual_len_of(layout_lines(s)[i])
}

/// The texts of the lines of a layout, in order.
pub open spec fn line_texts(lines: Seq<VisualLine>) -> Seq<Seq<char>> {
    lines.map_values(|l: VisualLine| l.text@)
}

/// The lines `VisualLayout::new` gives for a source: one empty line for an
/// empty source; else they spell the source in order, are non-empty, hold a
/// newline only as their last character, and there are as many as the
/// source has newlines, plus one when it does not end in a newline.
pub proof fn law_visual_layout(lines: Seq<VisualLine>, s: Seq<char>)
    requires
        is_layout_of(lines, s),
    ensures
        s.len() == 0 ==> lines.len() == 1 && lines[0].text@ == Seq::<char>::empty(),
        s.len() > 0 ==> concat(line_texts(lines)) == s,
        s.len() > 0 ==> forall|i: int| 0 <= i < lines.len() ==> is_display_line(#[trigger] lines[i].text@),
        s.len() > 0 ==> lines.len() == count_newlines(s) + (if s.last() != '\n' { 1nat } else { 0nat }),
{
    law_layout_lines(s);
    assert(line_texts(lines) =~= layout_lines(s));
    if s.len() > 0 {
        assert forall|i: int| 0 <= i < lines.len() implies is_display_line(#[trigger] lines[i].text@) by {
            assert(lines[i].text@ == layout_lines(s)[i]);
        }
    }
}

impl VisualLayout {
    /// The layout of `source`.
    pub fn new(source: &str) -> (r: VisualLayout)
        requires
            source@.len() < usize::MAX / 4,
        ensures
            is_layout_of(r.lines@, source@),
    {
        let cs = crate::text::chars_of(source);
        let mut lines: Vec<VisualLine> = Vec::new();
        if cs.len() == 0 {
            let empty = String::new();
            lines.push(VisualLine::new(empty.as_str()));
            return VisualLayout { lines };
        }
        let mut cur: Vec<char> = Vec::new();
        let ghost mut acc: Seq<Seq<char>> = Seq::empty();
        let mut i: usize = 0;
        assert(cs@.skip(0) =~= cs@);
        while i < cs.len()
            invariant
                i <= cs@.len(),
                cs@ == source@,
                cs@.len() < usize::MAX / 4,
                cur@.len() <= i,
                layout_pieces(cs@.skip(i as int), cur@, acc) == layout_pieces(source@, Seq::empty(), Seq::empty()),
                lines@.len() == acc.len(),
                forall|j: int| 0 <= j < acc.len() ==> (#[trigger] lines@[j]).text@ == acc[j]
                    && lines@[j].visual_len == visual_len_of(acc[j]),
            decreases cs@.len() - i,
        {
            let c = cs[i];
            assert(cs@.skip(i as int).drop_first() =~= cs@.skip(i + 1));
            assert(cs@.skip(i as int)[0] == c);
            cur.push(c);
            if c == '\n' {
                let piece = crate::text::string_from_chars(cur.as_slice());
                let line = VisualLine::new(piece.as_str());
                lines.push(line);
                proof { acc = acc.push(cur@); }
                cur = Vec::new();
            }
            i = i + 1;
        }
        assert(cs@.skip(i as int) =~= Seq::<char>::empty());
        if cur.len() > 0 {
            let piece = crate::text::string_from_chars(cur.as_slice());
            lines.push(VisualLine::new(piece.as_str()));
            proof { acc = acc.push(cur@); }
        }
        VisualLayout { lines }
    }

    /// The line with the one-based number `line_num`.
    pub fn get_line(&self, line_num: usize) -> (r: Option<&VisualLine>)
        requires
            line_num >= 1,
        ensures
            match r {
                Some(l) => line_num - 1 < self.lines@.len() && *l == self.lines@[line_num - 1],
                None => line_num - 1 >= self.lines@.len(),
            },
    {
        if line_num - 1 < self.lines.len() {
            Some(&self.lines[line_num - 1])
        } else {
            None
        }
    }
}

// ---------------------------------------------------------------------------
// Pointer lines
// ---------------------------------------------------------------------------

/// `n` copies of `c`.
pub open spec fn rep(c: char, n: nat) -> Seq<char> {
    Seq::new(n, |i: int| c)
}

/// `a - b`, or zero when `b` is larger.
pub open spec fn sat_sub(a: nat, b: nat) -> nat {
    if a >= b { (a - b) as nat } else { 0 }
}

/// The line drawn under line `line_num` of a span from `start_line` column
/// `start_col` to `end_line` column `end_col`: `^---- here` on a one-line
/// span, `^----- here` to the line's end on its first line, `----^ here` on
/// its last line, and `|` on the lines between.
pub open spec fn pointer_line_spec(line_num: nat, start_line: nat, end_line: nat, start_col: nat, end_col: nat,
    visual_line_len: nat) -> Seq<char> {
    let is_start = line_num == start_line;
    let is_end = line_num == end_line;
    if is_start && is_end {
        rep(' ', sat_sub(start_col, 1)) + seq!['^'] + rep('-', sat_sub(end_col, start_col)) + " here\n"@
    } else if is_start {
        rep(' ', sat_sub(start_col, 1)) + seq!['^'] + rep('-', sat_sub(visual_line_len, start_col)) + " here\n"@
    } else if is_end {
        rep('-', sat_sub(end_col, 1)) + seq!['^'] + " here\n"@
    } else {
        seq!['|', '\n']
    }
}

fn push_repeat(s: &mut String, c: char, n: usize)
    ensures
        final(s)@ == old(s)@ + rep(c, n as nat),
{
    let ghost start = s@;
    let mut i: usize = 0;
    while i < n
        invariant
            i <= n,
            s@ == start + rep(c, i as nat),
        decreases n - i,
    {
        push_char(s, c);
        i = i + 1;
        assert(s@ =~= start + rep(c, i as nat));
    }
}

/// The pointer line for line `line_num` of a highlighted span.
pub fn pointer_line(line_num: usize, start_line: usize, end_line: usize, start_col: usize, end_col: usize,
    visual_line_len: usize) -> (r: String)
    ensures
        r@ == pointer_line_spec(line_num as nat, start_line as nat, end_line as nat, start_col as nat,
            end_col as nat, visual_line_len as nat),
{
    let mut s = String::new();
    let is_start_line = line_num == start_line;
    let is_end_line = line_num == end_line;
    if is_start_line && is_end_line {
        push_repeat(&mut s, ' ', start_col.saturating_sub(1));
        push_char(&mut s, '^');
        push_repeat(&mut s, '-', end_col.saturating_sub(start_col));
        push_str(&mut s, " here\n");
    } else if is_start_line {
        push_repeat(&mut s, ' ', start_col.saturating_sub(1));
        push_char(&mut s, '^');
        push_repeat(&mut s, '-', visual_line_len.saturating_sub(start_col));
        push_str(&mut s, " here\n");
    } else if is_end_line {
        push_repeat(&mut s, '-', end_col.saturating_sub(1));
        push_char(&mut s, '^');
        push_str(&mut s, " here\n");
    } else {
        push_char(&mut s, '|');
        push_char(&mut s, '\n');
        assert(s@ =~= seq!['|', '\n']);
    }
    s
}

// ---------------------------------------------------------------------------
// Snippets
// ---------------------------------------------------------------------------

/// Lines of context shown before and after a highlighted span.
pub const SNIPPET_CONTEXT_LINES: usize = 2;

/// `s` with each tab written as four spaces.
pub open spec fn expand_tabs(s: Seq<char>) -> Seq<char>
    decreases s.len(),
{
    if s.len() == 0 {
        Seq::empty()
    } else {
        expand_tabs(s.drop_last()) + (if s.last() == '\t' { rep(' ', 4) } else { seq![s.last()] })
    }
}

/// How a line's text is shown in a snippet: without its trailing newlines,
/// tabs written as four spaces.
pub open spec fn display_text(text: Seq<char>) -> Seq<char> {
    expand_tabs(trim_newlines(text))
}

/// `s` right-aligned in a field of `width` characters.
pub open spec fn pad_left(s: Seq<char>, width: nat) -> Seq<char> {
    rep(' ', sat_sub(width, s.len())) + s
}

/// The snippet text for line `line_num` of the layout `lines`: the line
/// number right-aligned to `width`, a bar and the line's text; on a line of
/// the span, the pointer line under it. Nothing for a line number outside
/// the layout.
pub open spec fn snippet_line(lines: Seq<VisualLine>, line_num: nat, width: nat, start_line: nat, end_line: nat,
    start_col: nat, end_col: nat) -> Seq<char> {
    if 1 <= line_num <= lines.len() {
        let l = lines[line_num - 1];
        pad_left(crate::text::decimal(line_num), width) + " | "@ + display_text(l.text@) + seq!['\n']
            + (if start_line <= line_num && line_num <= end_line {
                rep(' ', width) + " | "@ + pointer_line_spec(line_num, start_line, end_line, start_col, end_col,
                    l.visual_len as nat)
            } else {
                Seq::empty()
            })
    } else {
        Seq::empty()
    }
}

/// The snippet text for the lines `from` to `to`, in order.
pub open spec fn snippet_lines(lines: Seq<VisualLine>, from: nat, to: int, width: nat, start_line: nat, end_line: nat,
    start_col: nat, end_col: nat) -> Seq<char>
    decreases to + 1 - from,
{
    if to < from {
        Seq::empty()
    } else {
        snippet_lines(lines, from, to - 1, width, start_line, end_line, start_col, end_col)
            + snippet_line(lines, to as nat, width, start_line, end_line, start_col, end_col)
    }
}

/// The first line a snippet shows: two lines before the span, but at least
/// line one.
pub open spec fn snippet_first(start_line: nat) -> nat {
    let s = sat_sub(start_line, 2);
    if s >= 1 { s } else { 1 }
}

/// The last line a snippet shows: two lines after the span, but at most the
/// source's last line.
pub open spec fn snippet_last(end_line: nat, n_lines: nat) -> nat {
    if end_line + 2 <= n_lines { end_line + 2 } else { n_lines }
}

/// The snippet of `source` around a span from line `start_line` column
/// `start_col` to line `end_line` column `end_col` (lines and columns count
/// from one, columns visually with tabs expanded).
pub open spec fn code_snippet(source: Seq<char>, start_line: nat, start_col: nat, end_line: nat, end_col: nat,
    lines: Seq<VisualLine>) -> Seq<char> {
    let last = snippet_last(end_line, lines.len());
    snippet_lines(lines, snippet_first(start_line), last as int, crate::text::decimal(last).len(), start_line,
        end_line, start_col, end_col)
}

proof fn lemma_layout_pieces_len(s: Seq<char>, cur: Seq<char>, acc: Seq<Seq<char>>)
    ensures
        layout_pieces(s, cur, acc).len() <= acc.len() + s.len() + 1,
    decreases s.len(),
{
    if s.len() > 0 {
        if s[0] == '\n' {
            lemma_layout_pieces_len(s.drop_first(), Seq::empty(), acc.push(cur.push('\n')));
        } else {
            lemma_layout_pieces_len(s.drop_first(), cur.push(s[0]), acc);
        }
    }
}

fn push_display_text(s: &mut String, text: &str)
    ensures
        final(s)@ == old(s)@ + display_text(text@),
{
    let cs = crate::text::chars_of(text);
    let mut end = cs.len();
    assert(cs@.subrange(0, end as int) =~= cs@);
    while end > 0 && cs[end - 1] == '\n'
        invariant
            end <= cs@.len(),
            cs@ == text@,
            trim_newlines(cs@.subrange(0, end as int)) == trim_newlines(text@),
        decreases end,
    {
        assert(cs@.subrange(0, end as int).drop_last() =~= cs@.subrange(0, end - 1));
        end = end - 1;
    }
    proof {
        let t = cs@.subrange(0, end as int);
        if t.len() > 0 {
            assert(t.last() == cs@[end - 1]);
        }
        assert(trim_newlines(t) == t);
    }
    let ghost start = s@;
    let mut i: usize = 0;
    while i < end
        invariant
            i <= end <= cs@.len(),
            s@ == start + expand_tabs(cs@.subrange(0, i as int)),
        decreases end - i,
    {
        assert(cs@.subrange(0, i + 1).drop_last() =~= cs@.subrange(0, i as int));
        assert(cs@.subrange(0, i + 1).last() == cs@[i as int]);
        if cs[i] == '\t' {
            push_repeat(s, ' ', TAB_WIDTH);
        } else {
            push_char(s, cs[i]);
            assert(s@ =~= start + expand_tabs(cs@.subrange(0, i + 1)));
        }
        i = i + 1;
    }
}

fn push_padded_decimal(s: &mut String, n: usize, width: usize)
    ensures
        final(s)@ == old(s)@ + pad_left(crate::text::decimal(n as nat), width as nat),
{
    let digits = crate::text::decimal_string(n);
    push_repeat(s, ' ', width.saturating_sub(digits.as_str().unicode_len()));
    push_str(s, digits.as_str());
}

/// The lines of `source` around a highlighted span, numbered, with pointer
/// lines under those of the span: two lines of context on either side, as
/// far as the source reaches. The span is given by its one-based lines and
/// visual columns.
pub fn generate_code_snippet(source: &str, start_line: usize, start_col: usize, end_line: usize, end_col: usize)
    -> (r: String)
    requires
        source@.len() < usize::MAX / 4,
        end_line + SNIPPET_CONTEXT_LINES <= usize::MAX,
    ensures
        exists|lines: Seq<VisualLine>| is_layout_of(lines, source@) && r@ == code_snippet(source@, start_line as nat,
            start_col as nat, end_line as nat, end_col as nat, lines),
{
    let layout = VisualLayout::new(source);
    proof {
        lemma_layout_pieces_len(source@, Seq::empty(), Seq::empty());
    }
    let display_start = if start_line.saturating_sub(SNIPPET_CONTEXT_LINES) >= 1 {
        start_line.saturating_sub(SNIPPET_CONTEXT_LINES)
    } else {
        1
    };
    let display_end = if end_line + SNIPPET_CONTEXT_LINES <= layout.lines.len() {
        end_line + SNIPPET_CONTEXT_LINES
    } else {
        layout.lines.len()
    };
    let width = crate::text::decimal_string(display_end).as_str().unicode_len();
    let ghost lines = layout.lines@;
    let mut result = String::new();
    let mut line_num = display_start;
    while line_num <= display_end
        invariant
            lines == layout.lines@,
            1 <= display_start <= line_num,
            line_num <= display_end + 1 || line_num == display_start,
            display_end <= lines.len(),
            lines.len() <= source@.len() + 1,
            source@.len() < usize::MAX / 4,
            result@ == snippet_lines(lines, display_start as nat, line_num - 1, width as nat, start_line as nat,
                end_line as nat, start_col as nat, end_col as nat),
        decreases display_end + 1 - line_num,
    {
        let ghost before = result@;
        match layout.get_line(line_num) {
            Some(visual_line) => {
                push_padded_decimal(&mut result, line_num, width);
                push_str(&mut result, " | ");
                push_display_text(&mut result, visual_line.text.as_str());
                push_char(&mut result, '\n');
                if line_num >= start_line && line_num <= end_line {
                    push_repeat(&mut result, ' ', width);
                    push_str(&mut result, " | ");
                    let p = pointer_line(line_num, start_line, end_line, start_col, end_col, visual_line.visual_len);
                    push_str(&mut result, p.as_str());
                }
            },
            None => {},
        }
        assert(result@ =~= before + snippet_line(lines, line_num as nat, width as nat, start_line as nat,
            end_line as nat, start_col as nat, end_col as nat));
        line_num = line_num + 1;
    }
    result
}

/// Where an error is: its lines and columns when they are known, else its
/// byte range.
pub fn format_location(start: usize, end: usize, line_cols: Option<((usize, usize), (usize, usize))>) -> (r: String)
    ensures
        r@ == match line_cols {
            Some(((sl, sc), (el, ec))) => " [at line "@ + crate::text::decimal(sl as nat) + ", col "@
                + crate::text::decimal(sc as nat) + " to line "@ + crate::text::decimal(el as nat) + ", col "@
                + crate::text::decimal(ec as nat) + "]"@,
            None => " [at "@ + crate::text::decimal(start as nat) + "-"@ + crate::text::decimal(end as nat) + "]"@,
        },
{
    let mut s = String::new();
    match line_cols {
        Some(((sl, sc), (el, ec))) => {
            push_str(&mut s, " [at line ");
            crate::text::push_decimal(&mut s, sl);
            push_str(&mut s, ", col ");
            crate::text::push_decimal(&mut s, sc);
            push_str(&mut s, " to line ");
            crate::text::push_decimal(&mut s, el);
            push_str(&mut s, ", col ");
            crate::text::push_decimal(&mut s, ec);
            push_str(&mut s, "]");
        },
        None => {
            push_str(&mut s, " [at ");
            crate::text::push_decimal(&mut s, start);
            push_str(&mut s, "-");
            crate::text::push_decimal(&mut s, end);
            push_str(&mut s, "]");
        },
    }
    s
}

} // verus!
