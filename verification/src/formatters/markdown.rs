//! Markdown to HTML rendering.
//!
//! The renderer works line by line: fenced code blocks, ATX headers,
//! horizontal rules, blockquotes, bullet and numbered lists, and paragraphs
//! made of consecutive text lines. Inside a line, `**bold**`, `*italic*`,
//! `_italic_`, `` `code` `` and `[text](url)` are recognised.
use vstd::prelude::*;

use crate::error::Error;
use crate::text::{
    all_digits, chars_of, digits_before, find_chars, find_from, is_ws, lemma_find_from, slice_chars,
    starts_with, trim, trim_chars, trim_end, trim_start, views,
};

verus! {

/// `c` written as HTML text: `&`, `<`, `>`, `"` and `'` become entities.
pub open spec fn escape_char(c: char) -> Seq<char> {
    if c == '&' {
        "&amp;"@
    } else if c == '<' {
        "&lt;"@
    } else if c == '>' {
        "&gt;"@
    } else if c == '"' {
        "&quot;"@
    } else if c == '\'' {
        "&#39;"@
    } else {
        seq![c]
    }
}

/// Escaped text holds no `<`, `>` or `"`: it cannot open or close markup
/// or end an attribute value.
pub proof fn law_escape_html_inert(s: Seq<char>)
    ensures
        forall|i: int|
            0 <= i < escape_html(s).len() ==> #[trigger] escape_html(s)[i] != '<' && escape_html(s)[i]
                != '>' && escape_html(s)[i] != '"',
    decreases s.len(),
{
    reveal_strlit("&amp;");
    reveal_strlit("&lt;");
    reveal_strlit("&gt;");
    reveal_strlit("&quot;");
    reveal_strlit("&#39;");
    if s.len() > 0 {
        law_escape_html_inert(s.drop_last());
        let a = escape_html(s.drop_last());
        let b = escape_char(s.last());
        assert forall|i: int| 0 <= i < b.len() implies b[i] != '<' && b[i] != '>' && b[i] != '"' by {}
        assert forall|i: int| 0 <= i < escape_html(s).len() implies #[trigger] escape_html(s)[i]
            != '<' && escape_html(s)[i] != '>' && escape_html(s)[i] != '"' by {
            if i < a.len() {
                assert(escape_html(s)[i] == a[i]);
            } else {
                assert(escape_html(s)[i] == b[i - a.len()]);
            }
        }
    }
}

/// `s` written as HTML text.
pub open spec fn escape_html(s: Seq<char>) -> Seq<char>
    decreases s.len(),
{
    if s.len() == 0 {
        Seq::empty()
    } else {
        escape_html(s.drop_last()) + escape_char(s.last())
    }
}

/// A character of plain inline text: `&`, `<`, `>` and `"` become entities,
/// apostrophes stay as they are.
pub open spec fn escape_plain(c: char) -> Seq<char> {
    if c == '\'' {
        seq![c]
    } else {
        escape_char(c)
    }
}

/// The first position at or after `start` where the character `c` occurs.
pub open spec fn find_char(cs: Seq<char>, start: int, c: char) -> Option<int> {
    find_from(cs, seq![c], start)
}

/// The positions of a link `[text](url)` opening at `start`: the closing
/// bracket, the first character of the url and the closing parenthesis.
pub open spec fn link_at(cs: Seq<char>, start: int) -> Option<(int, int, int)> {
    match find_char(cs, start + 1, ']') {
        None => None,
        Some(te) => if te + 1 >= cs.len() || cs[te + 1] != '(' {
            None
        } else {
            match find_char(cs, te + 2, ')') {
                None => None,
                Some(ue) => Some((te, te + 2, ue)),
            }
        },
    }
}

/// The HTML for the inline element that starts at position `i`, and the
/// position just after it.
pub open spec fn inline_token(cs: Seq<char>, i: int) -> (Seq<char>, int) {
    let c = cs[i];
    let bold = find_from(cs, seq!['*', '*'], i + 2);
    let em = find_char(cs, i + 1, c);
    let code = find_char(cs, i + 1, '`');
    let link = link_at(cs, i);
    if i + 1 < cs.len() && c == '*' && cs[i + 1] == '*' && bold is Some {
        ("<strong>"@ + cs.subrange(i + 2, bold->0) + "</strong>"@, bold->0 + 2)
    } else if (c == '*' || c == '_') && em is Some {
        ("<em>"@ + cs.subrange(i + 1, em->0) + "</em>"@, em->0 + 1)
    } else if c == '`' && code is Some {
        ("<code>"@ + escape_html(cs.subrange(i + 1, code->0)) + "</code>"@, code->0 + 1)
    } else if c == '[' && link is Some {
        let (te, us, ue) = link->0;
        (
            "<a href=\""@ + escape_html(cs.subrange(us, ue)) + "\">"@ + escape_html(
                cs.subrange(i + 1, te),
            ) + "</a>"@,
            ue + 1,
        )
    } else {
        (escape_plain(c), i + 1)
    }
}

proof fn lemma_find_char(cs: Seq<char>, start: int, c: char)
    ensures
        find_char(cs, start, c) matches Some(j) ==> start <= j < cs.len() && cs[j] == c,
{
    lemma_find_from(cs, seq![c], start);
    if let Some(j) = find_char(cs, start, c) {
        assert(cs.subrange(j, j + 1)[0] == cs[j]);
    }
}

/// An inline element always moves forward and stays inside the text.
pub proof fn lemma_inline_token(cs: Seq<char>, i: int)
    requires
        0 <= i < cs.len(),
    ensures
        i < inline_token(cs, i).1 <= cs.len(),
{
    lemma_find_from(cs, seq!['*', '*'], i + 2);
    lemma_find_char(cs, i + 1, cs[i]);
    lemma_find_char(cs, i + 1, '`');
    lemma_find_char(cs, i + 1, ']');
    if let Some(te) = find_char(cs, i + 1, ']') {
        lemma_find_char(cs, te + 2, ')');
    }
}

/// The HTML for the inline Markdown of `cs` from position `i` on.
pub open spec fn inline_from(cs: Seq<char>, i: int) -> Seq<char>
    decreases cs.len() - i,
{
    if i < 0 || i >= cs.len() {
        Seq::empty()
    } else {
        proof {
            lemma_inline_token(cs, i);
        }
        inline_token(cs, i).0 + inline_from(cs, inline_token(cs, i).1)
    }
}

/// The HTML for the inline Markdown of `s`.
pub open spec fn inline_html(s: Seq<char>) -> Seq<char> {
    inline_from(s, 0)
}

/// The index of the first line feed at or after `i`, or the length of `s`.
pub open spec fn line_end(s: Seq<char>, i: int) -> int
    decreases s.len() - i,
{
    if i < 0 || i >= s.len() || s[i] == '\n' {
        i
    } else {
        line_end(s, i + 1)
    }
}

/// The end of a line lies between its start and the end of the text, at a line feed if before the end.
pub proof fn lemma_line_end(s: Seq<char>, i: int)
    requires
        0 <= i <= s.len(),
    ensures
        i <= line_end(s, i) <= s.len(),
        line_end(s, i) < s.len() ==> s[line_end(s, i)] == '\n',
    decreases s.len() - i,
{
    if i < s.len() && s[i] != '\n' {
        lemma_line_end(s, i + 1);
    }
}

/// `l` without one trailing carriage return.
pub open spec fn strip_cr(l: Seq<char>) -> Seq<char> {
    if l.len() > 0 && l.last() == '\r' {
        l.drop_last()
    } else {
        l
    }
}

/// The lines of `s` from position `i` on. A line ends at a line feed, which
/// is dropped together with a carriage return just before it; the last line
/// needs no line feed, and there is no empty line after a final line feed.
pub open spec fn lines_from(s: Seq<char>, i: int) -> Seq<Seq<char>>
    decreases s.len() - i,
{
    if i < 0 || i >= s.len() {
        Seq::empty()
    } else {
        proof {
            lemma_line_end(s, i);
        }
        let e = line_end(s, i);
        if e >= s.len() {
            seq![s.subrange(i, s.len() as int)]
        } else {
            seq![strip_cr(s.subrange(i, e))] + lines_from(s, e + 1)
        }
    }
}

/// The lines of `s`, as `str::lines` gives them.
pub open spec fn md_lines(s: Seq<char>) -> Seq<Seq<char>> {
    lines_from(s, 0)
}

/// The three backticks that open and close a code block.
pub open spec fn fence() -> Seq<char> {
    seq!['`', '`', '`']
}

/// `s` without the code fences at its start.
pub open spec fn strip_fences(s: Seq<char>) -> Seq<char>
    decreases s.len(),
{
    if starts_with(s, fence()) {
        strip_fences(s.skip(3))
    } else {
        s
    }
}

/// The number of copies of `c` at the start of `s`.
pub open spec fn leading(s: Seq<char>, c: char) -> nat
    decreases s.len(),
{
    if s.len() > 0 && s[0] == c {
        1 + leading(s.drop_first(), c)
    } else {
        0
    }
}

/// The decimal digit of a header level.
pub open spec fn level_digit(level: nat) -> char {
    if level == 1 {
        '1'
    } else if level == 2 {
        '2'
    } else if level == 3 {
        '3'
    } else if level == 4 {
        '4'
    } else if level == 5 {
        '5'
    } else {
        '6'
    }
}

/// A header of the given level.
pub open spec fn heading(level: nat, content: Seq<char>) -> Seq<char> {
    "<h"@ + seq![level_digit(level)] + ">"@ + inline_html(content) + "</h"@ + seq![
        level_digit(level),
    ] + ">\n"@
}

/// A paragraph holding `p`, or nothing when `p` is empty.
pub open spec fn flush(p: Seq<char>) -> Seq<char> {
    if p.len() == 0 {
        Seq::empty()
    } else {
        "<p>"@ + inline_html(trim(p)) + "</p>\n"@
    }
}

/// `t` is a horizontal rule.
pub open spec fn is_rule(t: Seq<char>) -> bool {
    t == seq!['-', '-', '-'] || t == seq!['*', '*', '*'] || t == seq!['_', '_', '_']
}

/// `t` is a bullet list item.
pub open spec fn is_bullet(t: Seq<char>) -> bool {
    starts_with(t, seq!['-', ' ']) || starts_with(t, seq!['*', ' ']) || starts_with(t, seq!['+', ' '])
}

/// The position of the first `". "` in `t`.
pub open spec fn ordered_marker(t: Seq<char>) -> Option<int> {
    find_from(t, seq!['.', ' '], 0)
}

/// `t` is a numbered list item: digits, then `". "`.
pub open spec fn is_ordered(t: Seq<char>) -> bool {
    match ordered_marker(t) {
        Some(p) => all_digits(t.take(p)),
        None => false,
    }
}

/// Where the renderer stands between two lines: inside a code block, a list
/// or a blockquote, and the text of the paragraph being gathered.
pub struct MdState {
    pub code: bool,
    pub list: bool,
    pub quote: bool,
    pub para: Seq<char>,
}

/// The state before the first line.
pub open spec fn md_start() -> MdState {
    MdState { code: false, list: false, quote: false, para: Seq::empty() }
}

/// `st` with the paragraph emptied.
pub open spec fn no_para(st: MdState) -> MdState {
    MdState { code: st.code, list: st.list, quote: st.quote, para: Seq::empty() }
}

/// A blank line ends the paragraph; other text joins it.
pub open spec fn md_text(t: Seq<char>, st: MdState) -> (Seq<char>, MdState) {
    if t.len() == 0 {
        (flush(st.para), no_para(st))
    } else {
        let para = if st.para.len() == 0 {
            t
        } else {
            st.para + seq![' '] + t
        };
        (Seq::empty(), MdState { code: st.code, list: st.list, quote: st.quote, para })
    }
}

/// List items; a list closes after its last item.
pub open spec fn md_list(t: Seq<char>, next: Option<Seq<char>>, st: MdState) -> (
    Seq<char>,
    MdState,
) {
    if is_bullet(t) {
        let close = match next {
            Some(n) => !is_bullet(trim(n)),
            None => true,
        };
        (
            flush(st.para) + (if st.list {
                Seq::empty()
            } else {
                "<ul>\n"@
            }) + "<li>"@ + inline_html(trim(t.skip(2))) + "</li>\n"@ + (if close {
                "</ul>\n"@
            } else {
                Seq::empty()
            }),
            MdState { code: st.code, list: !close, quote: st.quote, para: Seq::empty() },
        )
    } else if is_ordered(t) {
        let pos = ordered_marker(t)->0;
        let close = match next {
            Some(n) => !is_ordered(trim(n)),
            None => true,
        };
        (
            flush(st.para) + (if st.list {
                Seq::empty()
            } else {
                "<ol>\n"@
            }) + "<li>"@ + inline_html(trim(t.skip(pos + 2))) + "</li>\n"@ + (if close {
                "</ol>\n"@
            } else {
                Seq::empty()
            }),
            MdState { code: st.code, list: !close, quote: st.quote, para: Seq::empty() },
        )
    } else if ordered_marker(t) is None && st.list {
        let r = md_text(t, MdState { code: st.code, list: false, quote: st.quote, para: st.para });
        ("</ol>\n"@ + r.0, r.1)
    } else {
        md_text(t, st)
    }
}

/// A blockquote line; the blockquote closes after its last line.
pub open spec fn md_quote(t: Seq<char>, next: Option<Seq<char>>, st: MdState) -> (
    Seq<char>,
    MdState,
) {
    let close = match next {
        Some(n) => !starts_with(trim(n), seq!['>']),
        None => false,
    };
    (
        flush(st.para) + (if st.quote {
            Seq::empty()
        } else {
            "<blockquote>\n"@
        }) + "<p>"@ + inline_html(trim(t.skip(leading(t, '>') as int))) + "</p>\n"@ + (if close {
            "</blockquote>\n"@
        } else {
            Seq::empty()
        }),
        MdState { code: st.code, list: st.list, quote: !close, para: Seq::empty() },
    )
}

/// Horizontal rules and blockquotes.
pub open spec fn md_block(t: Seq<char>, next: Option<Seq<char>>, st: MdState) -> (
    Seq<char>,
    MdState,
) {
    if is_rule(t) {
        (flush(st.para) + "<hr />\n"@, no_para(st))
    } else if starts_with(t, seq!['>']) {
        md_quote(t, next, st)
    } else if st.quote {
        let r = md_list(t, next, MdState { code: st.code, list: st.list, quote: false, para: st.para });
        ("</blockquote>\n"@ + r.0, r.1)
    } else {
        md_list(t, next, st)
    }
}

/// What one line adds to the HTML, given the line after it, and the state after it.
pub open spec fn md_step(line: Seq<char>, next: Option<Seq<char>>, st: MdState) -> (
    Seq<char>,
    MdState,
) {
    let t = trim(line);
    if starts_with(line, fence()) {
        if st.code {
            (
                flush(st.para) + "</code></pre>\n"@,
                MdState { code: false, list: st.list, quote: st.quote, para: Seq::empty() },
            )
        } else {
            let lang = trim(strip_fences(line));
            (
                flush(st.para) + (if lang.len() == 0 {
                    "<pre><code>"@
                } else {
                    "<pre><code class=\"language-"@ + lang + "\">"@
                }),
                MdState { code: true, list: st.list, quote: st.quote, para: Seq::empty() },
            )
        }
    } else if st.code {
        (escape_html(line) + "\n"@, st)
    } else if starts_with(t, seq!['#']) {
        let level = leading(t, '#');
        if level <= 6 {
            (flush(st.para) + heading(level, trim(t.skip(level as int))), no_para(st))
        } else {
            let r = md_block(t, next, no_para(st));
            (flush(st.para) + r.0, r.1)
        }
    } else {
        md_block(t, next, st)
    }
}

/// What closes the document: the pending paragraph and the open code block,
/// list and blockquote.
pub open spec fn md_finish(st: MdState) -> Seq<char> {
    flush(st.para) + (if st.code {
        "</code></pre>\n"@
    } else {
        Seq::empty()
    }) + (if st.list {
        "</ul>\n"@
    } else {
        Seq::empty()
    }) + (if st.quote {
        "</blockquote>\n"@
    } else {
        Seq::empty()
    })
}

/// The HTML for the lines `ls` from line `i` on, in state `st`.
pub open spec fn render(ls: Seq<Seq<char>>, i: int, st: MdState) -> Seq<char>
    decreases ls.len() - i,
{
    if i < 0 || i >= ls.len() {
        md_finish(st)
    } else {
        let next = if i + 1 < ls.len() {
            Some(ls[i + 1])
        } else {
            None
        };
        let r = md_step(ls[i], next, st);
        r.0 + render(ls, i + 1, r.1)
    }
}

/// The HTML for the Markdown document `md`.
pub open spec fn markdown_html(md: Seq<char>) -> Seq<char> {
    render(md_lines(md), 0, md_start())
}

proof fn lemma_line_end_no_newline(s: Seq<char>, i: int)
    requires
        0 <= i <= s.len(),
        forall|k: int| 0 <= k < s.len() ==> s[k] != '\n',
    ensures
        line_end(s, i) == s.len(),
    decreases s.len() - i,
{
    if i < s.len() {
        lemma_line_end_no_newline(s, i + 1);
    }
}

/// What a bullet line is, as the renderer's tests see it.
proof fn lemma_bullet_facts(marker: char, x: Seq<char>)
    requires
        marker == '-' || marker == '*' || marker == '+',
        x.len() > 0,
        !is_ws(x.last()),
    ensures
        ({
            let s = seq![marker, ' '] + x;
            &&& trim(s) == s
            &&& !starts_with(s, fence())
            &&& !starts_with(s, seq!['#'])
            &&& !starts_with(s, seq!['>'])
            &&& !is_rule(s)
            &&& is_bullet(s)
            &&& s.skip(2) == x
        }),
{
    let s = seq![marker, ' '] + x;
    assert(s[0] == marker);
    assert(!is_ws(marker));
    assert(trim_start(s) == s);
    assert(s.last() == x.last());
    assert(trim_end(s) == s);
    assert(!starts_with(s, fence())) by {
        if starts_with(s, fence()) {
            assert(s.take(3)[0] == fence()[0]);
        }
    }
    assert(!starts_with(s, seq!['#'])) by {
        if starts_with(s, seq!['#']) {
            assert(s.take(1)[0] == '#');
        }
    }
    assert(!starts_with(s, seq!['>'])) by {
        if starts_with(s, seq!['>']) {
            assert(s.take(1)[0] == '>');
        }
    }
    assert(!is_rule(s)) by {
        if is_rule(s) {
            assert(s[1] == ' ');
        }
    }
    assert(s.take(2) =~= seq![marker, ' ']);
    assert(s.skip(2) =~= x);
}

/// A line made of a bullet marker (`-`, `*` or `+`), a space and some text
/// is a list item: a document of that one line is a bulleted list holding
/// one item, the text.
pub proof fn law_bullet_line(marker: char, x: Seq<char>)
    requires
        marker == '-' || marker == '*' || marker == '+',
        x.len() > 0,
        !is_ws(x.last()),
        forall|k: int| 0 <= k < x.len() ==> x[k] != '\n',
    ensures
        markdown_html(seq![marker, ' '] + x) == "<ul>\n"@ + "<li>"@ + inline_html(trim(x))
            + "</li>\n"@ + "</ul>\n"@,
{
    let s = seq![marker, ' '] + x;
    assert forall|k: int| 0 <= k < s.len() implies s[k] != '\n' by {
        if k >= 2 {
            assert(s[k] == x[k - 2]);
        }
    }
    lemma_line_end_no_newline(s, 0);
    assert(s.subrange(0, s.len() as int) =~= s);
    assert(md_lines(s) == seq![s]);
    lemma_bullet_facts(marker, x);
    let st = md_start();
    let r = md_step(s, None, st);
    assert(r.0 == "<ul>\n"@ + "<li>"@ + inline_html(trim(x)) + "</li>\n"@ + "</ul>\n"@) by {
        assert(Seq::<char>::empty() + "<ul>\n"@ + "<li>"@ + inline_html(trim(x)) + "</li>\n"@
            + "</ul>\n"@ =~= "<ul>\n"@ + "<li>"@ + inline_html(trim(x)) + "</li>\n"@ + "</ul>\n"@);
    }
    assert(md_finish(r.1) =~= Seq::<char>::empty());
    assert(render(seq![s], 1, r.1) == md_finish(r.1));
    assert(markdown_html(s) == r.0 + render(seq![s], 1, r.1));
    assert(r.0 + Seq::<char>::empty() =~= r.0);
}

proof fn lemma_two_lines(a: Seq<char>, b: Seq<char>)
    requires
        a.len() > 0,
        a.last() != '\r',
        b.len() > 0,
        forall|k: int| 0 <= k < a.len() ==> a[k] != '\n',
        forall|k: int| 0 <= k < b.len() ==> b[k] != '\n',
    ensures
        md_lines(a + seq!['\n'] + b) == seq![a, b],
{
    let s = a + seq!['\n'] + b;
    let e = a.len() as int;
    assert forall|k: int| 0 <= k < e implies s[k] != '\n' by {
        assert(s[k] == a[k]);
    }
    assert(s[e] == '\n');
    lemma_line_end_at(s, 0, e);
    assert(s.subrange(0, e) =~= a);
    assert(strip_cr(a) == a);
    assert(s.subrange(e + 1, s.len() as int) =~= b);
    lemma_rest_lines(s, e + 1, b);
    assert(md_lines(s) =~= seq![a, b]);
}

/// Two bullet lines in a row are two items of one list.
#[verifier::rlimit(40)]
pub proof fn law_bullet_lines(m1: char, x: Seq<char>, m2: char, y: Seq<char>)
    requires
        m1 == '-' || m1 == '*' || m1 == '+',
        m2 == '-' || m2 == '*' || m2 == '+',
        x.len() > 0,
        y.len() > 0,
        !is_ws(x.last()),
        !is_ws(y.last()),
        forall|k: int| 0 <= k < x.len() ==> x[k] != '\n',
        forall|k: int| 0 <= k < y.len() ==> y[k] != '\n',
    ensures
        markdown_html(seq![m1, ' '] + x + seq!['\n'] + seq![m2, ' '] + y) == "<ul>\n"@ + "<li>"@
            + inline_html(trim(x)) + "</li>\n"@ + "<li>"@ + inline_html(trim(y)) + "</li>\n"@
            + "</ul>\n"@,
{
    let a = seq![m1, ' '] + x;
    let b = seq![m2, ' '] + y;
    assert forall|k: int| 0 <= k < a.len() implies a[k] != '\n' by {
        if k >= 2 {
            assert(a[k] == x[k - 2]);
        }
    }
    assert forall|k: int| 0 <= k < b.len() implies b[k] != '\n' by {
        if k >= 2 {
            assert(b[k] == y[k - 2]);
        }
    }
    assert(a.last() == x.last());
    lemma_two_lines(a, b);
    assert(a + seq!['\n'] + b =~= seq![m1, ' '] + x + seq!['\n'] + seq![m2, ' '] + y);
    lemma_bullet_facts(m1, x);
    lemma_bullet_facts(m2, y);
    let ls = seq![a, b];
    let st0 = md_start();
    let r1 = md_step(a, Some(b), st0);
    let r2 = md_step(b, None, r1.1);
    assert(r1.0 =~= "<ul>\n"@ + "<li>"@ + inline_html(trim(x)) + "</li>\n"@);
    assert(r1.1 == MdState { code: false, list: true, quote: false, para: Seq::empty() });
    assert(r2.0 =~= "<li>"@ + inline_html(trim(y)) + "</li>\n"@ + "</ul>\n"@);
    assert(r2.1 == MdState { code: false, list: false, quote: false, para: Seq::empty() });
    assert(md_finish(r2.1) =~= Seq::<char>::empty());
    assert(render(ls, 2, r2.1) == md_finish(r2.1));
    assert(render(ls, 1, r1.1) == r2.0 + render(ls, 2, r2.1));
    assert(render(ls, 0, st0) == r1.0 + render(ls, 1, r1.1));
    assert(r1.0 + (r2.0 + Seq::<char>::empty()) =~= "<ul>\n"@ + "<li>"@ + inline_html(trim(x))
        + "</li>\n"@ + "<li>"@ + inline_html(trim(y)) + "</li>\n"@ + "</ul>\n"@);
}

proof fn lemma_line_end_at(s: Seq<char>, i: int, e: int)
    requires
        0 <= i <= e < s.len(),
        s[e] == '\n',
        forall|k: int| i <= k < e ==> s[k] != '\n',
    ensures
        line_end(s, i) == e,
    decreases e - i,
{
    if i < e {
        lemma_line_end_at(s, i + 1, e);
    }
}

proof fn lemma_rest_lines(s: Seq<char>, i: int, b: Seq<char>)
    requires
        0 <= i < s.len(),
        s.subrange(i, s.len() as int) == b,
        forall|k: int| 0 <= k < b.len() ==> b[k] != '\n',
    ensures
        lines_from(s, i) == seq![b],
{
    assert forall|k: int| i <= k < s.len() implies s[k] != '\n' by {
        assert(s[k] == b[k - i]);
    }
    lemma_line_end_tail(s, i);
}

proof fn lemma_line_end_tail(s: Seq<char>, i: int)
    requires
        0 <= i <= s.len(),
        forall|k: int| i <= k < s.len() ==> s[k] != '\n',
    ensures
        line_end(s, i) == s.len(),
    decreases s.len() - i,
{
    if i < s.len() {
        lemma_line_end_tail(s, i + 1);
    }
}

/// The renderer's state while it walks the lines.
struct Renderer {
    in_code_block: bool,
    in_list: bool,
    in_blockquote: bool,
    paragraph: Vec<char>,
}

impl View for Renderer {
    type V = MdState;

    closed spec fn view(&self) -> MdState {
        MdState {
            code: self.in_code_block,
            list: self.in_list,
            quote: self.in_blockquote,
            para: self.paragraph@,
        }
    }
}

/// The view of an optional line.
pub open spec fn opt_view(o: Option<&[char]>) -> Option<Seq<char>> {
    match o {
        Some(l) => Some(l@),
        None => None,
    }
}

/// The number of copies of `c` at the start of `s`.
fn leading_count(s: &[char], c: char) -> (n: usize)
    ensures
        n == leading(s@, c),
        n <= s.len(),
{
    let mut k: usize = 0;
    assert(s@.skip(0) =~= s@);
    while k < s.len() && s[k] == c
        invariant
            k <= s.len(),
            leading(s@, c) == k + leading(s@.skip(k as int), c),
        decreases s.len() - k,
    {
        assert(s@.skip(k as int).drop_first() =~= s@.skip(k + 1));
        k += 1;
    }
    k
}

/// The position where `s` continues after the code fences at its start.
fn fences_end(s: &[char]) -> (k: usize)
    ensures
        k <= s.len(),
        s@.skip(k as int) == strip_fences(s@),
{
    let mut k: usize = 0;
    assert(s@.skip(0) =~= s@);
    while s.len() - k >= 3 && s[k] == '`' && s[k + 1] == '`' && s[k + 2] == '`'
        invariant
            k <= s.len(),
            strip_fences(s@) == strip_fences(s@.skip(k as int)),
        decreases s.len() - k,
    {
        assert(s@.skip(k as int).take(3) =~= fence());
        assert(s@.skip(k as int).skip(3) =~= s@.skip(k + 3));
        k += 3;
    }
    proof {
        if starts_with(s@.skip(k as int), fence()) {
            assert(s@.skip(k as int).take(3)[0] == s@[k as int]);
            assert(s@.skip(k as int).take(3)[1] == s@[k + 1]);
            assert(s@.skip(k as int).take(3)[2] == s@[k + 2]);
        }
    }
    k
}

/// Whether `s` begins with the two characters `a` and `b`.
fn starts_with_two(s: &[char], a: char, b: char) -> (r: bool)
    ensures
        r == starts_with(s@, seq![a, b]),
{
    if s.len() >= 2 && s[0] == a && s[1] == b {
        assert(s@.take(2) =~= seq![a, b]);
        true
    } else {
        proof {
            if s.len() >= 2 {
                assert(s@.take(2)[0] == s@[0]);
                assert(s@.take(2)[1] == s@[1]);
            }
        }
        false
    }
}

/// Whether `s` begins with `c`.
fn starts_with_char(s: &[char], c: char) -> (r: bool)
    ensures
        r == starts_with(s@, seq![c]),
{
    if s.len() >= 1 && s[0] == c {
        assert(s@.take(1) =~= seq![c]);
        true
    } else {
        proof {
            if s.len() >= 1 {
                assert(s@.take(1)[0] == s@[0]);
            }
        }
        false
    }
}

/// Whether `t` is a bullet list item.
fn bullet_item(t: &[char]) -> (r: bool)
    ensures
        r == is_bullet(t@),
{
    starts_with_two(t, '-', ' ') || starts_with_two(t, '*', ' ') || starts_with_two(t, '+', ' ')
}

/// The position of the first `". "` in `t`.
fn find_ordered_marker(t: &[char]) -> (res: Option<usize>)
    ensures
        match res {
            Some(p) => ordered_marker(t@) == Some(p as int) && p + 2 <= t.len(),
            None => ordered_marker(t@) is None,
        },
{
    let pattern: Vec<char> = vec!['.', ' '];
    assert(pattern@ =~= seq!['.', ' ']);
    proof {
        lemma_find_from(t@, seq!['.', ' '], 0);
    }
    find_chars(t, pattern.as_slice(), 0)
}

/// Whether `t` is a numbered list item, and where its marker is.
fn ordered_item(t: &[char]) -> (res: Option<usize>)
    ensures
        match res {
            Some(p) => is_ordered(t@) && ordered_marker(t@) == Some(p as int) && p + 2 <= t.len(),
            None => !is_ordered(t@),
        },
{
    match find_ordered_marker(t) {
        Some(p) => if digits_before(t, p) {
            Some(p)
        } else {
            None
        },
        None => None,
    }
}

/// Whether `t` is a horizontal rule.
fn rule_line(t: &[char]) -> (r: bool)
    ensures
        r == is_rule(t@),
{
    if t.len() == 3 && t[0] == t[1] && t[1] == t[2] && (t[0] == '-' || t[0] == '*' || t[0] == '_') {
        assert(t@ =~= seq![t[0], t[0], t[0]]);
        true
    } else {
        proof {
            if t@ == seq!['-', '-', '-'] || t@ == seq!['*', '*', '*'] || t@ == seq!['_', '_', '_'] {
                assert(t@[0] == t@[1] && t@[1] == t@[2]);
            }
        }
        false
    }
}

/// The digit of a header level.
fn digit_of(level: usize) -> (c: char)
    requires
        1 <= level <= 6,
    ensures
        c == level_digit(level as nat),
{
    if level == 1 {
        '1'
    } else if level == 2 {
        '2'
    } else if level == 3 {
        '3'
    } else if level == 4 {
        '4'
    } else if level == 5 {
        '5'
    } else {
        '6'
    }
}

/// `s` from position `k` on, trimmed.
fn trim_from(s: &[char], k: usize) -> (res: Vec<char>)
    requires
        k <= s.len(),
    ensures
        res@ == trim(s@.skip(k as int)),
{
    let rest = slice_chars(s, k, s.len());
    assert(rest@ =~= s@.skip(k as int));
    trim_chars(rest.as_slice())
}

/// Appends the characters of `cs` to `out`.
fn append_chars(out: &mut String, cs: &[char])
    ensures
        final(out)@ == old(out)@ + cs@,
{
    let s = crate::text::string_from_chars(cs);
    out.append(s.as_str());
}

impl Renderer {
    /// Emits the pending paragraph and empties it.
    fn flush(&mut self, out: &mut String)
        ensures
            final(out)@ == old(out)@ + flush(old(self)@.para),
            final(self)@ == no_para(old(self)@),
    {
        if self.paragraph.len() > 0 {
            let content = trim_chars(self.paragraph.as_slice());
            let processed = MarkdownFormatter::process_inline_markdown(content.as_slice());
            out.append("<p>");
            out.append(processed.as_str());
            out.append("</p>\n");
            self.paragraph = Vec::new();
        }
        assert(self@.para =~= Seq::<char>::empty());
    }

    /// A line of plain text, or a blank line.
    fn text_line(&mut self, t: &[char], out: &mut String)
        ensures
            final(out)@ == old(out)@ + md_text(t@, old(self)@).0,
            final(self)@ == md_text(t@, old(self)@).1,
    {
        if t.len() == 0 {
            self.flush(out);
        } else {
            let ghost para = self.paragraph@;
            if self.paragraph.len() > 0 {
                self.paragraph.push(' ');
            }
            crate::text::extend_chars(&mut self.paragraph, t);
            assert(self.paragraph@ =~= (if para.len() == 0 {
                t@
            } else {
                para + seq![' '] + t@
            }));
            assert(out@ =~= old(out)@ + Seq::<char>::empty());
        }
    }

    /// A line that may be a list item.
    #[verifier::rlimit(40)]
    #[verifier::spinoff_prover]
    fn list_line(&mut self, t: &[char], next: Option<&[char]>, out: &mut String)
        ensures
            final(out)@ == old(out)@ + md_list(t@, opt_view(next), old(self)@).0,
            final(self)@ == md_list(t@, opt_view(next), old(self)@).1,
    {
        let ghost st = self@;
        if bullet_item(t) {
            let close = match next {
                Some(n) => !bullet_item(trim_chars(n).as_slice()),
                None => true,
            };
            self.flush(out);
            if !self.in_list {
                out.append("<ul>\n");
            }
            let content = trim_from(t, 2);
            let processed = MarkdownFormatter::process_inline_markdown(content.as_slice());
            out.append("<li>");
            out.append(processed.as_str());
            out.append("</li>\n");
            if close {
                out.append("</ul>\n");
            }
            self.in_list = !close;
            return;
        }
        match ordered_item(t) {
            Some(pos) => {
                let close = match next {
                    Some(n) => ordered_item(trim_chars(n).as_slice()).is_none(),
                    None => true,
                };
                self.flush(out);
                if !self.in_list {
                    out.append("<ol>\n");
                }
                let content = trim_from(t, pos + 2);
                let processed = MarkdownFormatter::process_inline_markdown(content.as_slice());
                out.append("<li>");
                out.append(processed.as_str());
                out.append("</li>\n");
                if close {
                    out.append("</ol>\n");
                }
                self.in_list = !close;
            },
            None => {
                if find_ordered_marker(t).is_none() && self.in_list {
                    out.append("</ol>\n");
                    self.in_list = false;
                }
                self.text_line(t, out);
            },
        }
    }

    /// A blockquote line.
    fn quote_line(&mut self, t: &[char], next: Option<&[char]>, out: &mut String)
        ensures
            final(out)@ == old(out)@ + md_quote(t@, opt_view(next), old(self)@).0,
            final(self)@ == md_quote(t@, opt_view(next), old(self)@).1,
    {
        let close = match next {
            Some(n) => !starts_with_char(trim_chars(n).as_slice(), '>'),
            None => false,
        };
        self.flush(out);
        if !self.in_blockquote {
            out.append("<blockquote>\n");
        }
        let k = leading_count(t, '>');
        let content = trim_from(t, k);
        let processed = MarkdownFormatter::process_inline_markdown(content.as_slice());
        out.append("<p>");
        out.append(processed.as_str());
        out.append("</p>\n");
        if close {
            out.append("</blockquote>\n");
        }
        self.in_blockquote = !close;
    }

    /// A line that may be a rule or a blockquote line.
    fn block_line(&mut self, t: &[char], next: Option<&[char]>, out: &mut String)
        ensures
            final(out)@ == old(out)@ + md_block(t@, opt_view(next), old(self)@).0,
            final(self)@ == md_block(t@, opt_view(next), old(self)@).1,
    {
        if rule_line(t) {
            self.flush(out);
            out.append("<hr />\n");
            return;
        }
        if starts_with_char(t, '>') {
            self.quote_line(t, next, out);
            return;
        }
        if self.in_blockquote {
            out.append("</blockquote>\n");
            self.in_blockquote = false;
        }
        self.list_line(t, next, out);
    }

    /// One line of the document, given the line after it.
    fn step(&mut self, line: &[char], next: Option<&[char]>, out: &mut String)
        ensures
            final(out)@ == old(out)@ + md_step(line@, opt_view(next), old(self)@).0,
            final(self)@ == md_step(line@, opt_view(next), old(self)@).1,
    {
        let t = trim_chars(line);
        if line.len() >= 3 && line[0] == '`' && line[1] == '`' && line[2] == '`' {
            assert(starts_with(line@, fence())) by {
                assert(line@.take(3) =~= fence());
            }
            self.flush(out);
            if self.in_code_block {
                out.append("</code></pre>\n");
                self.in_code_block = false;
            } else {
                let k = fences_end(line);
                let lang = trim_from(line, k);
                if lang.len() == 0 {
                    out.append("<pre><code>");
                } else {
                    out.append("<pre><code class=\"language-");
                    append_chars(out, lang.as_slice());
                    out.append("\">");
                }
                self.in_code_block = true;
            }
            return;
        }
        assert(!starts_with(line@, fence())) by {
            if line@.len() >= 3 {
                assert(line@.take(3)[0] == line@[0]);
                assert(line@.take(3)[1] == line@[1]);
                assert(line@.take(3)[2] == line@[2]);
            }
        }
        if self.in_code_block {
            let escaped = MarkdownFormatter::escape_html(line);
            out.append(escaped.as_str());
            out.append("\n");
            return;
        }
        if starts_with_char(t.as_slice(), '#') {
            let ghost st = self@;
            self.flush(out);
            let level = leading_count(t.as_slice(), '#');
            if level <= 6 {
                let content = trim_from(t.as_slice(), level);
                let processed = MarkdownFormatter::process_inline_markdown(content.as_slice());
                let d = digit_of(level);
                out.append("<h");
                crate::text::push_char(out, d);
                out.append(">");
                out.append(processed.as_str());
                out.append("</h");
                crate::text::push_char(out, d);
                out.append(">\n");
                return;
            }
            self.block_line(t.as_slice(), next, out);
            return;
        }
        self.block_line(t.as_slice(), next, out);
    }

    /// Closes the document.
    fn finish(&mut self, out: &mut String)
        ensures
            final(out)@ == old(out)@ + md_finish(old(self)@),
    {
        self.flush(out);
        if self.in_code_block {
            out.append("</code></pre>\n");
        }
        if self.in_list {
            out.append("</ul>\n");
        }
        if self.in_blockquote {
            out.append("</blockquote>\n");
        }
    }
}

/// A Markdown renderer.
pub struct MarkdownFormatter;

impl MarkdownFormatter {
    /// The lines of `cs`, as `str::lines` gives them.
    pub(crate) fn split_lines(cs: &[char]) -> (res: Vec<Vec<char>>)
        ensures
            views(res@) == md_lines(cs@),
    {
        let mut res: Vec<Vec<char>> = Vec::new();
        let mut start: usize = 0;
        let mut j: usize = 0;
        while j < cs.len()
            invariant
                start <= j <= cs.len(),
                views(res@) + lines_from(cs@, start as int) == md_lines(cs@),
                line_end(cs@, start as int) == line_end(cs@, j as int),
            decreases cs.len() - j,
        {
            if cs[j] == '\n' {
                let ghost before = views(res@);
                let mut piece = slice_chars(cs, start, j);
                if piece.len() > 0 && piece[piece.len() - 1] == '\r' {
                    piece.pop();
                }
                assert(piece@ == strip_cr(cs@.subrange(start as int, j as int))) by {
                    if j > start && cs@[j - 1] == '\r' {
                        assert(cs@.subrange(start as int, j as int).drop_last() =~= cs@.subrange(
                            start as int,
                            j - 1,
                        ));
                    }
                }
                res.push(piece);
                assert(views(res@) =~= before.push(piece@));
                assert(lines_from(cs@, start as int) == seq![piece@] + lines_from(cs@, j + 1));
                assert(views(res@) + lines_from(cs@, j + 1) =~= before + lines_from(
                    cs@,
                    start as int,
                ));
                start = j + 1;
            }
            j += 1;
        }
        if start < cs.len() {
            let ghost before = views(res@);
            let piece = slice_chars(cs, start, cs.len());
            res.push(piece);
            assert(views(res@) =~= before.push(piece@));
            assert(views(res@) =~= before + lines_from(cs@, start as int));
        } else {
            assert(views(res@) =~= views(res@) + lines_from(cs@, start as int));
        }
        res
    }

    /// Converts Markdown to HTML.
    pub fn to_html(markdown: &str) -> (res: Result<String, Error>)
        ensures
            match res {
                Ok(html) => html@ == markdown_html(markdown@),
                Err(_) => false,
            },
    {
        let cs = chars_of(markdown);
        let lines = Self::split_lines(cs.as_slice());
        let ghost ls = views(lines@);
        let mut r = Renderer {
            in_code_block: false,
            in_list: false,
            in_blockquote: false,
            paragraph: Vec::new(),
        };
        assert(r@ == md_start());
        let mut html = String::new();
        let mut i: usize = 0;
        assert(html@ + render(ls, 0, r@) =~= markdown_html(markdown@));
        while i < lines.len()
            invariant
                ls == views(lines@),
                ls == md_lines(markdown@),
                i <= lines.len(),
                html@ + render(ls, i as int, r@) == markdown_html(markdown@),
            decreases lines.len() - i,
        {
            let next: Option<&[char]> = if i + 1 < lines.len() {
                Some(lines[i + 1].as_slice())
            } else {
                None
            };
            assert(lines@[i as int]@ == ls[i as int]);
            assert(opt_view(next) == (if i + 1 < ls.len() {
                Some(ls[i + 1])
            } else {
                None
            })) by {
                if i + 1 < lines.len() {
                    assert(lines@[i + 1]@ == ls[i + 1]);
                }
            }
            let ghost before = html@;
            let ghost st = r@;
            r.step(lines[i].as_slice(), next, &mut html);
            assert(html@ + render(ls, i + 1, r@) =~= before + render(ls, i as int, st));
            i += 1;
        }
        let ghost before = html@;
        let ghost st = r@;
        r.finish(&mut html);
        assert(html@ =~= before + render(ls, i as int, st));
        Ok(html)
    }

    /// `text` with `&`, `<`, `>`, `"` and `'` replaced by HTML entities.
    pub(crate) fn escape_html(text: &[char]) -> (res: String)
        ensures
            res@ == escape_html(text@),
    {
        let mut res = String::new();
        let mut i: usize = 0;
        while i < text.len()
            invariant
                i <= text.len(),
                res@ == escape_html(text@.take(i as int)),
            decreases text.len() - i,
        {
            let c = text[i];
            if c == '&' {
                res.append("&amp;");
            } else if c == '<' {
                res.append("&lt;");
            } else if c == '>' {
                res.append("&gt;");
            } else if c == '"' {
                res.append("&quot;");
            } else if c == '\'' {
                res.append("&#39;");
            } else {
                crate::text::push_char(&mut res, c);
            }
            assert(text@.take(i + 1).drop_last() =~= text@.take(i as int));
            i += 1;
        }
        assert(text@.take(text.len() as int) =~= text@);
        res
    }

    /// The first position at or after `start` where `closing` occurs.
    fn find_closing_seq(chars: &[char], start: usize, closing: &str) -> (res: Option<usize>)
        ensures
            start < chars.len() ==> match res {
                Some(j) => find_from(chars@, closing@, start as int) == Some(j as int),
                None => find_from(chars@, closing@, start as int) is None,
            },
            start >= chars.len() ==> res is None,
    {
        if start >= chars.len() {
            return None;
        }
        let closing_chars = chars_of(closing);
        proof {
            lemma_find_from(chars@, closing@, start as int);
        }
        find_chars(chars, closing_chars.as_slice(), start)
    }

    /// The first position at or after `start` where `closing` occurs.
    fn find_closing_char(chars: &[char], start: usize, closing: char) -> (res: Option<usize>)
        requires
            start <= chars.len(),
        ensures
            match res {
                Some(j) => find_char(chars@, start as int, closing) == Some(j as int),
                None => find_char(chars@, start as int, closing) is None,
            },
    {
        let pattern: Vec<char> = vec![closing];
        assert(pattern@ =~= seq![closing]);
        proof {
            lemma_find_from(chars@, seq![closing], start as int);
        }
        find_chars(chars, pattern.as_slice(), start)
    }

    /// The positions of the link `[text](url)` opening at `start`, if there is one.
    fn parse_link(chars: &[char], start: usize) -> (res: Option<(usize, usize, usize)>)
        requires
            start < chars.len(),
        ensures
            match res {
                Some((a, b, c)) => link_at(chars@, start as int) == Some((a as int, b as int, c as int)),
                None => link_at(chars@, start as int) is None,
            },
    {
        proof {
            lemma_find_char(chars@, start + 1, ']');
        }
        let text_end = match Self::find_closing_char(chars, start + 1, ']') {
            Some(e) => e,
            None => return None,
        };
        if text_end + 1 >= chars.len() || chars[text_end + 1] != '(' {
            return None;
        }
        proof {
            lemma_find_char(chars@, text_end + 2, ')');
        }
        let url_end = match Self::find_closing_char(chars, text_end + 2, ')') {
            Some(e) => e,
            None => return None,
        };
        Some((text_end, text_end + 2, url_end))
    }

    /// The HTML for the inline element of `chars` at position `i`, and the
    /// position just after it.
    fn inline_token(chars: &[char], i: usize) -> (res: (String, usize))
        requires
            i < chars.len(),
        ensures
            res.0@ == inline_token(chars@, i as int).0,
            res.1 == inline_token(chars@, i as int).1,
    {
        let ghost cs = chars@;
        proof {
            lemma_find_from(cs, seq!['*', '*'], i + 2);
            reveal_strlit("**");
            assert("**"@ =~= seq!['*', '*']);
        }
        let c = chars[i];
        if i + 1 < chars.len() && c == '*' && chars[i + 1] == '*' {
            if let Some(end) = Self::find_closing_seq(chars, i + 2, "**") {
                let mut result = String::new();
                result.append("<strong>");
                let inner = slice_chars(chars, i + 2, end);
                result.append(crate::text::string_from_vec(inner).as_str());
                result.append("</strong>");
                return (result, end + 2);
            }
        }
        if c == '*' || c == '_' {
            proof {
                lemma_find_char(cs, i + 1, c);
            }
            if let Some(end) = Self::find_closing_char(chars, i + 1, c) {
                let mut result = String::new();
                result.append("<em>");
                let inner = slice_chars(chars, i + 1, end);
                result.append(crate::text::string_from_vec(inner).as_str());
                result.append("</em>");
                return (result, end + 1);
            }
        }
        if c == '`' {
            proof {
                lemma_find_char(cs, i + 1, '`');
            }
            if let Some(end) = Self::find_closing_char(chars, i + 1, '`') {
                let mut result = String::new();
                result.append("<code>");
                let inner = slice_chars(chars, i + 1, end);
                let escaped = Self::escape_html(inner.as_slice());
                result.append(escaped.as_str());
                result.append("</code>");
                return (result, end + 1);
            }
        }
        if c == '[' {
            proof {
                lemma_find_char(cs, i + 1, ']');
                if let Some(te) = find_char(cs, i + 1, ']') {
                    lemma_find_char(cs, te + 2, ')');
                }
            }
            if let Some((text_end, url_start, url_end)) = Self::parse_link(chars, i) {
                let url = slice_chars(chars, url_start, url_end);
                let link_text = slice_chars(chars, i + 1, text_end);
                let url_html = Self::escape_html(url.as_slice());
                let text_html = Self::escape_html(link_text.as_slice());
                let mut result = String::new();
                result.append("<a href=\"");
                result.append(url_html.as_str());
                result.append("\">");
                result.append(text_html.as_str());
                result.append("</a>");
                return (result, url_end + 1);
            }
        }
        let mut result = String::new();
        if c == '<' {
            result.append("&lt;");
        } else if c == '>' {
            result.append("&gt;");
        } else if c == '&' {
            result.append("&amp;");
        } else if c == '"' {
            result.append("&quot;");
        } else {
            crate::text::push_char(&mut result, c);
        }
        (result, i + 1)
    }

    /// The HTML for the inline Markdown of `chars`.
    fn process_inline_markdown(chars: &[char]) -> (res: String)
        ensures
            res@ == inline_html(chars@),
    {
        let mut result = String::new();
        let mut i: usize = 0;
        while i < chars.len()
            invariant
                i <= chars.len(),
                result@ + inline_from(chars@, i as int) == inline_html(chars@),
            decreases chars.len() - i,
        {
            proof {
                lemma_inline_token(chars@, i as int);
            }
            let ghost before = result@;
            let ghost rest = inline_from(chars@, i as int);
            let (piece, next) = Self::inline_token(chars, i);
            result.append(piece.as_str());
            assert(rest == piece@ + inline_from(chars@, next as int));
            assert(result@ + inline_from(chars@, next as int) =~= before + rest);
            i = next;
        }
        assert(inline_from(chars@, i as int) =~= Seq::<char>::empty());
        assert(result@ =~= inline_html(chars@));
        result
    }
}

} // verus!
