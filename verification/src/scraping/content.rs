//! The content of a scraped page, by extraction mode, and its output format.
//!
//! `scraper` parses the page, serializes it, and matches the CSS selectors
//! that a request names; which matches are kept, what is cut out of the
//! page, which candidate counts as the main content and how the pieces are
//! joined is decided here.
use super::{ExtractionMode, OutputFormat, ScrappingOptions, ScrappingTool};
use crate::error::Error;
use crate::formatters::html_markdown::document_markdown;
use crate::formatters::MarkdownFormatter;
use crate::html::{
    first_child_element, first_child_element_exec, parse_document, parsed_document, subtree_end,
    subtree_end_exec, vview, HtmlKind, HtmlNode, NodeView,
};
use crate::selector::text_pieces;
use crate::storage::joined;
use crate::text::{
    chars_of, extend_chars, find_chars, find_from, lemma_find_from, slice_chars, string_from_vec,
    trim, trim_chars, utf8_len, utf8_len_of,
};
use vstd::prelude::*;

verus! {

// ---------------------------------------------------------------------------
// What `scraper` computes

/// The HTML that `scraper::Html::parse_document(html).html()` serializes.
pub uninterp spec fn serialized_document(html: Seq<char>) -> Seq<char>;

/// The outer HTML of the root element of `html` parsed as a document.
pub uninterp spec fn root_outer_html(html: Seq<char>) -> Seq<char>;

/// For a valid selector, the elements of `html` parsed as a document that
/// `Html::select` yields, each as its outer HTML and its text; `None` when
/// `Selector::parse` refuses the selector.
pub uninterp spec fn selected_elements(html: Seq<char>, selector: Seq<char>) -> Option<
    Seq<(Seq<char>, Seq<char>)>,
>;

/// For a valid selector, the outer HTML of the elements of `fragment`
/// parsed as a fragment that `Html::select` yields; `None` when
/// `Selector::parse` refuses the selector.
pub uninterp spec fn fragment_selected(fragment: Seq<char>, selector: Seq<char>) -> Option<
    Seq<Seq<char>>,
>;

/// The text nodes below the root element of `fragment` parsed as a
/// fragment, in order.
pub uninterp spec fn fragment_text(fragment: Seq<char>) -> Seq<Seq<char>>;

/// Serializes `html` parsed as a document (`Html::parse_document`, then
/// `Html::html`); the result is named, not described.
#[verifier::external_body]
fn document_html(html: &str) -> (res: String)
    ensures
        res@ == serialized_document(html@),
{
    scraper::Html::parse_document(html).html()
}

/// The outer HTML of the root element of `html` parsed as a document
/// (`Html::root_element`, then `ElementRef::html`). The HTML parser always
/// creates the root `html` element, so the lookup cannot fail.
#[verifier::external_body]
fn root_element_html(html: &str) -> (res: String)
    ensures
        res@ == root_outer_html(html@),
{
    scraper::Html::parse_document(html).root_element().html()
}

/// Parses `selector` with `Selector::parse` and, if it is valid, lists the
/// elements that `Html::select` yields on `html` parsed as a document, each
/// with its outer HTML and its text (`ElementRef::text`, concatenated).
#[verifier::external_body]
fn select_elements(html: &str, selector: &str) -> (res: Option<Vec<(String, String)>>)
    ensures
        match res {
            Some(v) => selected_elements(html@, selector@) == Some(
                v@.map_values(|e: (String, String)| (e.0@, e.1@)),
            ),
            None => selected_elements(html@, selector@) is None,
        },
{
    let document = scraper::Html::parse_document(html);
    let selector = scraper::Selector::parse(selector).ok()?;
    Some(document.select(&selector).map(|e| (e.html(), e.text().collect::<String>())).collect())
}

/// Parses `selector` with `Selector::parse` and, if it is valid, lists the
/// outer HTML of the elements that `Html::select` yields on `fragment`
/// parsed with `Html::parse_fragment`.
#[verifier::external_body]
fn select_in_fragment(fragment: &str, selector: &str) -> (res: Option<Vec<String>>)
    ensures
        match res {
            Some(v) => fragment_selected(fragment@, selector@) == Some(
                v@.map_values(|s: String| s@),
            ),
            None => fragment_selected(fragment@, selector@) is None,
        },
{
    let document = scraper::Html::parse_fragment(fragment);
    let selector = scraper::Selector::parse(selector).ok()?;
    Some(document.select(&selector).map(|e| e.html()).collect())
}

/// The text nodes below the root element of `fragment` parsed with
/// `Html::parse_fragment` (`ElementRef::text`), in order.
#[verifier::external_body]
fn fragment_text_pieces(fragment: &str) -> (res: Vec<String>)
    ensures
        res@.map_values(|s: String| s@) == fragment_text(fragment@),
{
    scraper::Html::parse_fragment(fragment).root_element().text().map(|t| t.to_string()).collect()
}

// ---------------------------------------------------------------------------
// Cutting text out

/// `s` from position `i` on with every occurrence of the non-empty `p`
/// removed, the occurrences taken from the left without overlapping.
pub open spec fn removed_from(s: Seq<char>, p: Seq<char>, i: int) -> Seq<char>
    decreases s.len() - i,
{
    if p.len() == 0 || i < 0 || i > s.len() {
        s.subrange(if i < 0 { 0 } else if i > s.len() { s.len() as int } else { i }, s.len() as int)
    } else {
        match find_from(s, p, i) {
            None => s.subrange(i, s.len() as int),
            Some(j) => {
                proof {
                    lemma_find_from(s, p, i);
                }
                s.subrange(i, j) + removed_from(s, p, j + p.len())
            },
        }
    }
}

/// `s` with every occurrence of `p` removed (`str::replace(p, "")`).
pub open spec fn removed(s: Seq<char>, p: Seq<char>) -> Seq<char> {
    if p.len() == 0 {
        s
    } else {
        removed_from(s, p, 0)
    }
}

/// `s` with the occurrences of each of `ps` removed in turn.
pub open spec fn remove_each(s: Seq<char>, ps: Seq<Seq<char>>) -> Seq<char>
    decreases ps.len(),
{
    if ps.len() == 0 {
        s
    } else {
        remove_each(removed(s, ps[0]), ps.drop_first())
    }
}

/// `s` with every occurrence of `p` removed.
fn remove_all(s: &[char], p: &[char]) -> (res: Vec<char>)
    ensures
        res@ == removed(s@, p@),
{
    if p.len() == 0 {
        return slice_chars(s, 0, s.len());
    }
    let mut out: Vec<char> = Vec::new();
    let mut i: usize = 0;
    assert(s@.subrange(0, s.len() as int) =~= s@);
    loop
        invariant
            p.len() > 0,
            i <= s.len(),
            out@ + removed_from(s@, p@, i as int) == removed_from(s@, p@, 0),
        decreases s.len() - i,
    {
        match find_chars(s, p, i) {
            Some(j) => {
                proof {
                    lemma_find_from(s@, p@, i as int);
                }
                let piece = slice_chars(s, i, j);
                let ghost before = out@;
                extend_chars(&mut out, piece.as_slice());
                assert(before + removed_from(s@, p@, i as int) =~= out@ + removed_from(
                    s@,
                    p@,
                    j + p.len(),
                ));
                i = j + p.len();
            },
            None => {
                let rest = slice_chars(s, i, s.len());
                extend_chars(&mut out, rest.as_slice());
                return out;
            },
        }
    }
}

/// `s` with the occurrences of each of `ps` removed in turn.
fn remove_each_exec(s: Vec<char>, ps: &Vec<String>) -> (res: Vec<char>)
    ensures
        res@ == remove_each(s@, ps@.map_values(|x: String| x@)),
{
    let ghost all = ps@.map_values(|x: String| x@);
    let mut cur = s;
    let mut k: usize = 0;
    assert(all.skip(0) =~= all);
    while k < ps.len()
        invariant
            k <= ps.len(),
            all == ps@.map_values(|x: String| x@),
            remove_each(cur@, all.skip(k as int)) == remove_each(s@, all),
        decreases ps.len() - k,
    {
        let p = chars_of(ps[k].as_str());
        assert(all.skip(k as int)[0] == p@);
        assert(all.skip(k as int).drop_first() =~= all.skip(k + 1));
        cur = remove_all(cur.as_slice(), p.as_slice());
        k += 1;
    }
    assert(all.skip(k as int) =~= Seq::<Seq<char>>::empty());
    cur
}

// ---------------------------------------------------------------------------
// The content of each mode

/// The outer HTML of a list of selected elements.
pub open spec fn outers(els: Seq<(Seq<char>, Seq<char>)>) -> Seq<Seq<char>> {
    els.map_values(|e: (Seq<char>, Seq<char>)| e.0)
}

/// The serialized page `doc` of `html`, with the elements that each
/// selector of `sels` matches in `html` cut out in turn; selectors that
/// do not parse are passed over.
pub open spec fn without_selected(html: Seq<char>, doc: Seq<char>, sels: Seq<Seq<char>>) -> Seq<
    char,
>
    decreases sels.len(),
{
    if sels.len() == 0 {
        doc
    } else {
        let next = match selected_elements(html, sels[0]) {
            Some(els) => remove_each(doc, outers(els)),
            None => doc,
        };
        without_selected(html, next, sels.drop_first())
    }
}

/// The whole page, less the elements that the exclude selectors match.
pub open spec fn full_content(html: Seq<char>, excludes: Option<Seq<Seq<char>>>) -> Seq<char> {
    match excludes {
        Some(x) => without_selected(html, serialized_document(html), x),
        None => serialized_document(html),
    }
}

/// The selectors of main content, in the order they are tried: `article`,
/// `main`, `[role='main']`, `.article-content`, `.post-content`, `#content`.
pub open spec fn content_selector(i: int) -> Seq<char> {
    if i == 0 {
        "article"@
    } else if i == 1 {
        "main"@
    } else if i == 2 {
        "[role='main']"@
    } else if i == 3 {
        ".article-content"@
    } else if i == 4 {
        ".post-content"@
    } else {
        "#content"@
    }
}

/// The selectors of noise cut out of the main content, in order: `script`,
/// `style`, `nav`, `header`, `footer`, `aside`, `.ads`, `.comments`.
pub open spec fn noise_selector(i: int) -> Seq<char> {
    if i == 0 {
        "script"@
    } else if i == 1 {
        "style"@
    } else if i == 2 {
        "nav"@
    } else if i == 3 {
        "header"@
    } else if i == 4 {
        "footer"@
    } else if i == 5 {
        "aside"@
    } else if i == 6 {
        ".ads"@
    } else {
        ".comments"@
    }
}

/// Among the first `n` elements, the position of the last one whose text
/// is longest in UTF-8 bytes (`Iterator::max_by_key`).
pub open spec fn last_longest(els: Seq<(Seq<char>, Seq<char>)>, n: nat) -> nat
    decreases n,
{
    if n <= 1 {
        0
    } else {
        let b = last_longest(els, (n - 1) as nat);
        if utf8_len(els[n - 1].1) >= utf8_len(els[b as int].1) {
            (n - 1) as nat
        } else {
            b
        }
    }
}

/// The main content: for the first content selector, from the `i`-th on,
/// that matches an element, the outer HTML of its element with the longest
/// text; the root element when none does.
pub open spec fn main_content_from(html: Seq<char>, i: nat) -> Seq<char>
    decreases 6 - i,
{
    if i >= 6 {
        root_outer_html(html)
    } else {
        match selected_elements(html, content_selector(i as int)) {
            Some(els) => if els.len() > 0 {
                els[last_longest(els, els.len()) as int].0
            } else {
                main_content_from(html, i + 1)
            },
            None => main_content_from(html, i + 1),
        }
    }
}

/// `best` with the noise that each noise selector, from the `i`-th on,
/// matches in it (parsed again as a fragment each time) cut out.
pub open spec fn without_noise(best: Seq<char>, i: nat) -> Seq<char>
    decreases 8 - i,
{
    if i >= 8 {
        best
    } else {
        let next = match fragment_selected(best, noise_selector(i as int)) {
            Some(list) => remove_each(best, list),
            None => best,
        };
        without_noise(next, i + 1)
    }
}

/// The readable content of a page: its main content without noise.
pub open spec fn readable_content(html: Seq<char>) -> Seq<char> {
    without_noise(main_content_from(html, 0), 0)
}

/// The outer HTML of each element, each followed by a newline.
pub open spec fn outer_lines(els: Seq<(Seq<char>, Seq<char>)>) -> Seq<char>
    decreases els.len(),
{
    if els.len() == 0 {
        Seq::empty()
    } else {
        els[0].0 + seq!['\n'] + outer_lines(els.drop_first())
    }
}

/// The elements that each selector of `sels` matches, in turn, as lines of
/// outer HTML; selectors that do not parse are passed over.
pub open spec fn selected_content(html: Seq<char>, sels: Seq<Seq<char>>) -> Seq<char>
    decreases sels.len(),
{
    if sels.len() == 0 {
        Seq::empty()
    } else {
        (match selected_elements(html, sels[0]) {
            Some(els) => outer_lines(els),
            None => Seq::empty(),
        }) + selected_content(html, sels.drop_first())
    }
}

/// The pieces of `ps` that are not blank.
pub open spec fn nonblank(ps: Seq<Seq<char>>) -> Seq<Seq<char>>
    decreases ps.len(),
{
    if ps.len() == 0 {
        Seq::empty()
    } else if trim(ps.last()).len() > 0 {
        nonblank(ps.drop_last()).push(ps.last())
    } else {
        nonblank(ps.drop_last())
    }
}

/// The visible text of a parsed page: the text pieces below its root
/// element that are not blank, joined with single spaces.
pub open spec fn visible_text(ns: Seq<NodeView>) -> Seq<char> {
    match first_child_element(ns, 1, 0) {
        Some(r) => joined(nonblank(text_pieces(ns, r + 1, subtree_end(ns, r))), seq![' ']),
        None => Seq::empty(),
    }
}

/// The views of optional strings.
pub open spec fn opt_strings(o: Option<Vec<String>>) -> Option<Seq<Seq<char>>> {
    match o {
        Some(v) => Some(v@.map_values(|s: String| s@)),
        None => None,
    }
}

/// The content that `options` ask of the page `html`: `None` when the
/// selective mode has no selectors.
pub open spec fn extraction(html: Seq<char>, options: ScrappingOptions) -> Option<Seq<char>> {
    match options.mode {
        Some(ExtractionMode::Readability) => Some(readable_content(html)),
        Some(ExtractionMode::Selective) => match opt_strings(options.css_selectors) {
            Some(sels) => Some(selected_content(html, sels)),
            None => None,
        },
        Some(ExtractionMode::TextOnly) => Some(visible_text(parsed_document(html))),
        _ => Some(full_content(html, opt_strings(options.exclude_selectors))),
    }
}

/// The content in an output format: HTML and JSON as it is, Markdown
/// rendered from it, plain text as its text pieces joined with spaces.
pub open spec fn formatted(content: Seq<char>, format: OutputFormat) -> Seq<char> {
    match format {
        OutputFormat::Markdown => document_markdown(parsed_document(content)),
        OutputFormat::PlainText => joined(fragment_text(content), seq![' ']),
        _ => content,
    }
}

/// The strings of `list` joined with single spaces.
fn join_pieces(list: &Vec<String>) -> (res: Vec<char>)
    ensures
        res@ == joined(list@.map_values(|s: String| s@), seq![' ']),
{
    let ghost all = list@.map_values(|s: String| s@);
    let mut out: Vec<char> = Vec::new();
    let mut k: usize = 0;
    while k < list.len()
        invariant
            k <= list.len(),
            all == list@.map_values(|s: String| s@),
            out@ == joined(all.take(k as int), seq![' ']),
        decreases list.len() - k,
    {
        let cs = chars_of(list[k].as_str());
        if k > 0 {
            out.push(' ');
        }
        extend_chars(&mut out, cs.as_slice());
        assert(all.take(k + 1).drop_last() =~= all.take(k as int));
        assert(all.take(k + 1).last() == cs@);
        k += 1;
    }
    assert(all.take(k as int) =~= all);
    out
}

impl ScrappingTool {
    /// The whole page, less the elements that the exclude selectors match.
    fn extract_full(&self, html: &str, excludes: &Option<Vec<String>>) -> (res: Vec<char>)
        ensures
            res@ == full_content(html@, opt_strings(*excludes)),
    {
        let doc = document_html(html);
        let mut cur = chars_of(doc.as_str());
        match excludes {
            None => cur,
            Some(sels) => {
                let ghost all = sels@.map_values(|s: String| s@);
                let mut k: usize = 0;
                assert(all.skip(0) =~= all);
                while k < sels.len()
                    invariant
                        k <= sels.len(),
                        all == sels@.map_values(|s: String| s@),
                        without_selected(html@, cur@, all.skip(k as int)) == without_selected(
                            html@,
                            serialized_document(html@),
                            all,
                        ),
                    decreases sels.len() - k,
                {
                    assert(all.skip(k as int)[0] == sels@[k as int]@);
                    assert(all.skip(k as int).drop_first() =~= all.skip(k + 1));
                    match select_elements(html, sels[k].as_str()) {
                        Some(els) => {
                            let mut outs: Vec<String> = Vec::new();
                            let mut q: usize = 0;
                            while q < els.len()
                                invariant
                                    q <= els.len(),
                                    outs@.map_values(|s: String| s@) == outers(
                                        els@.map_values(|e: (String, String)| (e.0@, e.1@)),
                                    ).take(q as int),
                                decreases els.len() - q,
                            {
                                let ghost before = outs@.map_values(|s: String| s@);
                                outs.push(els[q].0.clone());
                                assert(outs@.map_values(|s: String| s@) =~= before.push(
                                    els@[q as int].0@,
                                ));
                                assert(outers(els@.map_values(|e: (String, String)| (e.0@, e.1@))).take(
                                    q + 1,
                                ) =~= outers(
                                    els@.map_values(|e: (String, String)| (e.0@, e.1@)),
                                ).take(q as int).push(els@[q as int].0@));
                                q += 1;
                            }
                            assert(outers(els@.map_values(|e: (String, String)| (e.0@, e.1@))).take(
                                q as int,
                            ) =~= outers(els@.map_values(|e: (String, String)| (e.0@, e.1@))));
                            cur = remove_each_exec(cur, &outs);
                        },
                        None => {},
                    }
                    k += 1;
                }
                assert(all.skip(k as int) =~= Seq::<Seq<char>>::empty());
                cur
            },
        }
    }

    /// The main content of the page, without noise.
    fn extract_readability(&self, html: &str) -> (res: Vec<char>)
        ensures
            res@ == readable_content(html@),
    {
        let mut best: Option<String> = None;
        let mut i: usize = 0;
        while i < 6
            invariant
                i <= 6,
                best matches Some(b) ==> b@ == main_content_from(html@, 0),
                best is None ==> main_content_from(html@, i as nat) == main_content_from(html@, 0),
            decreases 6 - i,
        {
            if best.is_none() {
                let sel = if i == 0 {
                    "article"
                } else if i == 1 {
                    "main"
                } else if i == 2 {
                    "[role='main']"
                } else if i == 3 {
                    ".article-content"
                } else if i == 4 {
                    ".post-content"
                } else {
                    "#content"
                };
                assert(sel@ == content_selector(i as int));
                match select_elements(html, sel) {
                    Some(els) => {
                        if els.len() > 0 {
                            let ghost ev = els@.map_values(|e: (String, String)| (e.0@, e.1@));
                            let mut b: usize = 0;
                            let mut blen: u128 = utf8_len_of(chars_of(els[0].1.as_str()).as_slice());
                            let mut q: usize = 1;
                            while q < els.len()
                                invariant
                                    1 <= q <= els.len(),
                                    ev == els@.map_values(|e: (String, String)| (e.0@, e.1@)),
                                    b == last_longest(ev, q as nat),
                                    b < q,
                                    blen == utf8_len(ev[b as int].1),
                                decreases els.len() - q,
                            {
                                let l = utf8_len_of(chars_of(els[q].1.as_str()).as_slice());
                                if l >= blen {
                                    b = q;
                                    blen = l;
                                }
                                q += 1;
                            }
                            best = Some(els[b].0.clone());
                        }
                    },
                    None => {},
                }
            }
            i += 1;
        }
        let mut cur = match best {
            Some(b) => chars_of(b.as_str()),
            None => chars_of(root_element_html(html).as_str()),
        };
        let mut k: usize = 0;
        while k < 8
            invariant
                k <= 8,
                without_noise(cur@, k as nat) == readable_content(html@),
            decreases 8 - k,
        {
            let sel = if k == 0 {
                "script"
            } else if k == 1 {
                "style"
            } else if k == 2 {
                "nav"
            } else if k == 3 {
                "header"
            } else if k == 4 {
                "footer"
            } else if k == 5 {
                "aside"
            } else if k == 6 {
                ".ads"
            } else {
                ".comments"
            };
            assert(sel@ == noise_selector(k as int));
            let text = string_from_vec(slice_chars(cur.as_slice(), 0, cur.len()));
            assert(cur@.subrange(0, cur@.len() as int) =~= cur@);
            match select_in_fragment(text.as_str(), sel) {
                Some(list) => {
                    cur = remove_each_exec(cur, &list);
                },
                None => {},
            }
            k += 1;
        }
        cur
    }

    /// The elements that the CSS selectors match, as lines of outer HTML.
    fn extract_selective(&self, html: &str, sels: &Vec<String>) -> (res: Vec<char>)
        ensures
            res@ == selected_content(html@, sels@.map_values(|s: String| s@)),
    {
        let ghost all = sels@.map_values(|s: String| s@);
        let mut k: usize = sels.len();
        // Built from the last selector back, so that each step puts its
        // lines in front of what follows.
        let mut tail: Vec<char> = Vec::new();
        assert(all.skip(k as int) =~= Seq::<Seq<char>>::empty());
        while k > 0
            invariant
                k <= sels.len(),
                all == sels@.map_values(|s: String| s@),
                tail@ == selected_content(html@, all.skip(k as int)),
            decreases k,
        {
            k -= 1;
            assert(all.skip(k as int)[0] == sels@[k as int]@);
            assert(all.skip(k as int).drop_first() =~= all.skip(k + 1));
            let mut lines: Vec<char> = Vec::new();
            match select_elements(html, sels[k].as_str()) {
                Some(els) => {
                    let ghost ev = els@.map_values(|e: (String, String)| (e.0@, e.1@));
                    let mut q: usize = els.len();
                    assert(ev.skip(q as int) =~= Seq::<(Seq<char>, Seq<char>)>::empty());
                    while q > 0
                        invariant
                            q <= els.len(),
                            ev == els@.map_values(|e: (String, String)| (e.0@, e.1@)),
                            lines@ == outer_lines(ev.skip(q as int)),
                        decreases q,
                    {
                        q -= 1;
                        let mut line = chars_of(els[q].0.as_str());
                        line.push('\n');
                        extend_chars(&mut line, lines.as_slice());
                        assert(ev.skip(q as int)[0] == ev[q as int]);
                        assert(ev.skip(q as int).drop_first() =~= ev.skip(q + 1));
                        lines = line;
                    }
                    assert(ev.skip(0) =~= ev);
                },
                None => {},
            }
            extend_chars(&mut lines, tail.as_slice());
            tail = lines;
        }
        assert(all.skip(0) =~= all);
        tail
    }

    /// The visible text of the page.
    fn extract_text_only(&self, html: &str) -> (res: Vec<char>)
        ensures
            res@ == visible_text(parsed_document(html@)),
    {
        let ns = parse_document(html);
        let ghost v = vview(&ns);
        if ns.len() == 0 {
            return Vec::new();
        }
        match first_child_element_exec(&ns, 1, 0) {
            None => Vec::new(),
            Some(r) => {
                let end = subtree_end_exec(&ns, r);
                let mut out: Vec<char> = Vec::new();
                let ghost mut got: Seq<Seq<char>> = Seq::empty();
                let mut any = false;
                let mut j = r + 1;
                while j < end
                    invariant
                        r + 1 <= j <= end <= ns.len(),
                        v == vview(&ns),
                        got + text_pieces(v, j as nat, end as nat) == text_pieces(
                            v,
                            (r + 1) as nat,
                            end as nat,
                        ),
                        out@ == joined(nonblank(got), seq![' ']),
                        any == (nonblank(got).len() > 0),
                    decreases end - j,
                {
                    assert(v[j as int] == ns@[j as int]@);
                    let ghost rest = text_pieces(v, (j + 1) as nat, end as nat);
                    match &ns[j].kind {
                        HtmlKind::Text(t) => {
                            let cs = chars_of(t.as_str());
                            let ghost old_got = got;
                            let ghost old_nb = nonblank(got);
                            proof {
                                got = got.push(t@);
                                assert(got.drop_last() =~= old_got);
                                assert(old_got + (seq![t@] + rest) =~= got + rest);
                            }
                            let tr = trim_chars(cs.as_slice());
                            if tr.len() > 0 {
                                if any {
                                    out.push(' ');
                                }
                                extend_chars(&mut out, cs.as_slice());
                                any = true;
                                proof {
                                    assert(nonblank(got) == old_nb.push(t@));
                                    assert(nonblank(got).drop_last() =~= old_nb);
                                    if old_nb.len() == 0 {
                                        assert(nonblank(got) =~= seq![t@]);
                                    }
                                }
                            }
                        },
                        _ => {
                            assert(text_pieces(v, j as nat, end as nat) =~= rest);
                        },
                    }
                    j += 1;
                }
                assert(text_pieces(v, j as nat, end as nat) =~= Seq::<Seq<char>>::empty());
                assert(got + Seq::<Seq<char>>::empty() =~= got);
                out
            },
        }
    }

    /// Extracts the content of the page `html` in the mode that `options`
    /// ask for (the whole page when they name none). The selective mode
    /// needs CSS selectors and is refused without them.
    pub fn extract_content(&self, html: &str, options: &ScrappingOptions) -> (res: Result<
        String,
        Error,
    >)
        ensures
            match extraction(html@, *options) {
                Some(c) => res matches Ok(s) && s@ == c,
                None => res matches Err(e) && e matches Error::Validation { message } && message@
                    == "css_selectors required for selective mode"@,
            },
    {
        let content = match options.mode {
            Some(ExtractionMode::Readability) => self.extract_readability(html),
            Some(ExtractionMode::Selective) => match &options.css_selectors {
                Some(sels) => self.extract_selective(html, sels),
                None => {
                    return Err(
                        Error::Validation {
                            message: String::from_str("css_selectors required for selective mode"),
                        },
                    );
                },
            },
            Some(ExtractionMode::TextOnly) => self.extract_text_only(html),
            _ => self.extract_full(html, &options.exclude_selectors),
        };
        Ok(string_from_vec(content))
    }

    /// The content in the output format: HTML and JSON as it is, Markdown
    /// rendered from it, plain text as the text pieces of the content
    /// parsed as a fragment, joined with single spaces.
    pub fn format_output(&self, content: &str, format: OutputFormat) -> (res: String)
        ensures
            res@ == formatted(content@, format),
    {
        match format {
            OutputFormat::Markdown => MarkdownFormatter::markdown_of_html(content),
            OutputFormat::PlainText => {
                let pieces = fragment_text_pieces(content);
                string_from_vec(join_pieces(&pieces))
            },
            _ => String::from_str(content),
        }
    }
}

} // verus!
