//! HTML to Markdown: the rendering of a parsed document's body.
//!
//! Headings, paragraphs, emphasis, code, preformatted blocks, quotes, links,
//! images and lists become their Markdown forms; any other element renders
//! its children, and text renders as it is.
use crate::formatters::markdown::{md_lines, MarkdownFormatter};
use crate::html::{
    scope_end, texts_between, element_text, element_text_exec, first_child_element, first_child_element_exec,
    first_tag_exec, first_tag_from, lemma_child_step, lemma_scope_end_bounds, node_attr,
    node_attr_exec, parse_document, parsed_document, subtree_end, subtree_end_exec, tag_of,
    vview, HtmlKind, HtmlNode, KindView, NodeView, nodes_view,
};
use crate::text::{chars_are, chars_of, extend_chars, views};
use vstd::prelude::*;

verus! {

/// The indentation of a list item at list depth `ld`: two spaces for each
/// enclosing list beyond the first.
pub open spec fn item_indent(ld: nat) -> Seq<char>
    decreases ld,
{
    if ld <= 1 {
        Seq::empty()
    } else {
        "  "@ + item_indent((ld - 1) as nat)
    }
}

/// Each line prefixed with `> ` and ended with a line feed.
pub open spec fn quote_lines(lines: Seq<Seq<char>>) -> Seq<char>
    decreases lines.len(),
{
    if lines.len() == 0 {
        Seq::empty()
    } else {
        "> "@ + lines[0] + "\n"@ + quote_lines(lines.drop_first())
    }
}

/// The heading marker of `h1`..`h6`, if `name` is one.
pub open spec fn heading_marker(name: Seq<char>) -> Option<Seq<char>> {
    if name == "h1"@ {
        Some("# "@)
    } else if name == "h2"@ {
        Some("## "@)
    } else if name == "h3"@ {
        Some("### "@)
    } else if name == "h4"@ || name == "h5"@ || name == "h6"@ {
        Some("#### "@)
    } else {
        None
    }
}

/// The Markdown of element `i` when it does not render its children:
/// headings, line breaks, rules, code, quotes and images.
pub open spec fn leaf_markdown(ns: Seq<NodeView>, i: nat, pre: bool) -> Option<Seq<char>> {
    let n = ns[i as int];
    let name = tag_of(n);
    let txt = element_text(ns, i);
    if heading_marker(name) is Some {
        Some(heading_marker(name)->0 + txt + "\n\n"@)
    } else if name == "br"@ {
        Some("  \n"@)
    } else if name == "hr"@ {
        Some("\n---\n\n"@)
    } else if name == "code"@ {
        if pre {
            Some(txt)
        } else {
            Some("`"@ + txt + "`"@)
        }
    } else if name == "blockquote"@ {
        Some(quote_lines(md_lines(txt)) + "\n"@)
    } else if name == "img"@ {
        let alt = match node_attr(n, "alt"@) {
            Some(a) => a,
            None => Seq::empty(),
        };
        let src = match node_attr(n, "src"@) {
            Some(s) => s,
            None => Seq::empty(),
        };
        Some("!["@ + alt + "]("@ + src + ")"@)
    } else {
        None
    }
}

/// What an element that renders its children writes before them.
pub open spec fn open_mark(n: NodeView, ld: nat, parent_ol: bool) -> Seq<char> {
    let name = tag_of(n);
    if name == "pre"@ {
        "```\n"@
    } else if name == "ul"@ || name == "ol"@ {
        "\n"@
    } else if name == "strong"@ || name == "b"@ {
        "**"@
    } else if name == "em"@ || name == "i"@ {
        "*"@
    } else if name == "a"@ && node_attr(n, "href"@) is Some {
        "["@
    } else if name == "li"@ {
        item_indent(ld) + if parent_ol {
            "1. "@
        } else {
            "- "@
        }
    } else {
        Seq::empty()
    }
}

/// What an element that renders its children writes after them.
pub open spec fn close_mark(n: NodeView) -> Seq<char> {
    let name = tag_of(n);
    if name == "pre"@ {
        "\n```\n\n"@
    } else if name == "ul"@ || name == "ol"@ {
        "\n"@
    } else if name == "p"@ {
        "\n\n"@
    } else if name == "strong"@ || name == "b"@ {
        "**"@
    } else if name == "em"@ || name == "i"@ {
        "*"@
    } else if name == "a"@ && node_attr(n, "href"@) is Some {
        "]("@ + node_attr(n, "href"@)->0 + ")"@
    } else if name == "li"@ {
        "\n"@
    } else {
        Seq::empty()
    }
}

/// The list depth inside element `n`: one more inside `ul` and `ol`.
pub open spec fn inner_list_depth(n: NodeView, ld: nat) -> nat {
    if tag_of(n) == "ul"@ || tag_of(n) == "ol"@ {
        ld + 1
    } else {
        ld
    }
}

/// Node `i` rendered to Markdown inside `ld` lists, with `pre` telling
/// whether a preformatted block is open and `parent_ol` whether its parent
/// is an `ol` element; also whether a preformatted block is open afterwards.
pub open spec fn render_node(ns: Seq<NodeView>, i: nat, ld: nat, pre: bool, parent_ol: bool) -> (
    Seq<char>,
    bool,
)
    decreases subtree_end(ns, i) - i, 1nat,
{
    if i >= ns.len() {
        (Seq::empty(), pre)
    } else {
        match ns[i as int].kind {
            KindView::Text(t) => (t, pre),
            KindView::Other => (Seq::empty(), pre),
            KindView::Element { .. } => render_element(ns, i, ld, pre, parent_ol),
        }
    }
}

/// Element `i` rendered: a leaf as `leaf_markdown` gives it, any other
/// element as its children between its opening and closing marks. A `pre`
/// element renders its children inside a preformatted block and closes it.
pub open spec fn render_element(
    ns: Seq<NodeView>,
    i: nat,
    ld: nat,
    pre: bool,
    parent_ol: bool,
) -> (Seq<char>, bool)
    decreases subtree_end(ns, i) - i, 0nat,
{
    if i >= ns.len() {
        (Seq::empty(), pre)
    } else if leaf_markdown(ns, i, pre) is Some {
        (leaf_markdown(ns, i, pre)->0, pre)
    } else {
        proof {
            lemma_scope_end_bounds(ns, i + 1, ns[i as int].depth);
        }
        let n = ns[i as int];
        let is_pre = tag_of(n) == "pre"@;
        let r = render_children(
            ns,
            i + 1,
            n.depth,
            inner_list_depth(n, ld),
            is_pre || pre,
            tag_of(n) == "ol"@,
        );
        (open_mark(n, ld, parent_ol) + r.0 + close_mark(n), if is_pre {
            false
        } else {
            r.1
        })
    }
}

/// The children of a node of depth `d`, from position `j` on, rendered in
/// turn, each seeing whether the ones before it left a preformatted block
/// open.
pub open spec fn render_children(
    ns: Seq<NodeView>,
    j: nat,
    d: nat,
    ld: nat,
    pre: bool,
    parent_ol: bool,
) -> (Seq<char>, bool)
    decreases crate::html::scope_end(ns, j, d) - j, 2nat,
{
    if j >= ns.len() || ns[j as int].depth <= d {
        (Seq::empty(), pre)
    } else {
        proof {
            lemma_child_step(ns, j, d);
        }
        let a = render_node(ns, j, ld, pre, parent_ol);
        let b = render_children(ns, subtree_end(ns, j), d, ld, a.1, parent_ol);
        (a.0 + b.0, b.1)
    }
}

/// The Markdown of a parsed document: its first `body` element rendered,
/// or, when there is none, the first element child of the root element.
pub open spec fn document_markdown(ns: Seq<NodeView>) -> Seq<char> {
    match first_tag_from(ns, 0, "body"@) {
        Some(b) => render_node(ns, b, 0, false, false).0,
        None => {
            if ns.len() == 0 {
                Seq::empty()
            } else {
                match first_child_element(ns, 1, ns[0].depth) {
                    Some(r) => match first_child_element(ns, r + 1, ns[r as int].depth) {
                        Some(c) => render_node(ns, c, 0, false, false).0,
                        None => Seq::empty(),
                    },
                    None => Seq::empty(),
                }
            }
        },
    }
}

/// Appends the characters of `s` to `out`.
fn push_lit(out: &mut Vec<char>, s: &str)
    ensures
        final(out)@ == old(out)@ + s@,
{
    let cs = chars_of(s);
    extend_chars(out, cs.as_slice());
}

fn push_indent(out: &mut Vec<char>, ld: usize)
    ensures
        final(out)@ == old(out)@ + item_indent(ld as nat),
    decreases ld,
{
    if ld > 1 {
        push_lit(out, "  ");
        push_indent(out, ld - 1);
        assert(item_indent(ld as nat) == "  "@ + item_indent((ld - 1) as nat));
    }
}

fn push_quote_lines(out: &mut Vec<char>, lines: &Vec<Vec<char>>)
    ensures
        final(out)@ == old(out)@ + quote_lines(views(lines@)),
{
    let ghost ls = views(lines@);
    assert(ls.subrange(0, ls.len() as int) =~= ls);
    let mut k: usize = 0;
    while k < lines.len()
        invariant
            k <= lines.len(),
            ls == views(lines@),
            out@ + quote_lines(ls.subrange(k as int, ls.len() as int)) == old(out)@ + quote_lines(
                ls,
            ),
        decreases lines.len() - k,
    {
        proof {
            let rest = ls.subrange(k as int, ls.len() as int);
            assert(rest.drop_first() =~= ls.subrange(k + 1, ls.len() as int));
            assert(rest[0] == lines@[k as int]@);
        }
        push_lit(out, "> ");
        extend_chars(out, lines[k].as_slice());
        push_lit(out, "\n");
        k += 1;
    }
    assert(ls.subrange(ls.len() as int, ls.len() as int) =~= Seq::<Seq<char>>::empty());
}

fn heading_marker_exec(name: &[char]) -> (res: Option<&'static str>)
    ensures
        res matches Some(m) ==> heading_marker(name@) == Some(m@),
        res is None ==> heading_marker(name@) is None,
{
    if chars_are(name, "h1") {
        Some("# ")
    } else if chars_are(name, "h2") {
        Some("## ")
    } else if chars_are(name, "h3") {
        Some("### ")
    } else if chars_are(name, "h4") || chars_are(name, "h5") || chars_are(name, "h6") {
        Some("#### ")
    } else {
        None
    }
}

/// The tag name of node `i`, empty when it is not an element.
fn tag_chars(ns: &Vec<HtmlNode>, i: usize) -> (res: Vec<char>)
    requires
        i < ns.len(),
    ensures
        res@ == tag_of(vview(ns)[i as int]),
{
    assert(vview(ns)[i as int] == ns@[i as int]@);
    match &ns[i].kind {
        HtmlKind::Element { name, .. } => chars_of(name.as_str()),
        _ => Vec::new(),
    }
}

/// `leaf_markdown` computed.
#[verifier::rlimit(30)]
fn leaf_markdown_exec(ns: &Vec<HtmlNode>, i: usize, pre: bool) -> (res: Option<Vec<char>>)
    requires
        i < ns.len(),
    ensures
        res matches Some(s) ==> leaf_markdown(vview(ns), i as nat, pre) == Some(s@),
        res is None ==> leaf_markdown(vview(ns), i as nat, pre) is None,
{
    let nm = tag_chars(ns, i);
    let n = nm.as_slice();
    let mut out: Vec<char> = Vec::new();
    if let Some(m) = heading_marker_exec(n) {
        let txt = element_text_exec(ns, i);
        push_lit(&mut out, m);
        extend_chars(&mut out, txt.as_slice());
        push_lit(&mut out, "\n\n");
        Some(out)
    } else if chars_are(n, "br") {
        push_lit(&mut out, "  \n");
        Some(out)
    } else if chars_are(n, "hr") {
        push_lit(&mut out, "\n---\n\n");
        Some(out)
    } else if chars_are(n, "code") {
        let txt = element_text_exec(ns, i);
        if pre {
            extend_chars(&mut out, txt.as_slice());
        } else {
            push_lit(&mut out, "`");
            extend_chars(&mut out, txt.as_slice());
            push_lit(&mut out, "`");
        }
        Some(out)
    } else if chars_are(n, "blockquote") {
        let txt = element_text_exec(ns, i);
        let lines = MarkdownFormatter::split_lines(txt.as_slice());
        push_quote_lines(&mut out, &lines);
        push_lit(&mut out, "\n");
        Some(out)
    } else if chars_are(n, "img") {
        let alt = node_attr_exec(ns, i, "alt");
        let src = node_attr_exec(ns, i, "src");
        push_lit(&mut out, "![");
        if let Some(a) = alt {
            extend_chars(&mut out, a.as_slice());
        }
        push_lit(&mut out, "](");
        if let Some(s) = src {
            extend_chars(&mut out, s.as_slice());
        }
        push_lit(&mut out, ")");
        Some(out)
    } else {
        None
    }
}

/// `open_mark` computed.
fn open_mark_exec(ns: &Vec<HtmlNode>, i: usize, ld: usize, parent_ol: bool) -> (res: Vec<char>)
    requires
        i < ns.len(),
    ensures
        res@ == open_mark(vview(ns)[i as int], ld as nat, parent_ol),
{
    let nm = tag_chars(ns, i);
    let n = nm.as_slice();
    let mut out: Vec<char> = Vec::new();
    if chars_are(n, "pre") {
        push_lit(&mut out, "```\n");
    } else if chars_are(n, "ul") || chars_are(n, "ol") {
        push_lit(&mut out, "\n");
    } else if chars_are(n, "strong") || chars_are(n, "b") {
        push_lit(&mut out, "**");
    } else if chars_are(n, "em") || chars_are(n, "i") {
        push_lit(&mut out, "*");
    } else if chars_are(n, "a") && node_attr_exec(ns, i, "href").is_some() {
        push_lit(&mut out, "[");
    } else if chars_are(n, "li") {
        push_indent(&mut out, ld);
        if parent_ol {
            push_lit(&mut out, "1. ");
        } else {
            push_lit(&mut out, "- ");
        }
    }
    out
}

/// `close_mark` computed.
fn close_mark_exec(ns: &Vec<HtmlNode>, i: usize) -> (res: Vec<char>)
    requires
        i < ns.len(),
    ensures
        res@ == close_mark(vview(ns)[i as int]),
{
    let nm = tag_chars(ns, i);
    let n = nm.as_slice();
    let href = node_attr_exec(ns, i, "href");
    let mut out: Vec<char> = Vec::new();
    if chars_are(n, "pre") {
        push_lit(&mut out, "\n```\n\n");
    } else if chars_are(n, "ul") || chars_are(n, "ol") {
        push_lit(&mut out, "\n");
    } else if chars_are(n, "p") {
        push_lit(&mut out, "\n\n");
    } else if chars_are(n, "strong") || chars_are(n, "b") {
        push_lit(&mut out, "**");
    } else if chars_are(n, "em") || chars_are(n, "i") {
        push_lit(&mut out, "*");
    } else if chars_are(n, "a") && href.is_some() {
        if let Some(h) = href {
            push_lit(&mut out, "](");
            extend_chars(&mut out, h.as_slice());
            push_lit(&mut out, ")");
        }
    } else if chars_are(n, "li") {
        push_lit(&mut out, "\n");
    }
    out
}

/// Renders node `i`, appending to `out`.
fn render_node_exec(
    ns: &Vec<HtmlNode>,
    i: usize,
    ld: usize,
    pre: bool,
    parent_ol: bool,
    out: &mut Vec<char>,
) -> (pre_after: bool)
    requires
        i < ns.len(),
        ld <= i,
    ensures
        final(out)@ == old(out)@ + render_node(vview(ns), i as nat, ld as nat, pre, parent_ol).0,
        pre_after == render_node(vview(ns), i as nat, ld as nat, pre, parent_ol).1,
    decreases subtree_end(vview(ns), i as nat) - i, 1nat,
{
    assert(vview(ns)[i as int] == ns@[i as int]@);
    match &ns[i].kind {
        HtmlKind::Text(t) => {
            let cs = chars_of(t.as_str());
            extend_chars(out, cs.as_slice());
            pre
        },
        HtmlKind::Other => pre,
        HtmlKind::Element { .. } => render_element_exec(ns, i, ld, pre, parent_ol, out),
    }
}

/// Renders element `i`, appending to `out`.
#[verifier::rlimit(40)]
fn render_element_exec(
    ns: &Vec<HtmlNode>,
    i: usize,
    ld: usize,
    pre: bool,
    parent_ol: bool,
    out: &mut Vec<char>,
) -> (pre_after: bool)
    requires
        i < ns.len(),
        ld <= i,
    ensures
        final(out)@ == old(out)@ + render_element(vview(ns), i as nat, ld as nat, pre, parent_ol).0,
        pre_after == render_element(vview(ns), i as nat, ld as nat, pre, parent_ol).1,
    decreases subtree_end(vview(ns), i as nat) - i, 0nat,
{
    let ghost v = vview(ns);
    if let Some(leaf) = leaf_markdown_exec(ns, i, pre) {
        extend_chars(out, leaf.as_slice());
        return pre;
    }
    proof {
        lemma_scope_end_bounds(v, (i + 1) as nat, v[i as int].depth);
    }
    assert(v[i as int] == ns@[i as int]@);
    let nm = tag_chars(ns, i);
    let is_pre = chars_are(nm.as_slice(), "pre");
    let is_ol = chars_are(nm.as_slice(), "ol");
    let inner_ld = if is_ol || chars_are(nm.as_slice(), "ul") {
        ld + 1
    } else {
        ld
    };
    assert(inner_ld == inner_list_depth(v[i as int], ld as nat));
    let open = open_mark_exec(ns, i, ld, parent_ol);
    let close = close_mark_exec(ns, i);
    extend_chars(out, open.as_slice());
    let p = render_children_exec(ns, i + 1, ns[i].depth, inner_ld, is_pre || pre, is_ol, out);
    extend_chars(out, close.as_slice());
    if is_pre {
        false
    } else {
        p
    }
}

/// Renders the children of a node of depth `d` from position `j` on.
fn render_children_exec(
    ns: &Vec<HtmlNode>,
    j: usize,
    d: usize,
    ld: usize,
    pre: bool,
    parent_ol: bool,
    out: &mut Vec<char>,
) -> (pre_after: bool)
    requires
        j <= ns.len(),
        ld <= j,
    ensures
        final(out)@ == old(out)@ + render_children(
            vview(ns),
            j as nat,
            d as nat,
            ld as nat,
            pre,
            parent_ol,
        ).0,
        pre_after == render_children(vview(ns), j as nat, d as nat, ld as nat, pre, parent_ol).1,
    decreases crate::html::scope_end(vview(ns), j as nat, d as nat) - j, 2nat,
{
    let ghost v = vview(ns);
    if j >= ns.len() || ns[j].depth <= d {
        proof {
            if j < ns.len() {
                assert(v[j as int] == ns@[j as int]@);
            }
        }
        return pre;
    }
    assert(v[j as int] == ns@[j as int]@);
    proof {
        lemma_child_step(v, j as nat, d as nat);
    }
    let p1 = render_node_exec(ns, j, ld, pre, parent_ol, out);
    let e = subtree_end_exec(ns, j);
    render_children_exec(ns, e, d, ld, p1, parent_ol, out)
}

/// Renders a node list to Markdown as `document_markdown` describes.
pub fn render_document(ns: &Vec<HtmlNode>) -> (res: Vec<char>)
    ensures
        res@ == document_markdown(vview(ns)),
{
    let mut out: Vec<char> = Vec::new();
    match first_tag_exec(ns, 0, "body") {
        Some(b) => {
            let _ = render_node_exec(ns, b, 0, false, false, &mut out);
        },
        None => {
            if ns.len() > 0 {
                assert(vview(ns)[0] == ns@[0]@);
                match first_child_element_exec(ns, 1, ns[0].depth) {
                    Some(r) => {
                        assert(vview(ns)[r as int] == ns@[r as int]@);
                        match first_child_element_exec(ns, r + 1, ns[r].depth) {
                            Some(c) => {
                                let _ = render_node_exec(ns, c, 0, false, false, &mut out);
                            },
                            None => {},
                        }
                    },
                    None => {},
                }
            }
        },
    }
    out
}

impl MarkdownFormatter {
    /// The Markdown that the body of the HTML document `html` renders to.
    pub fn markdown_of_html(html: &str) -> (res: String)
        ensures
            res@ == document_markdown(parsed_document(html@)),
    {
        let nodes = parse_document(html);
        let md = render_document(&nodes);
        crate::text::string_from_vec(md)
    }

    /// The Markdown that a parsed document's body renders to.
    pub fn markdown_of_nodes(nodes: &Vec<HtmlNode>) -> (res: String)
        ensures
            res@ == document_markdown(nodes_view(nodes@)),
    {
        let md = render_document(nodes);
        crate::text::string_from_vec(md)
    }
}

/// The name of the heading element of level `n`: `h` and the digit.
pub open spec fn heading_name(n: nat) -> Seq<char> {
    seq!['h', ((48 + n) as char)]
}

/// The Markdown prefix of a heading of level `n`: as many `#` as the
/// level, at most four, and a space.
pub open spec fn heading_prefix(n: nat) -> Seq<char> {
    Seq::new(if n <= 4 {
        n
    } else {
        4
    }, |k: int| '#') + seq![' ']
}

/// A heading `<hN>` (N from 1 to 6) whose only child is the text `T`
/// renders as `min(N, 4)` hashes, a space, `T` and an empty line, and
/// leaves the preformatted state as it was.
pub proof fn law_heading_markdown(ns: Seq<NodeView>, i: nat, n: nat, t: Seq<char>, ld: nat, pre: bool, parent_ol: bool)
    requires
        1 <= n <= 6,
        i + 1 < ns.len(),
        tag_of(ns[i as int]) == heading_name(n),
        ns[i as int + 1].kind == KindView::Text(t),
        ns[i as int + 1].depth > ns[i as int].depth,
        i + 2 < ns.len() ==> ns[i as int + 2].depth <= ns[i as int].depth,
    ensures
        render_element(ns, i, ld, pre, parent_ol) == (heading_prefix(n) + t + "\n\n"@, pre),
{
    reveal_strlit("h1");
    reveal_strlit("h2");
    reveal_strlit("h3");
    reveal_strlit("h4");
    reveal_strlit("h5");
    reveal_strlit("h6");
    reveal_strlit("# ");
    reveal_strlit("## ");
    reveal_strlit("### ");
    reveal_strlit("#### ");
    let d = ns[i as int].depth;
    assert(scope_end(ns, i + 2, d) == i + 2);
    assert(scope_end(ns, i + 1, d) == i + 2);
    assert(subtree_end(ns, i) == i + 2);
    assert(texts_between(ns, i + 2, i + 2) == Seq::<char>::empty());
    assert(element_text(ns, i) =~= t);
    let name = heading_name(n);
    if n == 1 {
        assert(name =~= "h1"@);
        assert(heading_prefix(n) =~= "# "@);
    } else if n == 2 {
        assert(name =~= "h2"@);
        assert(name != "h1"@);
        assert(heading_prefix(n) =~= "## "@);
    } else if n == 3 {
        assert(name =~= "h3"@);
        assert(name != "h1"@ && name != "h2"@);
        assert(heading_prefix(n) =~= "### "@);
    } else {
        assert(name != "h1"@ && name != "h2"@ && name != "h3"@);
        assert(heading_prefix(n) =~= "#### "@);
        if n == 4 {
            assert(name =~= "h4"@);
        } else if n == 5 {
            assert(name =~= "h5"@);
        } else {
            assert(name =~= "h6"@);
        }
    }
    assert(heading_marker(name) == Some(heading_prefix(n)));
}

} // verus!
