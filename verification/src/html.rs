//! A parsed HTML document as a flat list of nodes in tree order.
//!
//! Each node records its depth below the document node, so the children of
//! node `i` are the nodes after it, up to the first node that is no deeper
//! than `i`, whose depth is one more than that of `i`. Parsing itself is done
//! by the `scraper` crate; everything that reads the tree is verified here.
use crate::text::{chars_are, chars_of, extend_chars};
use vstd::prelude::*;

verus! {

/// An attribute of an element: its namespace (empty for ordinary HTML
/// attributes), its local name and its value.
pub struct HtmlAttr {
    pub namespace: String,
    pub name: String,
    pub value: String,
}

/// What a node is.
pub enum HtmlKind {
    Element { name: String, attrs: Vec<HtmlAttr> },
    Text(String),
    /// The document itself, a doctype, a comment or a processing instruction.
    Other,
}

/// One node of a document, with its depth below the document node.
pub struct HtmlNode {
    pub depth: usize,
    pub kind: HtmlKind,
}

/// An attribute as (namespace, name, value).
pub type AttrView = (Seq<char>, Seq<char>, Seq<char>);

pub enum KindView {
    Element { name: Seq<char>, attrs: Seq<AttrView> },
    Text(Seq<char>),
    Other,
}

pub struct NodeView {
    pub depth: nat,
    pub kind: KindView,
}

pub open spec fn attr_view(a: HtmlAttr) -> AttrView {
    (a.namespace@, a.name@, a.value@)
}

impl View for HtmlKind {
    type V = KindView;

    open spec fn view(&self) -> KindView {
        match self {
            HtmlKind::Element { name, attrs } => KindView::Element {
                name: name@,
                attrs: attrs@.map_values(|a: HtmlAttr| attr_view(a)),
            },
            HtmlKind::Text(t) => KindView::Text(t@),
            HtmlKind::Other => KindView::Other,
        }
    }
}

impl View for HtmlNode {
    type V = NodeView;

    open spec fn view(&self) -> NodeView {
        NodeView { depth: self.depth as nat, kind: self.kind@ }
    }
}

/// The views of a list of nodes.
pub open spec fn nodes_view(ns: Seq<HtmlNode>) -> Seq<NodeView> {
    ns.map_values(|n: HtmlNode| n@)
}

/// The nodes, in tree order, that `scraper::Html::parse_document` builds
/// from `text`, starting with the document node.
pub uninterp spec fn parsed_document(text: Seq<char>) -> Seq<NodeView>;

/// Parses `text` with `scraper::Html::parse_document` and lists every node
/// of the resulting tree in tree order (the order of `descendants()` from
/// the document node), each with the number of its ancestors. Nothing is
/// claimed of the list beyond its being that function of `text`.
#[verifier::external_body]
pub fn parse_document(text: &str) -> (res: Vec<HtmlNode>)
    ensures
        nodes_view(res@) == parsed_document(text@),
{
    let doc = scraper::Html::parse_document(text);
    doc.tree.root().descendants().map(|n| HtmlNode {
        depth: n.ancestors().count(),
        kind: match n.value() {
            scraper::Node::Element(e) => HtmlKind::Element {
                name: e.name().to_string(),
                attrs: e.attrs.iter().map(|(q, v)| HtmlAttr {
                    namespace: q.ns.to_string(), name: q.local.to_string(), value: v.to_string() },
                ).collect(),
            },
            scraper::Node::Text(t) => HtmlKind::Text(t.text.to_string()),
            _ => HtmlKind::Other,
        },
    }).collect()
}

// ---------------------------------------------------------------------------
// Navigation

/// The first position at or after `i` whose node is no deeper than `d`, or
/// the length of the list: the end of the run of nodes below depth `d`.
pub open spec fn scope_end(ns: Seq<NodeView>, i: nat, d: nat) -> nat
    decreases ns.len() - i,
{
    if i >= ns.len() || ns[i as int].depth <= d {
        i
    } else {
        scope_end(ns, i + 1, d)
    }
}

/// One past the last descendant of node `i`.
pub open spec fn subtree_end(ns: Seq<NodeView>, i: nat) -> nat {
    scope_end(ns, i + 1, ns[i as int].depth)
}

pub proof fn lemma_scope_end_bounds(ns: Seq<NodeView>, i: nat, d: nat)
    ensures
        i <= scope_end(ns, i, d),
        i <= ns.len() ==> scope_end(ns, i, d) <= ns.len(),
        forall|k: nat| i <= k < scope_end(ns, i, d) ==> ns[k as int].depth > d,
        scope_end(ns, i, d) < ns.len() ==> ns[scope_end(ns, i, d) as int].depth <= d,
    decreases ns.len() - i,
{
    if !(i >= ns.len() || ns[i as int].depth <= d) {
        lemma_scope_end_bounds(ns, i + 1, d);
    }
}

/// A deeper bound ends the run no later.
pub proof fn lemma_scope_end_mono(ns: Seq<NodeView>, i: nat, d1: nat, d2: nat)
    requires
        d2 <= d1,
    ensures
        scope_end(ns, i, d1) <= scope_end(ns, i, d2),
    decreases ns.len() - i,
{
    if !(i >= ns.len() || ns[i as int].depth <= d2) {
        lemma_scope_end_mono(ns, i + 1, d1, d2);
        lemma_scope_end_bounds(ns, i + 1, d2);
    }
}

/// Starting anywhere inside the run gives the same end.
pub proof fn lemma_scope_end_skip(ns: Seq<NodeView>, j: nat, m: nat, d: nat)
    requires
        j <= m <= scope_end(ns, j, d),
    ensures
        scope_end(ns, m, d) == scope_end(ns, j, d),
    decreases m - j,
{
    if j < m {
        lemma_scope_end_skip(ns, j + 1, m, d);
    }
}

/// The subtree of a node that lies in a run below `d` ends inside the run,
/// and the run seen from there ends at the same place.
pub proof fn lemma_child_step(ns: Seq<NodeView>, j: nat, d: nat)
    requires
        j < ns.len(),
        ns[j as int].depth > d,
    ensures
        j < subtree_end(ns, j),
        subtree_end(ns, j) <= scope_end(ns, j, d),
        scope_end(ns, subtree_end(ns, j), d) == scope_end(ns, j, d),
{
    lemma_scope_end_bounds(ns, j + 1, ns[j as int].depth);
    lemma_scope_end_mono(ns, j + 1, ns[j as int].depth, d);
    lemma_scope_end_skip(ns, j, subtree_end(ns, j), d);
}

/// The text of node `n`, if it is a text node.
pub open spec fn node_text(n: NodeView) -> Seq<char> {
    match n.kind {
        KindView::Text(t) => t,
        _ => Seq::empty(),
    }
}

/// The text nodes in positions `i..end`, joined.
pub open spec fn texts_between(ns: Seq<NodeView>, i: nat, end: nat) -> Seq<char>
    decreases end - i,
{
    if i >= end || i >= ns.len() {
        Seq::empty()
    } else {
        node_text(ns[i as int]) + texts_between(ns, i + 1, end)
    }
}

/// The text of all descendants of node `i`, in order (`ElementRef::text`).
pub open spec fn element_text(ns: Seq<NodeView>, i: nat) -> Seq<char> {
    texts_between(ns, i + 1, subtree_end(ns, i))
}

/// The value of the attribute `key` without a namespace (`Element::attr`).
pub open spec fn attr_value(attrs: Seq<AttrView>, key: Seq<char>) -> Option<Seq<char>>
    decreases attrs.len(),
{
    if attrs.len() == 0 {
        None
    } else if attrs[0].0.len() == 0 && attrs[0].1 == key {
        Some(attrs[0].2)
    } else {
        attr_value(attrs.drop_first(), key)
    }
}

/// The tag name of node `n`, empty when it is not an element.
pub open spec fn tag_of(n: NodeView) -> Seq<char> {
    match n.kind {
        KindView::Element { name, .. } => name,
        _ => Seq::empty(),
    }
}

pub open spec fn is_element(n: NodeView) -> bool {
    n.kind is Element
}

/// Whether node `n` is an element named `name`.
pub open spec fn is_tag(n: NodeView, name: Seq<char>) -> bool {
    is_element(n) && tag_of(n) == name
}

/// The attribute `key` of node `n`, when it is an element that has one.
pub open spec fn node_attr(n: NodeView, key: Seq<char>) -> Option<Seq<char>> {
    match n.kind {
        KindView::Element { attrs, .. } => attr_value(attrs, key),
        _ => None,
    }
}

/// The first element named `name` at or after position `i`.
pub open spec fn first_tag_from(ns: Seq<NodeView>, i: nat, name: Seq<char>) -> Option<nat>
    decreases ns.len() - i,
{
    if i >= ns.len() {
        None
    } else if is_tag(ns[i as int], name) {
        Some(i)
    } else {
        first_tag_from(ns, i + 1, name)
    }
}

/// Among the nodes below depth `d` from position `j` on, the first element
/// that is a direct child (positions that begin a subtree of the run).
pub open spec fn first_child_element(ns: Seq<NodeView>, j: nat, d: nat) -> Option<nat>
    decreases scope_end(ns, j, d) - j,
{
    if j >= ns.len() || ns[j as int].depth <= d {
        None
    } else if is_element(ns[j as int]) {
        Some(j)
    } else {
        proof {
            lemma_child_step(ns, j, d);
        }
        first_child_element(ns, subtree_end(ns, j), d)
    }
}

// ---------------------------------------------------------------------------
// Executable navigation

/// The views of the nodes of a vector.
pub open spec fn vview(ns: &Vec<HtmlNode>) -> Seq<NodeView> {
    nodes_view(ns@)
}

/// `scope_end` computed.
pub fn scope_end_exec(ns: &Vec<HtmlNode>, i: usize, d: usize) -> (r: usize)
    requires
        i <= ns.len(),
    ensures
        r == scope_end(vview(ns), i as nat, d as nat),
{
    let ghost v = vview(ns);
    let mut k = i;
    while k < ns.len() && ns[k].depth > d
        invariant
            i <= k <= ns.len(),
            v == vview(ns),
            scope_end(v, k as nat, d as nat) == scope_end(v, i as nat, d as nat),
        decreases ns.len() - k,
    {
        assert(v[k as int] == ns@[k as int]@);
        k += 1;
    }
    proof {
        if k < ns.len() {
            assert(v[k as int] == ns@[k as int]@);
        }
    }
    k
}

/// `subtree_end` computed.
pub fn subtree_end_exec(ns: &Vec<HtmlNode>, i: usize) -> (r: usize)
    requires
        i < ns.len(),
    ensures
        r == subtree_end(vview(ns), i as nat),
        i < r <= ns.len(),
{
    proof {
        lemma_scope_end_bounds(vview(ns), (i + 1) as nat, ns@[i as int].depth as nat);
    }
    scope_end_exec(ns, i + 1, ns[i].depth)
}

/// Appends the text nodes in positions `i..end` to `out`.
pub fn push_texts_between(ns: &Vec<HtmlNode>, i: usize, end: usize, out: &mut Vec<char>)
    requires
        i <= end <= ns.len(),
    ensures
        final(out)@ == old(out)@ + texts_between(vview(ns), i as nat, end as nat),
{
    let ghost v = vview(ns);
    let mut acc: Vec<char> = Vec::new();
    let mut j = i;
    while j < end
        invariant
            i <= j <= end <= ns.len(),
            v == vview(ns),
            acc@ + texts_between(v, j as nat, end as nat) == texts_between(v, i as nat, end as nat),
        decreases end - j,
    {
        assert(v[j as int] == ns@[j as int]@);
        match &ns[j].kind {
            HtmlKind::Text(t) => {
                let cs = chars_of(t.as_str());
                extend_chars(&mut acc, cs.as_slice());
            },
            _ => {},
        }
        assert(acc@ + texts_between(v, (j + 1) as nat, end as nat) == texts_between(
            v,
            i as nat,
            end as nat,
        )) by {
            assert(texts_between(v, j as nat, end as nat) == node_text(v[j as int])
                + texts_between(v, (j + 1) as nat, end as nat));
        }
        j += 1;
    }
    extend_chars(out, acc.as_slice());
}

/// The text of all descendants of element `i`.
pub fn element_text_exec(ns: &Vec<HtmlNode>, i: usize) -> (res: Vec<char>)
    requires
        i < ns.len(),
    ensures
        res@ == element_text(vview(ns), i as nat),
{
    let e = subtree_end_exec(ns, i);
    let mut res: Vec<char> = Vec::new();
    push_texts_between(ns, i + 1, e, &mut res);
    res
}

/// `attr_value` computed.
pub fn attr_lookup(attrs: &Vec<HtmlAttr>, key: &str) -> (res: Option<Vec<char>>)
    ensures
        res matches Some(v) ==> attr_value(attrs@.map_values(|a: HtmlAttr| attr_view(a)), key@)
            == Some(v@),
        res is None ==> attr_value(attrs@.map_values(|a: HtmlAttr| attr_view(a)), key@) is None,
{
    let ghost all = attrs@.map_values(|a: HtmlAttr| attr_view(a));
    assert(all.subrange(0, all.len() as int) =~= all);
    let mut k: usize = 0;
    while k < attrs.len()
        invariant
            k <= attrs.len(),
            all == attrs@.map_values(|a: HtmlAttr| attr_view(a)),
            attr_value(all.subrange(k as int, all.len() as int), key@) == attr_value(all, key@),
        decreases attrs.len() - k,
    {
        let a = &attrs[k];
        let ns = chars_of(a.namespace.as_str());
        let nm = chars_of(a.name.as_str());
        let kc = chars_of(key);
        assert(all.subrange(k as int, all.len() as int)[0] == attr_view(attrs@[k as int]));
        if ns.len() == 0 && crate::text::chars_eq(nm.as_slice(), kc.as_slice()) {
            let v = chars_of(a.value.as_str());
            return Some(v);
        }
        assert(all.subrange(k as int, all.len() as int).drop_first() =~= all.subrange(
            k + 1,
            all.len() as int,
        ));
        k += 1;
    }
    None
}

/// Whether node `i` is an element named `lit`.
pub fn is_tag_exec(ns: &Vec<HtmlNode>, i: usize, lit: &str) -> (r: bool)
    requires
        i < ns.len(),
    ensures
        r == is_tag(vview(ns)[i as int], lit@),
{
    assert(vview(ns)[i as int] == ns@[i as int]@);
    match &ns[i].kind {
        HtmlKind::Element { name, .. } => {
            let cs = chars_of(name.as_str());
            chars_are(cs.as_slice(), lit)
        },
        _ => false,
    }
}

/// The attribute `key` of node `i`.
pub fn node_attr_exec(ns: &Vec<HtmlNode>, i: usize, key: &str) -> (res: Option<Vec<char>>)
    requires
        i < ns.len(),
    ensures
        res matches Some(v) ==> node_attr(vview(ns)[i as int], key@) == Some(v@),
        res is None ==> node_attr(vview(ns)[i as int], key@) is None,
{
    assert(vview(ns)[i as int] == ns@[i as int]@);
    match &ns[i].kind {
        HtmlKind::Element { attrs, .. } => attr_lookup(attrs, key),
        _ => None,
    }
}

/// `first_tag_from` computed.
pub fn first_tag_exec(ns: &Vec<HtmlNode>, i: usize, name: &str) -> (res: Option<usize>)
    requires
        i <= ns.len(),
    ensures
        res matches Some(k) ==> first_tag_from(vview(ns), i as nat, name@) == Some(k as nat) && k
            < ns.len(),
        res is None ==> first_tag_from(vview(ns), i as nat, name@) is None,
{
    let mut k = i;
    while k < ns.len()
        invariant
            i <= k <= ns.len(),
            first_tag_from(vview(ns), k as nat, name@) == first_tag_from(
                vview(ns),
                i as nat,
                name@,
            ),
        decreases ns.len() - k,
    {
        if is_tag_exec(ns, k, name) {
            return Some(k);
        }
        k += 1;
    }
    None
}

/// `first_child_element` computed.
pub fn first_child_element_exec(ns: &Vec<HtmlNode>, j: usize, d: usize) -> (res: Option<usize>)
    requires
        j <= ns.len(),
    ensures
        res matches Some(k) ==> first_child_element(vview(ns), j as nat, d as nat) == Some(
            k as nat,
        ) && k < ns.len(),
        res is None ==> first_child_element(vview(ns), j as nat, d as nat) is None,
    decreases scope_end(vview(ns), j as nat, d as nat) - j,
{
    let ghost v = vview(ns);
    if j >= ns.len() || ns[j].depth <= d {
        proof {
            if j < ns.len() {
                assert(v[j as int] == ns@[j as int]@);
            }
        }
        return None;
    }
    assert(v[j as int] == ns@[j as int]@);
    match &ns[j].kind {
        HtmlKind::Element { .. } => Some(j),
        _ => {
            proof {
                lemma_child_step(v, j as nat, d as nat);
            }
            let e = subtree_end_exec(ns, j);
            first_child_element_exec(ns, e, d)
        },
    }
}

} // verus!
