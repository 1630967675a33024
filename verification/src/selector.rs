//! Simple CSS selectors over a parsed document: `tag`, `tag.class` and
//! `ancestor tag`, matched as the `selectors` crate matches them for
//! `scraper` (class names compared exactly, an ancestor anywhere above the
//! element).
use crate::html::{
    is_tag, is_tag_exec, subtree_end, subtree_end_exec, vview, HtmlKind, HtmlNode, KindView,
    NodeView,
};
use crate::storage::joined;
use crate::text::{chars_are, chars_of, extend_chars, matches_at, matches_at_exec};
use vstd::prelude::*;

verus! {

/// ASCII whitespace, which separates the names of a `class` attribute.
pub open spec fn ascii_space(c: char) -> bool {
    c == ' ' || c == '\t' || c == '\n' || c == '\u{c}' || c == '\r'
}

/// `cls` stands at position `i` of `v` as a whole space-separated word.
pub open spec fn token_at(v: Seq<char>, cls: Seq<char>, i: int) -> bool {
    &&& matches_at(v, cls, i)
    &&& (i == 0 || ascii_space(v[i - 1]))
    &&& (i + cls.len() == v.len() || ascii_space(v[i + cls.len()]))
}

/// `cls` is one of the space-separated words of `v`.
pub open spec fn has_token(v: Seq<char>, cls: Seq<char>) -> bool {
    exists|i: int| #[trigger] token_at(v, cls, i)
}

/// Node `n` is an element with the class `cls` in a `class` attribute.
pub open spec fn has_class(n: NodeView, cls: Seq<char>) -> bool {
    match n.kind {
        KindView::Element { attrs, .. } => exists|j: int|
            0 <= j < attrs.len() && (#[trigger] attrs[j]).1 == "class"@ && has_token(
                attrs[j].2,
                cls,
            ),
        _ => false,
    }
}

/// Node `k` lies inside an element named `tag`.
pub open spec fn has_ancestor(ns: Seq<NodeView>, k: nat, tag: Seq<char>) -> bool {
    exists|j: nat| j < k && #[trigger] is_tag(ns[j as int], tag) && k < subtree_end(ns, j)
}

/// A selector: an element name, with a class it must have and the name of
/// an element it must lie inside, where they are given.
pub struct SelectorView {
    pub tag: Seq<char>,
    pub class: Option<Seq<char>>,
    pub within: Option<Seq<char>>,
}

/// The selector `within tag.class`, an empty class or `within` meaning none.
pub open spec fn selector_of(tag: Seq<char>, class: Seq<char>, within: Seq<char>) -> SelectorView {
    SelectorView {
        tag,
        class: if class.len() == 0 { None } else { Some(class) },
        within: if within.len() == 0 { None } else { Some(within) },
    }
}

/// Node `k` matches the selector `s`.
pub open spec fn sel_matches(ns: Seq<NodeView>, k: nat, s: SelectorView) -> bool {
    &&& k < ns.len()
    &&& is_tag(ns[k as int], s.tag)
    &&& (s.class matches Some(c) ==> has_class(ns[k as int], c))
    &&& (s.within matches Some(a) ==> has_ancestor(ns, k, a))
}

/// The first node in positions `from..to` that matches `s`.
pub open spec fn first_match(ns: Seq<NodeView>, from: nat, to: nat, s: SelectorView) -> Option<nat>
    decreases to - from,
{
    if from >= to || from >= ns.len() {
        None
    } else if sel_matches(ns, from, s) {
        Some(from)
    } else {
        first_match(ns, from + 1, to, s)
    }
}

/// The positions from `from` on of the nodes that match `s`, in order.
pub open spec fn match_positions(ns: Seq<NodeView>, from: nat, s: SelectorView) -> Seq<nat>
    decreases ns.len() - from,
{
    if from >= ns.len() {
        Seq::empty()
    } else {
        (if sel_matches(ns, from, s) {
            seq![from]
        } else {
            Seq::empty()
        }) + match_positions(ns, from + 1, s)
    }
}

/// The texts of the text nodes in positions `i..end`, one entry each.
pub open spec fn text_pieces(ns: Seq<NodeView>, i: nat, end: nat) -> Seq<Seq<char>>
    decreases end - i,
{
    if i >= end || i >= ns.len() {
        Seq::empty()
    } else {
        (match ns[i as int].kind {
            KindView::Text(t) => seq![t],
            _ => Seq::empty(),
        }) + text_pieces(ns, i + 1, end)
    }
}

/// The texts below node `k`, joined with single spaces
/// (`text().collect::<Vec<_>>().join(" ")`).
pub open spec fn spaced_text(ns: Seq<NodeView>, k: nat) -> Seq<char> {
    joined(text_pieces(ns, k + 1, subtree_end(ns, k)), seq![' '])
}

// ---------------------------------------------------------------------------
// Executable matching

/// Whether `cls` is one of the space-separated words of `v`.
pub fn has_token_exec(v: &[char], cls: &[char]) -> (r: bool)
    ensures
        r == has_token(v@, cls@),
{
    let n = v.len();
    let mut i: usize = 0;
    while i < n
        invariant
            i <= n == v@.len(),
            forall|j: int| 0 <= j < i ==> !#[trigger] token_at(v@, cls@, j),
        decreases n - i,
    {
        if matches_at_exec(v, cls, i) && (i == 0 || is_ascii_space(v[i - 1])) && (cls.len() == n
            - i || is_ascii_space(v[i + cls.len()])) {
            assert(token_at(v@, cls@, i as int));
            return true;
        }
        i += 1;
    }
    if matches_at_exec(v, cls, n) && (n == 0 || is_ascii_space(v[n - 1])) {
        assert(token_at(v@, cls@, n as int));
        return true;
    }
    assert forall|j: int| !#[trigger] token_at(v@, cls@, j) by {
        if j > n {
            assert(!matches_at(v@, cls@, j));
        }
    }
    false
}

fn is_ascii_space(c: char) -> (r: bool)
    ensures
        r == ascii_space(c),
{
    c == ' ' || c == '\t' || c == '\n' || c == '\u{c}' || c == '\r'
}

/// Whether node `k` has the class `cls`.
pub fn has_class_exec(ns: &Vec<HtmlNode>, k: usize, cls: &str) -> (r: bool)
    requires
        k < ns.len(),
    ensures
        r == has_class(vview(ns)[k as int], cls@),
{
    assert(vview(ns)[k as int] == ns@[k as int]@);
    match &ns[k].kind {
        HtmlKind::Element { attrs, .. } => {
            let ghost av = vview(ns)[k as int].kind->attrs;
            let want = chars_of(cls);
            let mut j: usize = 0;
            while j < attrs.len()
                invariant
                    j <= attrs.len(),
                    av == attrs@.map_values(|a: crate::html::HtmlAttr| crate::html::attr_view(a)),
                    k < ns.len(),
                    vview(ns)[k as int].kind is Element,
                    vview(ns)[k as int].kind->attrs == av,
                    want@ == cls@,
                    forall|i: int|
                        0 <= i < j ==> !((#[trigger] av[i]).1 == "class"@ && has_token(
                            av[i].2,
                            cls@,
                        )),
                decreases attrs.len() - j,
            {
                let name = chars_of(attrs[j].name.as_str());
                let value = chars_of(attrs[j].value.as_str());
                assert(av[j as int] == crate::html::attr_view(attrs@[j as int]));
                if chars_are(name.as_slice(), "class") && has_token_exec(
                    value.as_slice(),
                    want.as_slice(),
                ) {
                    assert(av[j as int].1 == "class"@ && has_token(av[j as int].2, cls@));
                    return true;
                }
                j += 1;
            }
            false
        },
        _ => false,
    }
}

/// Whether node `k` lies inside an element named `tag`.
pub fn has_ancestor_exec(ns: &Vec<HtmlNode>, k: usize, tag: &str) -> (r: bool)
    requires
        k < ns.len(),
    ensures
        r == has_ancestor(vview(ns), k as nat, tag@),
{
    let ghost v = vview(ns);
    let mut j: usize = 0;
    while j < k
        invariant
            j <= k < ns.len(),
            v == vview(ns),
            forall|i: nat|
                i < j ==> !(#[trigger] is_tag(v[i as int], tag@) && k < subtree_end(v, i)),
        decreases k - j,
    {
        if is_tag_exec(ns, j, tag) {
            let e = subtree_end_exec(ns, j);
            if k < e {
                assert(is_tag(v[j as int], tag@) && k < subtree_end(v, j as nat));
                return true;
            }
        }
        j += 1;
    }
    false
}

/// Whether node `k` matches the selector `within tag.class` (an empty
/// class or `within` meaning none).
pub fn sel_matches_exec(ns: &Vec<HtmlNode>, k: usize, tag: &str, class: &str, within: &str) -> (r:
    bool)
    requires
        k < ns.len(),
    ensures
        r == sel_matches(vview(ns), k as nat, selector_of(tag@, class@, within@)),
{
    if !is_tag_exec(ns, k, tag) {
        return false;
    }
    let c = chars_of(class);
    if c.len() > 0 && !has_class_exec(ns, k, class) {
        return false;
    }
    let w = chars_of(within);
    if w.len() > 0 && !has_ancestor_exec(ns, k, within) {
        return false;
    }
    true
}

/// `first_match` computed.
pub fn first_match_exec(
    ns: &Vec<HtmlNode>,
    from: usize,
    to: usize,
    tag: &str,
    class: &str,
    within: &str,
) -> (res: Option<usize>)
    ensures
        res matches Some(k) ==> k < ns.len() && first_match(
            vview(ns),
            from as nat,
            to as nat,
            selector_of(tag@, class@, within@),
        ) == Some(k as nat),
        res is None ==> first_match(
            vview(ns),
            from as nat,
            to as nat,
            selector_of(tag@, class@, within@),
        ) is None,
{
    let ghost s = selector_of(tag@, class@, within@);
    let ghost v = vview(ns);
    let mut k = from;
    while k < to && k < ns.len()
        invariant
            from <= k,
            v == vview(ns),
            s == selector_of(tag@, class@, within@),
            first_match(v, k as nat, to as nat, s) == first_match(v, from as nat, to as nat, s),
        decreases to - k,
    {
        let hit = sel_matches_exec(ns, k, tag, class, within);
        assert(hit == sel_matches(v, k as nat, s));
        assert(first_match(v, k as nat, to as nat, s) == if hit {
            Some(k as nat)
        } else {
            first_match(v, (k + 1) as nat, to as nat, s)
        });
        if hit {
            return Some(k);
        }
        k += 1;
    }
    None
}

/// `match_positions` from the start of the document, computed.
pub fn match_positions_exec(ns: &Vec<HtmlNode>, tag: &str, class: &str, within: &str) -> (res: Vec<
    usize,
>)
    ensures
        res@.map_values(|k: usize| k as nat) == match_positions(
            vview(ns),
            0,
            selector_of(tag@, class@, within@),
        ),
        forall|i: int| 0 <= i < res.len() ==> #[trigger] res@[i] < ns.len(),
{
    let ghost s = selector_of(tag@, class@, within@);
    let ghost v = vview(ns);
    let mut res: Vec<usize> = Vec::new();
    let mut k: usize = 0;
    while k < ns.len()
        invariant
            k <= ns.len(),
            v == vview(ns),
            s == selector_of(tag@, class@, within@),
            res@.map_values(|k: usize| k as nat) + match_positions(v, k as nat, s)
                == match_positions(v, 0, s),
            forall|i: int| 0 <= i < res.len() ==> #[trigger] res@[i] < ns.len(),
        decreases ns.len() - k,
    {
        let ghost before = res@.map_values(|k: usize| k as nat);
        let hit = sel_matches_exec(ns, k, tag, class, within);
        assert(hit == sel_matches(v, k as nat, s));
        if hit {
            res.push(k);
            assert(res@.map_values(|k: usize| k as nat) =~= before.push(k as nat));
            assert(before.push(k as nat) + match_positions(v, (k + 1) as nat, s) =~= before + (
            seq![k as nat] + match_positions(v, (k + 1) as nat, s)));
        } else {
            assert(match_positions(v, k as nat, s) =~= match_positions(v, (k + 1) as nat, s));
        }
        k += 1;
    }
    assert(match_positions(v, k as nat, s) =~= Seq::<nat>::empty());
    assert(res@.map_values(|k: usize| k as nat) + Seq::<nat>::empty() =~= res@.map_values(
        |k: usize| k as nat,
    ));
    res
}

/// `spaced_text` computed.
pub fn spaced_text_exec(ns: &Vec<HtmlNode>, k: usize) -> (res: Vec<char>)
    requires
        k < ns.len(),
    ensures
        res@ == spaced_text(vview(ns), k as nat),
{
    let ghost v = vview(ns);
    let end = subtree_end_exec(ns, k);
    let mut out: Vec<char> = Vec::new();
    let ghost mut got: Seq<Seq<char>> = Seq::empty();
    let mut any = false;
    let mut j = k + 1;
    while j < end
        invariant
            k + 1 <= j <= end <= ns.len(),
            v == vview(ns),
            end == subtree_end(v, k as nat),
            got + text_pieces(v, j as nat, end as nat) == text_pieces(v, (k + 1) as nat, end as nat),
            out@ == joined(got, seq![' ']),
            any == (got.len() > 0),
        decreases end - j,
    {
        assert(v[j as int] == ns@[j as int]@);
        let ghost rest = text_pieces(v, (j + 1) as nat, end as nat);
        match &ns[j].kind {
            HtmlKind::Text(t) => {
                let cs = chars_of(t.as_str());
                let ghost old_got = got;
                if any {
                    out.push(' ');
                }
                extend_chars(&mut out, cs.as_slice());
                any = true;
                proof {
                    got = got.push(t@);
                    assert(got.drop_last() =~= old_got);
                    assert(old_got + (seq![t@] + rest) =~= got + rest);
                    if old_got.len() == 0 {
                        assert(got =~= seq![t@]);
                    }
                }
            },
            _ => {
                assert(text_pieces(v, j as nat, end as nat) =~= rest);
            },
        }
        j += 1;
    }
    assert(text_pieces(v, j as nat, end as nat) =~= Seq::<Seq<char>>::empty());
    assert(got + Seq::<Seq<char>>::empty() =~= got);
    out
}

} // verus!
