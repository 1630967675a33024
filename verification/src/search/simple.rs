//! The plain DuckDuckGo search: no validation, no cache; the links of a
//! result page are read in order and paired with the snippets by position.
use vstd::prelude::*;

use super::definitions::{
    decode_percent, percent_decoded, result_views, SearchResult, SearchResultView,
};
use crate::text::{
    chars_of, find_chars, find_from, lemma_find_from, slice_chars, starts_with, starts_with_chars,
    string_from_vec, trim, trim_chars,
};
use crate::url::opt_string_view;

verus! {

/// Arguments for performing a DuckDuckGo search.
#[derive(Debug)]
pub struct DuckDuckGoSearchArgs {
    /// The search query string.
    pub query: String,
    /// Maximum number of results to return.
    pub max_results: usize,
    /// Region code for localized search results (e.g. `wt-wt` for worldwide).
    pub region: String,
}

/// The address a result link leads to: the percent-decoded `uddg`
/// parameter of a DuckDuckGo redirect link when it decodes, the link itself
/// otherwise.
pub open spec fn plain_link_target(href: Seq<char>) -> Seq<char> {
    match find_from(href, "uddg="@, 0) {
        Some(start) => {
            let enc = href.skip(start + 5);
            let end = match find_from(enc, seq!['&'], 0) {
                Some(e) => e,
                None => enc.len() as int,
            };
            match percent_decoded(enc.take(end)) {
                Some(d) => d,
                None => href,
            }
        },
        None => href,
    }
}

/// Extracts the actual URL from a DuckDuckGo result link, or gives the link back.
pub fn extract_url(href: &str) -> (res: String)
    ensures
        res@ == plain_link_target(href@),
{
    let h = chars_of(href);
    let marker = chars_of("uddg=");
    proof {
        reveal_strlit("uddg=");
        lemma_find_from(h@, marker@, 0);
        assert(marker@.len() == 5);
    }
    if let Some(start) = find_chars(h.as_slice(), marker.as_slice(), 0) {
        assert(start + marker@.len() <= h@.len());
        assert(marker@.len() == 5);
        assert(start + 5 <= h.len());
        let enc = slice_chars(h.as_slice(), start + 5, h.len());
        assert(enc@ =~= h@.skip(start + 5));
        let amp: Vec<char> = vec!['&'];
        assert(amp@ =~= seq!['&']);
        proof {
            lemma_find_from(enc@, seq!['&'], 0);
        }
        let end = match find_chars(enc.as_slice(), amp.as_slice(), 0) {
            Some(e) => e,
            None => enc.len(),
        };
        let encoded = slice_chars(enc.as_slice(), 0, end);
        assert(encoded@ =~= enc@.take(end as int));
        let encoded_url = string_from_vec(encoded);
        if let Some(decoded) = decode_percent(encoded_url.as_str()) {
            return decoded;
        }
    }
    String::from_str(href)
}

/// The abstract value of a raw link.
pub struct RawLinkView {
    pub href: Option<Seq<char>>,
    pub title: Seq<char>,
}

/// What the HTML gives for one result link: its `href`, if any, and its text.
pub struct RawLink {
    pub href: Option<String>,
    pub title: String,
}

impl View for RawLink {
    type V = RawLinkView;

    open spec fn view(&self) -> RawLinkView {
        RawLinkView { href: opt_string_view(self.href), title: self.title@ }
    }
}

/// The snippet paired with the link at position `i`: the trimmed text of
/// the snippet at the same position, unless it is blank.
pub open spec fn snippet_at(snippets: Seq<Seq<char>>, i: int) -> Option<Seq<char>> {
    if 0 <= i < snippets.len() && trim(snippets[i]).len() > 0 {
        Some(trim(snippets[i]))
    } else {
        None
    }
}

/// The result the link at position `i` yields: it needs an `href` that does
/// not lead to an empty address or back to DuckDuckGo, and a title that is
/// not blank.
pub open spec fn link_result(link: RawLinkView, snippets: Seq<Seq<char>>, i: int) -> Option<
    SearchResultView,
> {
    match link.href {
        None => None,
        Some(h) => {
            let url = plain_link_target(h);
            if url.len() == 0 || starts_with(url, "//duckduckgo.com"@) || trim(link.title).len()
                == 0 {
                None
            } else {
                Some(
                    SearchResultView {
                        title: trim(link.title),
                        url,
                        snippet: snippet_at(snippets, i),
                    },
                )
            }
        },
    }
}

/// The results from the links at positions `i` on, after those in `acc`,
/// until `max` results are there.
pub open spec fn links_from(
    links: Seq<RawLinkView>,
    snippets: Seq<Seq<char>>,
    i: int,
    max: int,
    acc: Seq<SearchResultView>,
) -> Seq<SearchResultView>
    decreases links.len() - i,
{
    if i < 0 || i >= links.len() || acc.len() >= max {
        acc
    } else {
        let next = match link_result(links[i], snippets, i) {
            Some(r) => acc.push(r),
            None => acc,
        };
        links_from(links, snippets, i + 1, max, next)
    }
}

/// The result the link at position `i` yields.
fn link_result_exec(link: &RawLink, snippets: &Vec<String>, i: usize) -> (res: Option<SearchResult>)
    ensures
        match res {
            Some(r) => link_result(link@, snippets@.map_values(|s: String| s@), i as int) == Some(
                r@,
            ),
            None => link_result(link@, snippets@.map_values(|s: String| s@), i as int) is None,
        },
{
    let ghost snips = snippets@.map_values(|s: String| s@);
    let href = match &link.href {
        Some(h) => h,
        None => return None,
    };
    let url = extract_url(href.as_str());
    let url_chars = chars_of(url.as_str());
    let internal = chars_of("//duckduckgo.com");
    if url_chars.len() == 0 || starts_with_chars(url_chars.as_slice(), internal.as_slice()) {
        return None;
    }
    let title_chars = chars_of(link.title.as_str());
    let title = trim_chars(title_chars.as_slice());
    if title.len() == 0 {
        return None;
    }
    let snippet = if i < snippets.len() {
        assert(snips[i as int] == snippets@[i as int]@);
        let text = chars_of(snippets[i].as_str());
        let trimmed = trim_chars(text.as_slice());
        if trimmed.len() > 0 {
            Some(string_from_vec(trimmed))
        } else {
            None
        }
    } else {
        None
    };
    Some(SearchResult { title: string_from_vec(title), url, snippet })
}

/// Reads the results of a page from its links, pairing each with the
/// snippet at the same position, at most `max_results`.
pub fn select_links(links: &Vec<RawLink>, snippets: &Vec<String>, max_results: usize) -> (res: Vec<
    SearchResult,
>)
    ensures
        result_views(res@) == links_from(
            links@.map_values(|l: RawLink| l@),
            snippets@.map_values(|s: String| s@),
            0,
            max_results as int,
            Seq::empty(),
        ),
        res.len() <= max_results,
{
    let ghost ls = links@.map_values(|l: RawLink| l@);
    let ghost snips = snippets@.map_values(|s: String| s@);
    let mut results: Vec<SearchResult> = Vec::new();
    let mut i: usize = 0;
    assert(result_views(results@) =~= Seq::<SearchResultView>::empty());
    while i < links.len()
        invariant
            i <= links.len(),
            ls == links@.map_values(|l: RawLink| l@),
            snips == snippets@.map_values(|s: String| s@),
            links_from(ls, snips, 0, max_results as int, Seq::empty()) == links_from(
                ls,
                snips,
                i as int,
                max_results as int,
                result_views(results@),
            ),
            results.len() <= max_results,
        ensures
            i == links.len() || results.len() >= max_results,
        decreases links.len() - i,
    {
        if results.len() >= max_results {
            break;
        }
        let ghost acc = result_views(results@);
        assert(ls[i as int] == links@[i as int]@);
        if let Some(r) = link_result_exec(&links[i], snippets, i) {
            results.push(r);
            assert(result_views(results@) =~= acc.push(r@));
        }
        i += 1;
    }
    results
}

} // verus!
