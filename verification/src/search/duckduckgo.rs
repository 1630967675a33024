//! DuckDuckGo search: argument validation, reading result links out of
//! DuckDuckGo's redirects, choosing the results of a page, and answering
//! a search from cached results.
//!
//! Fetching the page happens outside. The page's HTML is parsed with
//! `scraper` and read here: the result containers are found with the first
//! container selector that matches anything, and each container's title
//! link and snippets become a [`RawResult`] of plain strings.
use vstd::prelude::*;

use super::definitions::{
    decode_percent, percent_decoded, result_views, SearchResult, SearchResultView, CACHE_CAPACITY,
    MAX_RESULTS_LIMIT, MIN_RESULTS_LIMIT,
};
use crate::error::Error;
use crate::lru::LRUCache;
use vstd::utf8::encode_utf8;
use crate::text::{
    chars_of, contains, contains_chars, find_chars, find_from, lemma_find_from, slice_chars,
    starts_with, starts_with_chars, string_from_vec, trim, trim_chars, utf8_len, utf8_len_of,
};
use crate::url::{opt_string_view, sanitized, validated, UrlValidator};
use crate::html::{node_attr, node_attr_exec, parse_document, parsed_document, subtree_end, subtree_end_exec, vview, HtmlNode, NodeView};
use crate::selector::{first_match, first_match_exec, match_positions, match_positions_exec, selector_of, spaced_text, spaced_text_exec, SelectorView};

verus! {

/// The abstract value of search arguments.
pub struct SearchArgsView {
    pub query: Seq<char>,
    pub max_results: usize,
    pub region: Seq<char>,
    pub use_cache: bool,
}

/// Arguments for performing a DuckDuckGo search.
#[derive(Debug)]
pub struct DuckDuckGoSearchArgs {
    /// The search query string (1-500 characters once trimmed).
    pub query: String,
    /// Maximum number of results to return (1-100).
    pub max_results: usize,
    /// Region code for localized search results (e.g. `wt-wt` for worldwide).
    pub region: String,
    /// Whether to use cached results if available.
    pub use_cache: bool,
}

impl View for DuckDuckGoSearchArgs {
    type V = SearchArgsView;

    open spec fn view(&self) -> SearchArgsView {
        SearchArgsView {
            query: self.query@,
            max_results: self.max_results,
            region: self.region@,
            use_cache: self.use_cache,
        }
    }
}

/// What is wrong with search arguments, as the message that says so, or
/// `None` when they are valid: the trimmed query must be 1 to 500
/// characters, `max_results` between 1 and 100, the region 1 to 10 bytes.
pub open spec fn validation_feedback(a: SearchArgsView) -> Option<Seq<char>> {
    let q = trim(a.query);
    if q.len() == 0 {
        Some("Search query cannot be empty"@)
    } else if q.len() > 500 {
        Some("Search query cannot exceed 500 characters"@)
    } else if a.max_results < MIN_RESULTS_LIMIT {
        Some("max_results must be at least 1"@)
    } else if a.max_results > MAX_RESULTS_LIMIT {
        Some("max_results cannot exceed 100"@)
    } else if utf8_len(a.region) == 0 || utf8_len(a.region) > 10 {
        Some("Region code must be 1-10 characters"@)
    } else {
        None
    }
}

/// The search error that carries only a message.
pub open spec fn is_search_feedback(e: Error, f: Seq<char>) -> bool {
    e matches Error::Search { query: None, source: None, feedback: Some(m) } && m@ == f
}

/// A search error with the given message.
fn search_feedback(msg: &str) -> (e: Error)
    ensures
        is_search_feedback(e, msg@),
{
    Error::Search { query: None, source: None, feedback: Some(String::from_str(msg)) }
}

impl DuckDuckGoSearchArgs {
    /// Validates the search arguments; the error says what to change.
    pub fn validate(&self) -> (res: Result<(), Error>)
        ensures
            match res {
                Ok(()) => validation_feedback(self@) is None,
                Err(e) => validation_feedback(self@) matches Some(f) && is_search_feedback(e, f),
            },
    {
        let query = chars_of(self.query.as_str());
        let trimmed_query = trim_chars(query.as_slice());
        if trimmed_query.len() == 0 {
            return Err(search_feedback("Search query cannot be empty"));
        }
        if trimmed_query.len() > 500 {
            return Err(search_feedback("Search query cannot exceed 500 characters"));
        }
        if self.max_results < MIN_RESULTS_LIMIT {
            return Err(search_feedback("max_results must be at least 1"));
        }
        if self.max_results > MAX_RESULTS_LIMIT {
            return Err(search_feedback("max_results cannot exceed 100"));
        }
        let region = chars_of(self.region.as_str());
        let region_len = utf8_len_of(region.as_slice());
        if region_len == 0 || region_len > 10 {
            return Err(search_feedback("Region code must be 1-10 characters"));
        }
        Ok(())
    }

    /// A copy of these arguments.
    pub fn copy(&self) -> (r: DuckDuckGoSearchArgs)
        ensures
            r@ == self@,
    {
        DuckDuckGoSearchArgs {
            query: self.query.clone(),
            max_results: self.max_results,
            region: self.region.clone(),
            use_cache: self.use_cache,
        }
    }
}

/// The address a result link leads to. DuckDuckGo redirect links carry it
/// percent-encoded in their `uddg` parameter; other links to DuckDuckGo
/// lead nowhere; absolute HTTP(S) links are kept and protocol-relative ones
/// get `https:`.
pub open spec fn link_target(href: Seq<char>) -> Option<Seq<char>> {
    match find_from(href, "uddg="@, 0) {
        Some(start) => {
            let enc = href.skip(start + 5);
            let end = match find_from(enc, seq!['&'], 0) {
                Some(e) => e,
                None => enc.len() as int,
            };
            percent_decoded(enc.take(end))
        },
        None => if contains(href, "duckduckgo.com"@) {
            None
        } else if starts_with(href, "http://"@) || starts_with(href, "https://"@) {
            Some(href)
        } else if starts_with(href, "//"@) {
            Some("https:"@ + href)
        } else {
            None
        },
    }
}

/// Extracts the actual URL from a DuckDuckGo result link.
pub fn extract_url(href: &str) -> (res: Option<String>)
    ensures
        opt_string_view(res) == link_target(href@),
{
    let h = chars_of(href);
    let marker = chars_of("uddg=");
    proof {
        reveal_strlit("uddg=");
        lemma_find_from(h@, marker@, 0);
        assert(marker@.len() == 5);
    }
    if let Some(start) = find_chars(h.as_slice(), marker.as_slice(), 0) {
        assert(start + marker@.len() <= h@.len());
        assert(marker@.len() == 5);
        assert(start + 5 <= h.len());
        let enc = slice_chars(h.as_slice(), start + 5, h.len());
        assert(enc@ =~= h@.skip(start + 5));
        let amp: Vec<char> = vec!['&'];
        assert(amp@ =~= seq!['&']);
        proof {
            lemma_find_from(enc@, seq!['&'], 0);
        }
        let end = match find_chars(enc.as_slice(), amp.as_slice(), 0) {
            Some(e) => e,
            None => enc.len(),
        };
        let encoded = slice_chars(enc.as_slice(), 0, end);
        assert(encoded@ =~= enc@.take(end as int));
        let encoded_url = string_from_vec(encoded);
        return decode_percent(encoded_url.as_str());
    }
    let ddg = chars_of("duckduckgo.com");
    if contains_chars(h.as_slice(), ddg.as_slice()) {
        return None;
    }
    let http = chars_of("http://");
    let https = chars_of("https://");
    if starts_with_chars(h.as_slice(), http.as_slice()) || starts_with_chars(
        h.as_slice(),
        https.as_slice(),
    ) {
        return Some(String::from_str(href));
    }
    let slashes = chars_of("//");
    if starts_with_chars(h.as_slice(), slashes.as_slice()) {
        let mut s = String::from_str("https:");
        s.append(href);
        return Some(s);
    }
    None
}

/// The abstract value of a raw result.
pub struct RawResultView {
    pub href: Option<Seq<char>>,
    pub title: Seq<char>,
    pub snippets: Seq<Seq<char>>,
}

/// What the HTML of one result container holds: the `href` of its title
/// link (`None` when there is no title link or it has no `href`), the text
/// of that link, and the texts of the snippet elements found, in the order
/// of the snippet selectors.
pub struct RawResult {
    pub href: Option<String>,
    pub title: String,
    pub snippets: Vec<String>,
}

impl View for RawResult {
    type V = RawResultView;

    open spec fn view(&self) -> RawResultView {
        RawResultView {
            href: opt_string_view(self.href),
            title: self.title@,
            snippets: self.snippets@.map_values(|s: String| s@),
        }
    }
}

/// The first snippet text that is not blank, trimmed.
pub open spec fn first_snippet(snips: Seq<Seq<char>>) -> Option<Seq<char>>
    decreases snips.len(),
{
    if snips.len() == 0 {
        None
    } else if trim(snips[0]).len() > 0 {
        Some(trim(snips[0]))
    } else {
        first_snippet(snips.drop_first())
    }
}

/// The result a container yields: its link must lead to a valid URL, which
/// is kept sanitized, and its title must not be blank.
pub open spec fn extracted(raw: RawResultView) -> Option<SearchResultView> {
    match raw.href {
        None => None,
        Some(h) => match link_target(h) {
            None => None,
            Some(target) => match validated(target) {
                None => None,
                Some(valid) => match sanitized(valid) {
                    None => None,
                    Some(clean) => if trim(raw.title).len() == 0 {
                        None
                    } else {
                        Some(
                            SearchResultView {
                                title: trim(raw.title),
                                url: clean,
                                snippet: first_snippet(raw.snippets),
                            },
                        )
                    },
                },
            },
        },
    }
}

/// Some result of `acc` has the URL `u`.
pub open spec fn has_url(acc: Seq<SearchResultView>, u: Seq<char>) -> bool {
    exists|j: int| 0 <= j < acc.len() && (#[trigger] acc[j]).url == u
}

/// The results chosen from the containers `raws`, after those already in
/// `acc`: each container's result in order, skipping URLs already taken,
/// until `max` results are there.
pub open spec fn select_from(
    raws: Seq<RawResultView>,
    max: int,
    acc: Seq<SearchResultView>,
) -> Seq<SearchResultView>
    decreases raws.len(),
{
    if raws.len() == 0 || acc.len() >= max {
        acc
    } else {
        let next = match extracted(raws[0]) {
            Some(r) => if has_url(acc, r.url) {
                acc
            } else {
                acc.push(r)
            },
            None => acc,
        };
        select_from(raws.drop_first(), max, next)
    }
}

/// No two results of `rs` share a URL.
pub open spec fn distinct_urls(rs: Seq<SearchResultView>) -> bool {
    forall|i: int, j: int| 0 <= i < j < rs.len() ==> (#[trigger] rs[i]).url != (#[trigger] rs[j]).url
}

/// The first snippet text that is not blank, trimmed.
fn pick_snippet(snippets: &Vec<String>) -> (res: Option<String>)
    ensures
        opt_string_view(res) == first_snippet(snippets@.map_values(|s: String| s@)),
{
    let ghost all = snippets@.map_values(|s: String| s@);
    let mut i: usize = 0;
    assert(all.skip(0) =~= all);
    while i < snippets.len()
        invariant
            i <= snippets.len(),
            all == snippets@.map_values(|s: String| s@),
            first_snippet(all) == first_snippet(all.skip(i as int)),
        decreases snippets.len() - i,
    {
        let text = chars_of(snippets[i].as_str());
        let trimmed = trim_chars(text.as_slice());
        assert(all.skip(i as int)[0] == all[i as int]);
        if trimmed.len() > 0 {
            return Some(string_from_vec(trimmed));
        }
        assert(all.skip(i as int).drop_first() =~= all.skip(i + 1));
        i += 1;
    }
    assert(all.skip(i as int).len() == 0);
    None
}

/// The result that one container yields, if any.
pub fn extract_result(raw: &RawResult) -> (res: Option<SearchResult>)
    ensures
        match res {
            Some(r) => extracted(raw@) == Some(r@),
            None => extracted(raw@) is None,
        },
{
    let href = match &raw.href {
        Some(h) => h,
        None => return None,
    };
    let target = match extract_url(href.as_str()) {
        Some(t) => t,
        None => return None,
    };
    let valid = match UrlValidator::validate(target.as_str()) {
        Some(v) => v,
        None => return None,
    };
    let clean = match UrlValidator::sanitize(valid.as_str()) {
        Some(c) => c,
        None => return None,
    };
    let title_chars = chars_of(raw.title.as_str());
    let title = trim_chars(title_chars.as_slice());
    if title.len() == 0 {
        return None;
    }
    let snippet = pick_snippet(&raw.snippets);
    Some(SearchResult { title: string_from_vec(title), url: clean, snippet })
}

/// Whether some result of `results` has the URL `url`.
fn url_taken(results: &Vec<SearchResult>, url: &String) -> (r: bool)
    ensures
        r == has_url(result_views(results@), url@),
{
    let ghost rv = result_views(results@);
    let target = chars_of(url.as_str());
    let mut j: usize = 0;
    while j < results.len()
        invariant
            j <= results.len(),
            rv == result_views(results@),
            target@ == url@,
            forall|k: int| 0 <= k < j ==> (#[trigger] rv[k]).url != url@,
        decreases results.len() - j,
    {
        let u = chars_of(results[j].url.as_str());
        if crate::text::chars_eq(u.as_slice(), target.as_slice()) {
            assert(rv[j as int].url == url@);
            return true;
        }
        j += 1;
    }
    false
}

/// Chooses the results of a page from its containers: each container's
/// result in order, skipping URLs already taken, at most `max_results`.
pub fn select_results(raws: &Vec<RawResult>, max_results: usize) -> (res: Vec<SearchResult>)
    ensures
        result_views(res@) == select_from(
            raws@.map_values(|r: RawResult| r@),
            max_results as int,
            Seq::empty(),
        ),
        res.len() <= max_results,
        distinct_urls(result_views(res@)),
{
    let ghost all = raws@.map_values(|r: RawResult| r@);
    let mut results: Vec<SearchResult> = Vec::new();
    let mut i: usize = 0;
    assert(all.skip(0) =~= all);
    assert(result_views(results@) =~= Seq::<SearchResultView>::empty());
    while i < raws.len()
        invariant
            i <= raws.len(),
            all == raws@.map_values(|r: RawResult| r@),
            select_from(all, max_results as int, Seq::empty()) == select_from(
                all.skip(i as int),
                max_results as int,
                result_views(results@),
            ),
            results.len() <= max_results,
            distinct_urls(result_views(results@)),
        ensures
            i == raws.len() || results.len() >= max_results,
        decreases raws.len() - i,
    {
        let ghost acc = result_views(results@);
        if results.len() >= max_results {
            break;
        }
        assert(all.skip(i as int)[0] == all[i as int]);
        assert(all.skip(i as int).drop_first() =~= all.skip(i + 1));
        if let Some(r) = extract_result(&raws[i]) {
            if !url_taken(&results, &r.url) {
                results.push(r);
                assert(result_views(results@) =~= acc.push(r@));
            }
        }
        i += 1;
    }
    proof {
        if i == raws.len() {
            assert(all.skip(i as int).len() == 0);
        }
    }
    results
}

/// A cached search: the arguments it answered and its results.
pub struct DuckDuckGoSearchCached {
    pub params: DuckDuckGoSearchArgs,
    pub results: Vec<SearchResult>,
}

/// The abstract value of a cached search.
pub struct CachedView {
    pub params: SearchArgsView,
    pub results: Seq<SearchResultView>,
}

impl View for DuckDuckGoSearchCached {
    type V = CachedView;

    open spec fn view(&self) -> CachedView {
        CachedView { params: self.params@, results: result_views(self.results@) }
    }
}

/// What a cached search offers for `args`: all its results when it answered
/// the same arguments; its first `args.max_results` results when its query
/// contains the asked one, it asked for at least as many results and for the
/// same region; nothing otherwise, or when it holds no results.
pub open spec fn cache_answer(key: CachedView, args: SearchArgsView) -> Option<Seq<SearchResultView>> {
    if args == key.params && key.results.len() > 0 {
        Some(key.results)
    } else if contains(key.params.query, args.query) && key.params.max_results >= args.max_results
        && key.params.region == args.region && key.results.len() > 0 {
        Some(
            if args.max_results < key.results.len() {
                key.results.take(args.max_results as int)
            } else {
                key.results
            },
        )
    } else {
        None
    }
}

impl DuckDuckGoSearchCached {
    /// The results this cached search offers for `args`.
    pub fn cached_results(&self, args: &DuckDuckGoSearchArgs) -> (res: Option<Vec<SearchResult>>)
        ensures
            match res {
                Some(v) => cache_answer(self@, args@) == Some(result_views(v@)),
                None => cache_answer(self@, args@) is None,
            },
    {
        if self.results.len() == 0 {
            return None;
        }
        let same = self.params.query == args.query && self.params.max_results == args.max_results
            && self.params.region == args.region && self.params.use_cache == args.use_cache;
        if same {
            assert(args@ == self.params@);
            return Some(copy_results(&self.results, self.results.len()));
        }
        let key_query = chars_of(self.params.query.as_str());
        let query = chars_of(args.query.as_str());
        if contains_chars(key_query.as_slice(), query.as_slice()) && self.params.max_results
            >= args.max_results && self.params.region == args.region {
            let n = if args.max_results < self.results.len() {
                args.max_results
            } else {
                self.results.len()
            };
            let taken = copy_results(&self.results, n);
            assert(result_views(self.results@).take(n as int) =~= result_views(taken@));
            assert(n == self.results.len() ==> result_views(self.results@).take(n as int)
                =~= result_views(self.results@));
            return Some(taken);
        }
        None
    }
}

/// Copies of the first `n` results.
fn copy_results(rs: &Vec<SearchResult>, n: usize) -> (res: Vec<SearchResult>)
    requires
        n <= rs.len(),
    ensures
        result_views(res@) == result_views(rs@).take(n as int),
{
    let mut res: Vec<SearchResult> = Vec::new();
    let mut i: usize = 0;
    while i < n
        invariant
            i <= n <= rs.len(),
            result_views(res@) == result_views(rs@).take(i as int),
        decreases n - i,
    {
        let ghost before = result_views(res@);
        res.push(rs[i].copy());
        assert(result_views(res@) =~= before.push(rs@[i as int]@));
        assert(result_views(rs@).take(i + 1) =~= result_views(rs@).take(i as int).push(
            rs@[i as int]@,
        ));
        i += 1;
    }
    proof {
        if n == rs.len() {
            assert(result_views(rs@).take(n as int) =~= result_views(rs@));
        }
    }
    res
}

/// The uppercase hexadecimal digit for `d` in `0..16`.
pub open spec fn upper_hex_digit(d: int) -> char {
    if d < 10 {
        (48 + d) as char
    } else {
        (55 + d) as char
    }
}

/// `b` is an ASCII letter or digit, or one of `-`, `.`, `_`, `~`.
pub open spec fn unreserved(b: u8) -> bool {
    (0x30 <= b <= 0x39) || (0x41 <= b <= 0x5A) || (0x61 <= b <= 0x7A) || b == 0x2D || b == 0x2E
        || b == 0x5F || b == 0x7E
}

/// The bytes `b` percent-encoded: unreserved bytes as they are, every other
/// byte as `%` and two uppercase hexadecimal digits.
pub open spec fn percent_encoded(b: Seq<u8>) -> Seq<char>
    decreases b.len(),
{
    if b.len() == 0 {
        Seq::empty()
    } else {
        let last = b.last();
        percent_encoded(b.drop_last()) + if unreserved(last) {
            seq![last as char]
        } else {
            seq!['%', upper_hex_digit(last as int / 16), upper_hex_digit(last as int % 16)]
        }
    }
}

/// Percent-encodes text with `urlencoding::encode`, which keeps ASCII
/// letters, digits and `-`, `.`, `_`, `~` of the UTF-8 bytes and writes
/// every other byte as `%XX` in uppercase.
#[verifier::external_body]
pub(crate) fn url_encode(s: &str) -> (res: String)
    ensures
        res@ == percent_encoded(encode_utf8(s@)),
{
    urlencoding::encode(s).into_owned()
}

/// The address of the DuckDuckGo HTML results for a query in a region.
pub open spec fn search_url(query: Seq<char>, region: Seq<char>) -> Seq<char> {
    "https://html.duckduckgo.com/html/?q="@ + percent_encoded(encode_utf8(query)) + "&kl="@
        + percent_encoded(encode_utf8(region))
}

/// The answer to a search.
#[derive(Debug)]
pub struct DuckDuckGoSearchResponse {
    /// The search results.
    pub results: Vec<SearchResult>,
    /// The original query.
    pub query: String,
    /// Number of results returned.
    pub count: usize,
    /// Whether results were served from cache.
    pub from_cache: bool,
}

impl DuckDuckGoSearchArgs {
    /// The address of the results page for these arguments.
    pub fn search_url(&self) -> (res: String)
        ensures
            res@ == search_url(self.query@, self.region@),
    {
        let mut url = String::from_str("https://html.duckduckgo.com/html/?q=");
        url.append(url_encode(self.query.as_str()).as_str());
        url.append("&kl=");
        url.append(url_encode(self.region.as_str()).as_str());
        url
    }
}

/// The error for a results page answered with the HTTP status `code`
/// (shown as `status_text`): rate limiting or a CAPTCHA for 429 and 503,
/// an error naming the status for any other code outside 200-299, none for
/// success.
pub fn status_error(query: &str, code: u16, status_text: &str) -> (res: Option<Error>)
    ensures
        (code == 429 || code == 503) ==> (res matches Some(Error::Search {
            query: Some(q),
            source: None,
            feedback: Some(f),
        }) && q@ == query@ && f@ == "Rate limited or CAPTCHA encountered from DuckDuckGo"@),
        !(code == 429 || code == 503) && !(200 <= code < 300) ==> (res matches Some(Error::Search {
            query: Some(q),
            source: None,
            feedback: Some(f),
        }) && q@ == query@ && f@ == "DuckDuckGo returned error status: "@ + status_text@),
        200 <= code < 300 ==> res is None,
{
    if code == 429 || code == 503 {
        Some(
            Error::Search {
                query: Some(String::from_str(query)),
                source: None,
                feedback: Some(String::from_str("Rate limited or CAPTCHA encountered from DuckDuckGo")),
            },
        )
    } else if code < 200 || code >= 300 {
        let mut f = String::from_str("DuckDuckGo returned error status: ");
        f.append(status_text);
        Some(Error::Search { query: Some(String::from_str(query)), source: None, feedback: Some(f) })
    } else {
        None
    }
}

/// Fresh results are cached when caching is asked for and there are some.
pub fn should_cache(args: &DuckDuckGoSearchArgs, results: &Vec<SearchResult>) -> (r: bool)
    ensures
        r == (args.use_cache && results.len() > 0),
{
    args.use_cache && results.len() > 0
}

/// `acc` with `r` added, unless it already has `max` results or one with
/// `r`'s URL.
pub open spec fn add_distinct(acc: Seq<SearchResultView>, r: SearchResultView, max: int) -> Seq<SearchResultView> {
    if acc.len() >= max || has_url(acc, r.url) {
        acc
    } else {
        acc.push(r)
    }
}

/// `acc` with the results of `offer` added in order by `add_distinct`.
pub open spec fn merged(acc: Seq<SearchResultView>, offer: Seq<SearchResultView>, max: int) -> Seq<
    SearchResultView,
>
    decreases offer.len(),
{
    if offer.len() == 0 {
        acc
    } else {
        add_distinct(merged(acc, offer.drop_last(), max), offer.last(), max)
    }
}

/// The results that the cached searches `keys` offer for `args`, the
/// offers of earlier keys first: at most `max_results` of them, with no URL
/// twice.
pub open spec fn cached_offers(keys: Seq<CachedView>, args: SearchArgsView) -> Seq<SearchResultView>
    decreases keys.len(),
{
    if keys.len() == 0 {
        Seq::empty()
    } else {
        merged(
            cached_offers(keys.drop_last(), args),
            match cache_answer(keys.last(), args) {
                Some(r) => r,
                None => Seq::empty(),
            },
            args.max_results as int,
        )
    }
}

/// The cached results offered for `args` by the searches in `cache`, from
/// the most recently used search on.
pub fn cached_lookup(
    cache: &LRUCache<DuckDuckGoSearchCached, CACHE_CAPACITY>,
    args: &DuckDuckGoSearchArgs,
) -> (res: Vec<SearchResult>)
    requires
        cache.wf(),
    ensures
        result_views(res@) == cached_offers(
            cache@.map_values(|c: DuckDuckGoSearchCached| c@),
            args@,
        ),
        res.len() <= args.max_results,
        distinct_urls(result_views(res@)),
{
    let entries = cache.iter();
    let ghost keys = cache@.map_values(|c: DuckDuckGoSearchCached| c@);
    let mut res: Vec<SearchResult> = Vec::new();
    let mut i: usize = 0;
    assert(result_views(res@) =~= Seq::<SearchResultView>::empty());
    while i < entries.len()
        invariant
            i <= entries.len(),
            entries@.len() == cache@.len(),
            forall|k: int| 0 <= k < entries@.len() ==> *entries@[k] == cache@[k],
            keys == cache@.map_values(|c: DuckDuckGoSearchCached| c@),
            result_views(res@) == cached_offers(keys.take(i as int), args@),
            res.len() <= args.max_results,
            distinct_urls(result_views(res@)),
        decreases entries.len() - i,
    {
        let ghost before = result_views(res@);
        assert(keys.take(i + 1).drop_last() =~= keys.take(i as int));
        assert(keys.take(i + 1).last() == entries@[i as int]@);
        if let Some(offer) = entries[i].cached_results(args) {
            let ghost ov = result_views(offer@);
            let mut j: usize = 0;
            while j < offer.len()
                invariant
                    j <= offer.len(),
                    ov == result_views(offer@),
                    result_views(res@) == merged(before, ov.take(j as int), args.max_results as int),
                    res.len() <= args.max_results,
                    distinct_urls(result_views(res@)),
                decreases offer.len() - j,
            {
                let ghost mid = result_views(res@);
                assert(ov.take(j + 1).drop_last() =~= ov.take(j as int));
                assert(ov.take(j + 1).last() == offer@[j as int]@);
                if res.len() < args.max_results && !url_taken(&res, &offer[j].url) {
                    res.push(offer[j].copy());
                    assert(result_views(res@) =~= mid.push(offer@[j as int]@));
                }
                j += 1;
            }
            assert(ov.take(j as int) =~= ov);
        } else {
            assert(Seq::<SearchResultView>::empty().len() == 0);
        }
        i += 1;
    }
    assert(keys.take(i as int) =~= keys);
    res
}

// ---------------------------------------------------------------------------
// Reading a results page

/// The selectors of the result containers, in the order they are tried:
/// `div.result`, `div.results_links`, `div.web-result`, `article`.
pub open spec fn container_selector(i: int) -> SelectorView {
    if i == 0 {
        selector_of("div"@, "result"@, ""@)
    } else if i == 1 {
        selector_of("div"@, "results_links"@, ""@)
    } else if i == 2 {
        selector_of("div"@, "web-result"@, ""@)
    } else {
        selector_of("article"@, ""@, ""@)
    }
}

/// The selectors of a container's title link, in the order they are tried:
/// `a.result__a`, `a.result__url`, `h2 a`, `a.result-link`.
pub open spec fn title_selector(i: int) -> SelectorView {
    if i == 0 {
        selector_of("a"@, "result__a"@, ""@)
    } else if i == 1 {
        selector_of("a"@, "result__url"@, ""@)
    } else if i == 2 {
        selector_of("a"@, ""@, "h2"@)
    } else {
        selector_of("a"@, "result-link"@, ""@)
    }
}

/// The selectors of a container's snippets, in the order they are tried:
/// `a.result__snippet`, `div.result__snippet`, `div.snippet`,
/// `p.result-snippet`.
pub open spec fn snippet_selector(i: int) -> SelectorView {
    if i == 0 {
        selector_of("a"@, "result__snippet"@, ""@)
    } else if i == 1 {
        selector_of("div"@, "result__snippet"@, ""@)
    } else if i == 2 {
        selector_of("div"@, "snippet"@, ""@)
    } else {
        selector_of("p"@, "result-snippet"@, ""@)
    }
}

/// The title link in positions `from..to`: the first node matching the
/// first title selector, from the `i`-th on, that matches anything there.
pub open spec fn first_title(ns: Seq<NodeView>, from: nat, to: nat, i: nat) -> Option<nat>
    decreases 4 - i,
{
    if i >= 4 {
        None
    } else {
        match first_match(ns, from, to, title_selector(i as int)) {
            Some(k) => Some(k),
            None => first_title(ns, from, to, i + 1),
        }
    }
}

/// For each snippet selector from the `i`-th on, the spaced text of the
/// first node in positions `from..to` that it matches, where there is one.
pub open spec fn snippet_texts(ns: Seq<NodeView>, from: nat, to: nat, i: nat) -> Seq<Seq<char>>
    decreases 4 - i,
{
    if i >= 4 {
        Seq::empty()
    } else {
        (match first_match(ns, from, to, snippet_selector(i as int)) {
            Some(k) => seq![spaced_text(ns, k)],
            None => Seq::empty(),
        }) + snippet_texts(ns, from, to, i + 1)
    }
}

/// What the container at position `c` holds.
pub open spec fn raw_at(ns: Seq<NodeView>, c: nat) -> RawResultView {
    let end = subtree_end(ns, c);
    let snippets = snippet_texts(ns, c + 1, end, 0);
    match first_title(ns, c + 1, end, 0) {
        Some(l) => RawResultView {
            href: node_attr(ns[l as int], "href"@),
            title: spaced_text(ns, l),
            snippets,
        },
        None => RawResultView { href: None, title: Seq::empty(), snippets },
    }
}

/// The containers found with the first container selector, from the `i`-th
/// on, that matches anything in the document; `None` when none does.
pub open spec fn containers_from(ns: Seq<NodeView>, i: nat) -> Option<Seq<RawResultView>>
    decreases 4 - i,
{
    if i >= 4 {
        None
    } else {
        let ps = match_positions(ns, 0, container_selector(i as int));
        if ps.len() > 0 {
            Some(ps.map_values(|c: nat| raw_at(ns, c)))
        } else {
            containers_from(ns, i + 1)
        }
    }
}

/// The result containers of a parsed results page, in document order.
pub open spec fn result_containers(ns: Seq<NodeView>) -> Option<Seq<RawResultView>> {
    containers_from(ns, 0)
}

fn title_match(ns: &Vec<HtmlNode>, from: usize, to: usize, i: usize) -> (res: Option<usize>)
    requires
        i < 4,
    ensures
        res matches Some(k) ==> k < ns.len() && first_match(
            vview(ns),
            from as nat,
            to as nat,
            title_selector(i as int),
        ) == Some(k as nat),
        res is None ==> first_match(vview(ns), from as nat, to as nat, title_selector(i as int)) is None,
{
    if i == 0 {
        first_match_exec(ns, from, to, "a", "result__a", "")
    } else if i == 1 {
        first_match_exec(ns, from, to, "a", "result__url", "")
    } else if i == 2 {
        first_match_exec(ns, from, to, "a", "", "h2")
    } else {
        first_match_exec(ns, from, to, "a", "result-link", "")
    }
}

fn snippet_match(ns: &Vec<HtmlNode>, from: usize, to: usize, i: usize) -> (res: Option<usize>)
    requires
        i < 4,
    ensures
        res matches Some(k) ==> k < ns.len() && first_match(
            vview(ns),
            from as nat,
            to as nat,
            snippet_selector(i as int),
        ) == Some(k as nat),
        res is None ==> first_match(vview(ns), from as nat, to as nat, snippet_selector(i as int))
            is None,
{
    if i == 0 {
        first_match_exec(ns, from, to, "a", "result__snippet", "")
    } else if i == 1 {
        first_match_exec(ns, from, to, "div", "result__snippet", "")
    } else if i == 2 {
        first_match_exec(ns, from, to, "div", "snippet", "")
    } else {
        first_match_exec(ns, from, to, "p", "result-snippet", "")
    }
}

fn container_positions(ns: &Vec<HtmlNode>, i: usize) -> (res: Vec<usize>)
    requires
        i < 4,
    ensures
        res@.map_values(|k: usize| k as nat) == match_positions(
            vview(ns),
            0,
            container_selector(i as int),
        ),
        forall|j: int| 0 <= j < res.len() ==> #[trigger] res@[j] < ns.len(),
{
    if i == 0 {
        match_positions_exec(ns, "div", "result", "")
    } else if i == 1 {
        match_positions_exec(ns, "div", "results_links", "")
    } else if i == 2 {
        match_positions_exec(ns, "div", "web-result", "")
    } else {
        match_positions_exec(ns, "article", "", "")
    }
}

/// What the container at position `c` holds, computed.
fn raw_at_exec(ns: &Vec<HtmlNode>, c: usize) -> (res: RawResult)
    requires
        c < ns.len(),
    ensures
        res@ == raw_at(vview(ns), c as nat),
{
    let ghost v = vview(ns);
    let end = subtree_end_exec(ns, c);
    let from = c + 1;
    let mut snippets: Vec<String> = Vec::new();
    let mut i: usize = 0;
    while i < 4
        invariant
            i <= 4,
            v == vview(ns),
            snippets@.map_values(|s: String| s@) + snippet_texts(v, from as nat, end as nat, i as nat)
                == snippet_texts(v, from as nat, end as nat, 0),
        decreases 4 - i,
    {
        let ghost before = snippets@.map_values(|s: String| s@);
        let ghost rest = snippet_texts(v, from as nat, end as nat, (i + 1) as nat);
        match snippet_match(ns, from, end, i) {
            Some(k) => {
                let t = spaced_text_exec(ns, k);
                let st = string_from_vec(t);
                snippets.push(st);
                assert(snippets@.map_values(|s: String| s@) =~= before.push(st@));
                assert(before.push(st@) + rest =~= before + (seq![st@] + rest));
            },
            None => {
                assert(snippet_texts(v, from as nat, end as nat, i as nat) =~= rest);
            },
        }
        i += 1;
    }
    assert(snippets@.map_values(|s: String| s@) + Seq::<Seq<char>>::empty() =~= snippets@.map_values(
        |s: String| s@,
    ));
    let mut j: usize = 0;
    let mut link: Option<usize> = None;
    while j < 4
        invariant
            j <= 4,
            v == vview(ns),
            link matches Some(l) ==> l < ns.len() && first_title(v, from as nat, end as nat, 0) == Some(
                l as nat,
            ),
            link is None ==> first_title(v, from as nat, end as nat, j as nat) == first_title(
                v,
                from as nat,
                end as nat,
                0,
            ),
        decreases 4 - j,
    {
        if link.is_none() {
            link = title_match(ns, from, end, j);
        }
        j += 1;
    }
    match link {
        Some(l) => {
            let href = match node_attr_exec(ns, l, "href") {
                Some(h) => Some(string_from_vec(h)),
                None => None,
            };
            let title = string_from_vec(spaced_text_exec(ns, l));
            RawResult { href, title, snippets }
        },
        None => RawResult { href: None, title: String::new(), snippets },
    }
}

/// Reads the results of a DuckDuckGo results page: the containers found
/// with the first container selector that matches anything, and from them,
/// in order, the results that [`extract_result`] accepts, skipping URLs
/// already taken, at most `max_results`. A page without any container is
/// an error.
pub fn parse_results(html: &str, max_results: usize) -> (res: Result<Vec<SearchResult>, Error>)
    ensures
        match result_containers(parsed_document(html@)) {
            None => res matches Err(e) && is_search_feedback(
                e,
                "Could not find any result containers in HTML"@,
            ),
            Some(raws) => res matches Ok(v) && result_views(v@) == select_from(
                raws,
                max_results as int,
                Seq::empty(),
            ),
        },
        res matches Ok(v) ==> v.len() <= max_results && distinct_urls(result_views(v@)),
{
    let ns = parse_document(html);
    let ghost v = vview(&ns);
    let mut i: usize = 0;
    while i < 4
        invariant
            i <= 4,
            v == vview(&ns),
            v == parsed_document(html@),
            containers_from(v, i as nat) == result_containers(v),
        decreases 4 - i,
    {
        let ps = container_positions(&ns, i);
        if ps.len() > 0 {
            let ghost spec_ps = match_positions(v, 0, container_selector(i as int));
            let mut raws: Vec<RawResult> = Vec::new();
            let mut j: usize = 0;
            while j < ps.len()
                invariant
                    j <= ps.len(),
                    v == vview(&ns),
                    spec_ps == ps@.map_values(|k: usize| k as nat),
                    forall|q: int| 0 <= q < ps.len() ==> #[trigger] ps@[q] < ns.len(),
                    raws.len() == j,
                    forall|q: int|
                        0 <= q < j ==> (#[trigger] raws@[q])@ == raw_at(v, spec_ps[q]),
                decreases ps.len() - j,
            {
                let r = raw_at_exec(&ns, ps[j]);
                raws.push(r);
                j += 1;
            }
            assert(raws@.map_values(|r: RawResult| r@) =~= spec_ps.map_values(
                |c: nat| raw_at(v, c),
            ));
            return Ok(select_results(&raws, max_results));
        }
        i += 1;
    }
    Err(search_feedback("Could not find any result containers in HTML"))
}

/// The answer the cache gives a search: `None` when caching is off for it
/// or the cache holds no result for it; otherwise the cached results, at
/// most `max_results` with no URL repeated, counted, with the query.
pub fn cached_response(
    cache: &LRUCache<DuckDuckGoSearchCached, CACHE_CAPACITY>,
    args: &DuckDuckGoSearchArgs,
) -> (res: Option<DuckDuckGoSearchResponse>)
    requires
        cache.wf(),
    ensures
        res is None <==> (!args.use_cache || cached_offers(
            cache@.map_values(|c: DuckDuckGoSearchCached| c@),
            args@,
        ).len() == 0),
        res matches Some(r) ==> result_views(r.results@) == cached_offers(
            cache@.map_values(|c: DuckDuckGoSearchCached| c@),
            args@,
        ) && r.count == r.results.len() && r.query@ == args.query@ && r.from_cache
            && r.results.len() <= args.max_results && distinct_urls(result_views(r.results@)),
{
    if !args.use_cache {
        return None;
    }
    let results = cached_lookup(cache, args);
    if results.len() == 0 {
        return None;
    }
    let count = results.len();
    Some(DuckDuckGoSearchResponse { results, query: args.query.clone(), count, from_cache: true })
}

/// The answer read from a fetched results page: the results that
/// `parse_results` reads, at most `max_results` with no URL repeated,
/// counted, with the query; a page without result containers is an error.
pub fn page_response(args: &DuckDuckGoSearchArgs, html: &str) -> (res: Result<
    DuckDuckGoSearchResponse,
    Error,
>)
    ensures
        match result_containers(parsed_document(html@)) {
            None => res matches Err(e) && is_search_feedback(
                e,
                "Could not find any result containers in HTML"@,
            ),
            Some(raws) => res matches Ok(r) && result_views(r.results@) == select_from(
                raws,
                args.max_results as int,
                Seq::empty(),
            ),
        },
        res matches Ok(r) ==> r.count == r.results.len() && r.query@ == args.query@ && !r.from_cache
            && r.results.len() <= args.max_results && distinct_urls(result_views(r.results@)),
{
    let results = parse_results(html, args.max_results)?;
    let count = results.len();
    Ok(DuckDuckGoSearchResponse { results, query: args.query.clone(), count, from_cache: false })
}

/// How a search begins.
pub enum SearchStart {
    /// The arguments are refused, with this error; nothing is fetched.
    Refused(Error),
    /// The cache answers.
    Cached(DuckDuckGoSearchResponse),
    /// The results page at this address is to be fetched.
    Fetch(String),
}

/// How a search begins: arguments that do not validate are refused with
/// the validation error, before the cache is consulted or anything is
/// fetched; otherwise the cache answers when it can, else the results
/// page's address is given.
pub fn search_start(
    cache: &LRUCache<DuckDuckGoSearchCached, CACHE_CAPACITY>,
    args: &DuckDuckGoSearchArgs,
) -> (res: SearchStart)
    requires
        cache.wf(),
    ensures
        validation_feedback(args@) matches Some(f) ==> res matches SearchStart::Refused(e)
            && is_search_feedback(e, f),
        validation_feedback(args@) is None ==> !(res is Refused),
        res matches SearchStart::Cached(r) ==> args.use_cache && result_views(r.results@)
            == cached_offers(cache@.map_values(|c: DuckDuckGoSearchCached| c@), args@) && r.count
            == r.results.len() && r.query@ == args.query@ && r.from_cache && r.results.len()
            <= args.max_results && distinct_urls(result_views(r.results@)),
        res matches SearchStart::Fetch(u) ==> u@ == search_url(args.query@, args.region@) && (
        !args.use_cache || cached_offers(
            cache@.map_values(|c: DuckDuckGoSearchCached| c@),
            args@,
        ).len() == 0),
{
    match args.validate() {
        Err(e) => SearchStart::Refused(e),
        Ok(()) => match cached_response(cache, args) {
            Some(r) => SearchStart::Cached(r),
            None => SearchStart::Fetch(args.search_url()),
        },
    }
}
} // verus!
