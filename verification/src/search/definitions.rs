//! Search limits, defaults and the search result type.
use vstd::prelude::*;

use crate::url::opt_string_view;

verus! {

/// Maximum number of search results allowed per query.
pub const MAX_RESULTS_LIMIT: usize = 100;

/// Minimum number of search results.
pub const MIN_RESULTS_LIMIT: usize = 1;

/// Default maximum number of results.
pub const DEFAULT_MAX_RESULTS: usize = 10;

/// HTTP request timeout in seconds.
pub const REQUEST_TIMEOUT_SECS: u64 = 30;

/// Cache capacity (number of queries to cache).
pub const CACHE_CAPACITY: usize = 100;

/// Minimum delay between requests in milliseconds.
pub const RATE_LIMIT_DELAY_MS: u64 = 500;

/// The default maximum number of results.
pub fn default_max_results() -> (r: usize)
    ensures
        r == DEFAULT_MAX_RESULTS,
{
    DEFAULT_MAX_RESULTS
}

/// The default region code, `wt-wt` (worldwide).
pub fn default_region() -> (r: String)
    ensures
        r@ == "wt-wt"@,
{
    String::from_str("wt-wt")
}

/// Results are cached by default.
pub fn default_use_cache() -> (r: bool)
    ensures
        r,
{
    true
}

/// The abstract value of a search result.
pub struct SearchResultView {
    pub title: Seq<char>,
    pub url: Seq<char>,
    pub snippet: Option<Seq<char>>,
}

/// A single search result.
#[derive(Debug)]
pub struct SearchResult {
    /// The title of the search result.
    pub title: String,
    /// The URL of the result.
    pub url: String,
    /// Optional snippet/description of the result.
    pub snippet: Option<String>,
}

impl View for SearchResult {
    type V = SearchResultView;

    open spec fn view(&self) -> SearchResultView {
        SearchResultView {
            title: self.title@,
            url: self.url@,
            snippet: match self.snippet {
                Some(s) => Some(s@),
                None => None,
            },
        }
    }
}

/// The abstract values of a list of search results.
pub open spec fn result_views(rs: Seq<SearchResult>) -> Seq<SearchResultView> {
    rs.map_values(|r: SearchResult| r@)
}

impl SearchResult {
    /// A copy of this result.
    pub fn copy(&self) -> (r: SearchResult)
        ensures
            r@ == self@,
    {
        SearchResult {
            title: self.title.clone(),
            url: self.url.clone(),
            snippet: match &self.snippet {
                Some(s) => Some(s.clone()),
                None => None,
            },
        }
    }
}

/// `s` holds no `%`.
pub open spec fn no_percent(s: Seq<char>) -> bool {
    forall|i: int| 0 <= i < s.len() ==> s[i] != '%'
}

/// What `urlencoding::decode` gives for `s`: the percent-decoded text, or
/// `None` where the decoded bytes are not UTF-8.
pub uninterp spec fn percent_decoded(s: Seq<char>) -> Option<Seq<char>>;

/// Decodes percent-encoded text with `urlencoding::decode`. The result is
/// named `percent_decoded(s)`; text without `%` comes back unchanged, as
/// the crate's source returns its input when it finds no `%`.
#[verifier::external_body]
pub(crate) fn decode_percent(s: &str) -> (res: Option<String>)
    ensures
        match res {
            Some(d) => percent_decoded(s@) == Some(d@),
            None => percent_decoded(s@) is None,
        },
        no_percent(s@) ==> opt_string_view(res) == Some(s@),
{
    match urlencoding::decode(s) {
        Ok(d) => Some(d.into_owned()),
        Err(_) => None,
    }
}

} // verus!
