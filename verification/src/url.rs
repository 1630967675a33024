//! URL validation and clean-up for links found in search results.
//!
//! Parsing and serialization are the `url` crate's; what this module decides
//! is which URLs are acceptable (HTTP(S) only, no local or private hosts) and
//! which query parameters are dropped (common tracking parameters).
use vstd::prelude::*;

use crate::ip::{is_private_address, parse_ip, private_ip};
use crate::search::duckduckgo::{percent_encoded, url_encode};
use crate::text::{chars_are, chars_of, slice_chars};
use vstd::utf8::encode_utf8;

verus! {

/// What the `url` crate gives for a parsed URL: the scheme, the host, the
/// whole URL serialized again, and the decoded query pairs.
pub struct UrlView {
    pub scheme: Seq<char>,
    pub host: Option<Seq<char>>,
    pub serialized: Seq<char>,
    pub query_pairs: Seq<(Seq<char>, Seq<char>)>,
}

/// A parsed URL, held as plain values.
pub struct ParsedUrl {
    pub scheme: String,
    pub host: Option<String>,
    pub serialized: String,
    pub query_pairs: Vec<(String, String)>,
}

/// The abstract value of an optional string.
pub open spec fn opt_string_view(o: Option<String>) -> Option<Seq<char>> {
    match o {
        Some(s) => Some(s@),
        None => None,
    }
}

/// The abstract value of a list of string pairs.
pub open spec fn pair_views(v: Seq<(String, String)>) -> Seq<(Seq<char>, Seq<char>)> {
    v.map_values(|p: (String, String)| (p.0@, p.1@))
}

impl View for ParsedUrl {
    type V = UrlView;

    open spec fn view(&self) -> UrlView {
        UrlView {
            scheme: self.scheme@,
            host: opt_string_view(self.host),
            serialized: self.serialized@,
            query_pairs: pair_views(self.query_pairs@),
        }
    }
}

/// What `url::Url::parse` makes of `s`, `None` where it fails.
pub uninterp spec fn url_parse(s: Seq<char>) -> Option<UrlView>;

/// The serialization of the URL `s` after `Url::set_query(q)`.
pub uninterp spec fn url_with_query(s: Seq<char>, q: Option<Seq<char>>) -> Seq<char>;

/// Parses `s` with `url::Url::parse` and reads its scheme, host (`host_str`),
/// serialization (`to_string`) and decoded query pairs (`query_pairs`).
/// The result is named `url_parse(s)`.
#[verifier::external_body]
pub(crate) fn parse_url(s: &str) -> (res: Option<ParsedUrl>)
    ensures
        match res {
            Some(p) => url_parse(s@) == Some(p@),
            None => url_parse(s@) is None,
        },
{
    match url::Url::parse(s) {
        Ok(u) => Some(
            ParsedUrl {
                scheme: u.scheme().to_string(),
                host: u.host_str().map(|h| h.to_string()),
                serialized: u.to_string(),
                query_pairs: u.query_pairs().map(|(k, v)| (k.into_owned(), v.into_owned())).collect(),
            },
        ),
        Err(_) => None,
    }
}

/// Parses `s` with `url::Url::parse`, sets its query with `Url::set_query`
/// and serializes it with `to_string`. The result is `None` exactly where
/// the parse fails, and is otherwise named `url_with_query(s, query)`.
#[verifier::external_body]
fn serialize_with_query(s: &str, query: Option<&str>) -> (res: Option<String>)
    ensures
        match res {
            Some(r) => url_parse(s@) is Some && r@ == url_with_query(
                s@,
                match query {
                    Some(q) => Some(q@),
                    None => None,
                },
            ),
            None => url_parse(s@) is None,
        },
{
    match url::Url::parse(s) {
        Ok(mut u) => {
            u.set_query(query);
            Some(u.to_string())
        },
        Err(_) => None,
    }
}

/// The host names that always mean this machine.
pub open spec fn local_name(h: Seq<char>) -> bool {
    h == "localhost"@ || h == "127.0.0.1"@ || h == "::1"@
}

/// A host without the square brackets that enclose an IPv6 address in a
/// URL (`[::1]` is the address `::1`).
pub open spec fn bare_host(h: Seq<char>) -> Seq<char> {
    if h.len() >= 2 && h[0] == '[' && h[h.len() - 1] == ']' {
        h.subrange(1, h.len() - 1)
    } else {
        h
    }
}

/// `h` names this machine, or reads as a private or loopback IP address
/// (an IPv6 address taken without its brackets).
pub open spec fn private_or_local(h: Seq<char>) -> bool {
    let b = bare_host(h);
    local_name(b) || (parse_ip(b) matches Some(ip) && private_ip(ip))
}

/// A URL whose host is the IPv6 loopback `[::1]` is refused.
pub proof fn law_ipv6_loopback_refused(s: Seq<char>)
    requires
        url_parse(s) matches Some(u) && u.host == Some("[::1]"@),
    ensures
        validated(s) is None,
{
    reveal_strlit("[::1]");
    reveal_strlit("::1");
    assert(bare_host("[::1]"@) =~= "::1"@);
}

/// The URL `s` accepted: an HTTP or HTTPS URL whose host is neither local
/// nor private, given back as the `url` crate serializes it.
pub open spec fn validated(s: Seq<char>) -> Option<Seq<char>> {
    match url_parse(s) {
        None => None,
        Some(u) => if u.scheme != "http"@ && u.scheme != "https"@ {
            None
        } else if u.host matches Some(h) && private_or_local(h) {
            None
        } else {
            Some(u.serialized)
        },
    }
}

/// The query parameters that only serve to track clicks.
pub open spec fn is_tracking_param(k: Seq<char>) -> bool {
    ||| k == "utm_source"@
    ||| k == "utm_medium"@
    ||| k == "utm_campaign"@
    ||| k == "utm_term"@
    ||| k == "utm_content"@
    ||| k == "fbclid"@
    ||| k == "gclid"@
    ||| k == "msclkid"@
    ||| k == "ref"@
    ||| k == "referrer"@
}

/// The query pairs of `ps` whose key is not a tracking parameter, in order.
pub open spec fn kept_pairs(ps: Seq<(Seq<char>, Seq<char>)>) -> Seq<(Seq<char>, Seq<char>)> {
    ps.filter(|p: (Seq<char>, Seq<char>)| !is_tracking_param(p.0))
}

/// Sanitizing keeps exactly the pairs whose key is not a tracking key
/// (`utm_source`, `utm_medium`, `utm_campaign`, `utm_term`, `utm_content`,
/// `fbclid`, `gclid`, `msclkid`, `ref`, `referrer`): no kept pair has one
/// of these keys, and every pair with another key is kept.
pub proof fn law_tracking_removed(ps: Seq<(Seq<char>, Seq<char>)>, keys: Seq<Seq<char>>)
    requires
        keys == seq![
            "utm_source"@,
            "utm_medium"@,
            "utm_campaign"@,
            "utm_term"@,
            "utm_content"@,
            "fbclid"@,
            "gclid"@,
            "msclkid"@,
            "ref"@,
            "referrer"@,
        ],
    ensures
        forall|i: int, j: int|
            0 <= i < kept_pairs(ps).len() && 0 <= j < keys.len() ==> (#[trigger] kept_pairs(
                ps,
            )[i]).0 != #[trigger] keys[j],
        forall|i: int|
            0 <= i < ps.len() && !keys.contains(#[trigger] ps[i].0) ==> kept_pairs(
                ps,
            ).contains(ps[i]),
        kept_pairs(ps).len() <= ps.len(),
{
    let pred = |p: (Seq<char>, Seq<char>)| !is_tracking_param(p.0);
    ps.lemma_filter_len(pred);
    assert forall|i: int, j: int|
        0 <= i < kept_pairs(ps).len() && 0 <= j < keys.len() implies (#[trigger] kept_pairs(
            ps,
        )[i]).0 != #[trigger] keys[j] by {
        ps.lemma_filter_pred(pred, i);
    }
    assert forall|i: int|
        0 <= i < ps.len() && !keys.contains(#[trigger] ps[i].0) implies kept_pairs(
            ps,
        ).contains(ps[i]) by {
        if is_tracking_param(ps[i].0) {
            let k = ps[i].0;
            if k == "utm_source"@ {
                assert(keys[0] == k);
            } else if k == "utm_medium"@ {
                assert(keys[1] == k);
            } else if k == "utm_campaign"@ {
                assert(keys[2] == k);
            } else if k == "utm_term"@ {
                assert(keys[3] == k);
            } else if k == "utm_content"@ {
                assert(keys[4] == k);
            } else if k == "fbclid"@ {
                assert(keys[5] == k);
            } else if k == "gclid"@ {
                assert(keys[6] == k);
            } else if k == "msclkid"@ {
                assert(keys[7] == k);
            } else if k == "ref"@ {
                assert(keys[8] == k);
            } else {
                assert(keys[9] == k);
            }
        }
        ps.lemma_filter_contains(pred, i);
    }
}

/// The pairs with key and value percent-encoded (their UTF-8 bytes), so
/// that `&`, `=` and other reserved characters stay inside them.
pub open spec fn encoded_pairs(ps: Seq<(Seq<char>, Seq<char>)>) -> Seq<(Seq<char>, Seq<char>)> {
    ps.map_values(
        |p: (Seq<char>, Seq<char>)| (percent_encoded(encode_utf8(p.0)), percent_encoded(encode_utf8(p.1))),
    )
}

/// The pairs written as `key=value`, joined by `&`.
pub open spec fn join_pairs(ps: Seq<(Seq<char>, Seq<char>)>) -> Seq<char>
    decreases ps.len(),
{
    if ps.len() == 0 {
        Seq::empty()
    } else if ps.len() == 1 {
        ps[0].0 + seq!['='] + ps[0].1
    } else {
        join_pairs(ps.drop_last()) + seq!['&'] + ps.last().0 + seq!['='] + ps.last().1
    }
}

/// The URL `s` without its tracking parameters, as the `url` crate
/// serializes it: the other parameters are kept in order, encoded again;
/// no query at all when no parameter is left.
pub open spec fn sanitized(s: Seq<char>) -> Option<Seq<char>> {
    match url_parse(s) {
        None => None,
        Some(u) => {
            let kept = kept_pairs(u.query_pairs);
            Some(
                url_with_query(
                    s,
                    if kept.len() == 0 {
                        None
                    } else {
                        Some(join_pairs(encoded_pairs(kept)))
                    },
                ),
            )
        },
    }
}

/// URL validator and sanitizer for search results.
pub struct UrlValidator;

impl UrlValidator {
    /// Whether `host` is this machine or a private or loopback IP address.
    fn is_private_or_local(host: &[char]) -> (r: bool)
        ensures
            r == private_or_local(host@),
    {
        let n = host.len();
        let bare = if n >= 2 && host[0] == '[' && host[n - 1] == ']' {
            slice_chars(host, 1, n - 1)
        } else {
            slice_chars(host, 0, n)
        };
        assert(host@.subrange(0, n as int) =~= host@);
        let b = bare.as_slice();
        if chars_are(b, "localhost") || chars_are(b, "127.0.0.1") || chars_are(b, "::1") {
            return true;
        }
        is_private_address(b)
    }

    /// Checks that a URL is safe and well-formed: it parses, its scheme is
    /// HTTP or HTTPS, and its host is neither local nor private. Gives the
    /// URL back as the `url` crate serializes it, or `None`.
    pub fn validate(url: &str) -> (res: Option<String>)
        ensures
            opt_string_view(res) == validated(url@),
    {
        let parsed = match parse_url(url) {
            Some(p) => p,
            None => return None,
        };
        let scheme = chars_of(parsed.scheme.as_str());
        if !chars_are(scheme.as_slice(), "http") && !chars_are(scheme.as_slice(), "https") {
            return None;
        }
        match &parsed.host {
            Some(host) => {
                let h = chars_of(host.as_str());
                if Self::is_private_or_local(h.as_slice()) {
                    return None;
                }
            },
            None => {},
        }
        Some(parsed.serialized)
    }

    /// Whether `key` is one of the tracking parameters.
    fn is_tracking(key: &[char]) -> (r: bool)
        ensures
            r == is_tracking_param(key@),
    {
        chars_are(key, "utm_source") || chars_are(key, "utm_medium") || chars_are(key, "utm_campaign")
            || chars_are(key, "utm_term") || chars_are(key, "utm_content") || chars_are(key, "fbclid")
            || chars_are(key, "gclid") || chars_are(key, "msclkid") || chars_are(key, "ref")
            || chars_are(key, "referrer")
    }

    /// The query `key=value&...`, encoded, for the pairs that are not
    /// tracking parameters.
    fn kept_query(pairs: &Vec<(String, String)>) -> (res: (String, usize))
        ensures
            res.0@ == join_pairs(encoded_pairs(kept_pairs(pair_views(pairs@)))),
            res.1 == kept_pairs(pair_views(pairs@)).len(),
    {
        let ghost all = pair_views(pairs@);
        let mut query = String::new();
        let mut count: usize = 0;
        let mut i: usize = 0;
        while i < pairs.len()
            invariant
                i <= pairs.len(),
                all == pair_views(pairs@),
                query@ == join_pairs(encoded_pairs(kept_pairs(all.take(i as int)))),
                count == kept_pairs(all.take(i as int)).len(),
                count <= i,
            decreases pairs.len() - i,
        {
            let ghost before = kept_pairs(all.take(i as int));
            assert(all.take(i + 1) =~= all.take(i as int).push(all[i as int]));
            proof {
                all.take(i as int).lemma_filter_push(
                    all[i as int],
                    |p: (Seq<char>, Seq<char>)| !is_tracking_param(p.0),
                );
            }
            let (k, v) = &pairs[i];
            let key = chars_of(k.as_str());
            if !Self::is_tracking(key.as_slice()) {
                let ghost after = before.push(all[i as int]);
                if count > 0 {
                    crate::text::push_char(&mut query, '&');
                }
                query.append(url_encode(k.as_str()).as_str());
                crate::text::push_char(&mut query, '=');
                query.append(url_encode(v.as_str()).as_str());
                assert(after.drop_last() =~= before);
                assert(encoded_pairs(after).drop_last() =~= encoded_pairs(before));
                assert(query@ =~= join_pairs(encoded_pairs(after)));
                count += 1;
            }
            i += 1;
        }
        assert(all.take(pairs.len() as int) =~= all);
        (query, count)
    }

    /// Removes common tracking parameters (`utm_*`, `fbclid`, `gclid`,
    /// `msclkid`, `ref`, `referrer`) from a URL. Gives `None` when the URL
    /// does not parse.
    pub fn sanitize(url: &str) -> (res: Option<String>)
        ensures
            opt_string_view(res) == sanitized(url@),
    {
        let parsed = match parse_url(url) {
            Some(p) => p,
            None => return None,
        };
        let (query, count) = Self::kept_query(&parsed.query_pairs);
        if count == 0 {
            serialize_with_query(url, None)
        } else {
            serialize_with_query(url, Some(query.as_str()))
        }
    }
}

} // verus!
