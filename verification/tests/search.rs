use rustychain::error::Error;
use rustychain::lru::LRUCache;
use rustychain::search::duckduckgo::{
    cached_lookup, cached_response, extract_result, extract_url, page_response, parse_results,
    search_start, select_results, should_cache, status_error, SearchStart,
};
use rustychain::search::CACHE_CAPACITY;
use rustychain::search::simple;
use rustychain::search::{
    default_max_results, default_region, default_use_cache, DuckDuckGoSearchArgs,
    DuckDuckGoSearchCached, RawResult, SearchResult,
};
use rustychain::url::UrlValidator;

fn args(query: &str, max_results: usize, region: &str) -> DuckDuckGoSearchArgs {
    DuckDuckGoSearchArgs {
        query: query.to_string(),
        max_results,
        region: region.to_string(),
        use_cache: true,
    }
}

fn feedback(e: Error) -> String {
    match e {
        Error::Search { query: None, source: None, feedback: Some(f) } => f,
        other => panic!("unexpected error: {:?}", other),
    }
}

#[test]
fn test_url_validator_valid() {
    let valid_urls = vec![
        "https://example.com/page",
        "http://example.com",
        "https://sub.domain.example.com/path?query=1",
    ];

    for url in valid_urls {
        assert!(UrlValidator::validate(url).is_some(), "Should accept: {}", url);
    }
}

#[test]
fn test_url_validator_invalid_scheme() {
    let invalid_urls = vec![
        "javascript:alert(1)",
        "file:///etc/passwd",
        "ftp://example.com",
        "data:text/html,<script>alert(1)</script>",
    ];

    for url in invalid_urls {
        assert!(UrlValidator::validate(url).is_none(), "Should reject: {}", url);
    }
}

#[test]
fn test_url_validator_private_ips() {
    let private_urls = vec![
        "http://localhost/admin",
        "http://127.0.0.1/",
        "http://10.0.0.1/",
        "http://172.16.0.1/",
        "http://192.168.1.1/",
    ];

    for url in private_urls {
        assert!(UrlValidator::validate(url).is_none(), "Should reject private IP: {}", url);
    }
}

#[test]
fn test_url_sanitizer() {
    let url = "https://example.com/page?utm_source=test&utm_medium=email&id=123";
    let sanitized = UrlValidator::sanitize(url).unwrap();

    assert!(!sanitized.contains("utm_source"));
    assert!(!sanitized.contains("utm_medium"));
    assert!(sanitized.contains("id=123"));
}

#[test]
fn url_validator_keeps_public_hosts_and_serializes() {
    assert_eq!(UrlValidator::validate("http://example.com"), Some("http://example.com/".to_string()));
    assert_eq!(UrlValidator::validate("http://172.32.0.1/"), Some("http://172.32.0.1/".to_string()));
    assert_eq!(UrlValidator::validate("http://8.8.8.8/x"), Some("http://8.8.8.8/x".to_string()));
    assert_eq!(UrlValidator::validate("not a url"), None);
}

#[test]
fn url_sanitizer_drops_query_without_kept_pairs() {
    assert_eq!(
        UrlValidator::sanitize("https://example.com/a?utm_source=x&fbclid=y&ref=z"),
        Some("https://example.com/a".to_string())
    );
    assert_eq!(
        UrlValidator::sanitize("https://example.com/a?b=1&gclid=2&c=3"),
        Some("https://example.com/a?b=1&c=3".to_string())
    );
    assert_eq!(UrlValidator::sanitize("::"), None);
}

#[test]
fn test_args_validation_empty_query() {
    let args = args("   ", 10, "wt-wt");
    assert!(args.validate().is_err());
}

#[test]
fn test_args_validation_max_results() {
    let a = args("test", 0, "wt-wt");
    assert!(a.validate().is_err());

    let a = args("test", 101, "wt-wt");
    assert!(a.validate().is_err());
}

#[test]
fn test_args_validation_valid() {
    let a = args("rust programming", 10, "wt-wt");
    assert!(a.validate().is_ok());
}

#[test]
fn args_validation_messages() {
    assert_eq!(feedback(args("  ", 10, "wt-wt").validate().unwrap_err()), "Search query cannot be empty");
    let long = "é".repeat(501);
    assert_eq!(
        feedback(args(&long, 10, "wt-wt").validate().unwrap_err()),
        "Search query cannot exceed 500 characters"
    );
    assert!(args(&"é".repeat(500), 10, "wt-wt").validate().is_ok());
    assert_eq!(feedback(args("q", 0, "wt-wt").validate().unwrap_err()), "max_results must be at least 1");
    assert_eq!(feedback(args("q", 101, "wt-wt").validate().unwrap_err()), "max_results cannot exceed 100");
    assert!(args("q", 100, "wt-wt").validate().is_ok());
    assert!(args("q", 1, "wt-wt").validate().is_ok());
    assert_eq!(feedback(args("q", 5, "").validate().unwrap_err()), "Region code must be 1-10 characters");
    assert_eq!(
        feedback(args("q", 5, "abcdefghijk").validate().unwrap_err()),
        "Region code must be 1-10 characters"
    );
    assert!(args("q", 5, "abcdefghij").validate().is_ok());
}

#[test]
fn duckduckgo_test_extract_url_with_uddg() {
    let href = "//duckduckgo.com/l/?uddg=https%3A%2F%2Fexample.com%2Fpage&rut=abc123";
    assert_eq!(extract_url(href), Some("https://example.com/page".to_string()));
    assert_eq!(simple::extract_url(href), "https://example.com/page");
}

#[test]
fn duckduckgo_test_extract_url_direct() {
    let href = "https://example.com/page";
    assert_eq!(extract_url(href), Some("https://example.com/page".to_string()));
    assert_eq!(simple::extract_url(href), "https://example.com/page");
}

#[test]
fn test_extract_url_rejects_internal() {
    let href = "//duckduckgo.com/privacy";
    assert!(extract_url(href).is_none());
}

#[test]
fn extract_url_other_links() {
    assert_eq!(extract_url("//example.org/x"), Some("https://example.org/x".to_string()));
    assert_eq!(extract_url("/relative"), None);
    assert_eq!(extract_url("/l/?uddg=%FF"), None);
    assert_eq!(simple::extract_url("/l/?uddg=%FF"), "/l/?uddg=%FF");
    assert_eq!(simple::extract_url("/relative"), "/relative");
}

#[test]
fn test_default_args() {
    assert_eq!(default_max_results(), 10);
    assert_eq!(default_region(), "wt-wt");
    assert!(default_use_cache());
}

fn raw(href: &str, title: &str, snippets: &[&str]) -> RawResult {
    RawResult {
        href: Some(href.to_string()),
        title: title.to_string(),
        snippets: snippets.iter().map(|s| s.to_string()).collect(),
    }
}

#[test]
fn results_are_validated_deduplicated_and_limited() {
    let raws = vec![
        raw("//duckduckgo.com/l/?uddg=https%3A%2F%2Fexample.com%2Fa%3Futm_source%3Dx", "  A  ", &["  ", " first "]),
        raw("https://example.com/a", "Again", &[]),
        raw("http://localhost/secret", "Local", &[]),
        raw("https://example.com/b", "   ", &[]),
        raw("https://example.com/c", "C", &[]),
        raw("https://example.com/d", "D", &[]),
    ];
    let results = select_results(&raws, 2);
    assert_eq!(results.len(), 2);
    assert_eq!(results[0].title, "A");
    assert_eq!(results[0].url, "https://example.com/a");
    assert_eq!(results[0].snippet, Some("first".to_string()));
    assert_eq!(results[1].title, "C");
    assert_eq!(results[1].url, "https://example.com/c");
    assert_eq!(results[1].snippet, None);

    let no_link = RawResult { href: None, title: "T".to_string(), snippets: vec![] };
    assert!(extract_result(&no_link).is_none());
}

#[test]
fn plain_search_pairs_snippets_by_position() {
    let links = vec![
        simple::RawLink { href: Some("https://example.com/1".to_string()), title: " One ".to_string() },
        simple::RawLink { href: None, title: "Two".to_string() },
        simple::RawLink { href: Some("//duckduckgo.com/y.js".to_string()), title: "Ad".to_string() },
        simple::RawLink { href: Some("https://example.com/4".to_string()), title: "Four".to_string() },
    ];
    let snippets = vec!["s1".to_string(), "s2".to_string(), "s3".to_string()];
    let results = simple::select_links(&links, &snippets, 10);
    assert_eq!(results.len(), 2);
    assert_eq!(results[0].title, "One");
    assert_eq!(results[0].snippet, Some("s1".to_string()));
    assert_eq!(results[1].url, "https://example.com/4");
    assert_eq!(results[1].snippet, None);
    assert_eq!(simple::select_links(&links, &snippets, 1).len(), 1);
}

fn result(url: &str) -> SearchResult {
    SearchResult { title: "t".to_string(), url: url.to_string(), snippet: None }
}

#[test]
fn cached_results_match_exact_and_wider_searches() {
    let cached = DuckDuckGoSearchCached {
        params: args("rust programming", 3, "wt-wt"),
        results: vec![result("https://a/"), result("https://b/"), result("https://c/")],
    };
    let exact = cached.cached_results(&args("rust programming", 3, "wt-wt")).unwrap();
    assert_eq!(exact.len(), 3);
    let narrower = cached.cached_results(&args("rust", 2, "wt-wt")).unwrap();
    assert_eq!(narrower.len(), 2);
    assert_eq!(narrower[1].url, "https://b/");
    assert!(cached.cached_results(&args("rust", 4, "wt-wt")).is_none());
    assert!(cached.cached_results(&args("rust", 2, "us-en")).is_none());
    assert!(cached.cached_results(&args("python", 2, "wt-wt")).is_none());
    let empty = DuckDuckGoSearchCached { params: args("rust", 3, "wt-wt"), results: vec![] };
    assert!(empty.cached_results(&args("rust", 3, "wt-wt")).is_none());
}

#[test]
fn search_urls_are_percent_encoded() {
    assert_eq!(
        args("rust & C++ ü", 10, "wt-wt").search_url(),
        "https://html.duckduckgo.com/html/?q=rust%20%26%20C%2B%2B%20%C3%BC&kl=wt-wt"
    );
}

#[test]
fn response_statuses() {
    assert!(status_error("q", 200, "200 OK").is_none());
    match status_error("q", 429, "429 Too Many Requests") {
        Some(Error::Search { query: Some(q), source: None, feedback: Some(f) }) => {
            assert_eq!(q, "q");
            assert_eq!(f, "Rate limited or CAPTCHA encountered from DuckDuckGo");
        }
        other => panic!("unexpected {:?}", other),
    }
    match status_error("q", 404, "404 Not Found") {
        Some(Error::Search { feedback: Some(f), .. }) => {
            assert_eq!(f, "DuckDuckGo returned error status: 404 Not Found")
        }
        other => panic!("unexpected {:?}", other),
    }
}

#[test]
fn cached_lookup_walks_recent_searches_first() {
    let mut cache: LRUCache<DuckDuckGoSearchCached, CACHE_CAPACITY> = LRUCache::new();
    cache.insert(DuckDuckGoSearchCached {
        params: args("rust language", 5, "wt-wt"),
        results: vec![result("https://old/")],
    });
    cache.insert(DuckDuckGoSearchCached {
        params: args("rust", 5, "wt-wt"),
        results: vec![result("https://new/"), result("https://new2/")],
    });
    let found = cached_lookup(&cache, &args("rust", 1, "wt-wt"));
    assert_eq!(found.iter().map(|r| r.url.as_str()).collect::<Vec<_>>(), vec!["https://new/"]);
    let found = cached_lookup(&cache, &args("rust", 5, "wt-wt"));
    assert_eq!(
        found.iter().map(|r| r.url.as_str()).collect::<Vec<_>>(),
        vec!["https://new/", "https://new2/", "https://old/"]
    );
    cache.insert(DuckDuckGoSearchCached {
        params: args("rust lang", 5, "wt-wt"),
        results: vec![result("https://new/"), result("https://old/")],
    });
    let found = cached_lookup(&cache, &args("rust", 5, "wt-wt"));
    let urls = found.iter().map(|r| r.url.as_str()).collect::<Vec<_>>();
    assert_eq!(urls.len(), 3);
    assert!(cached_lookup(&cache, &args("python", 1, "wt-wt")).is_empty());
    assert!(should_cache(&args("q", 1, "wt-wt"), &vec![result("https://a/")]));
    assert!(!should_cache(&args("q", 1, "wt-wt"), &vec![]));
}

#[test]
fn sanitized_values_stay_encoded() {
    let sanitized = UrlValidator::sanitize("https://example.com/?q=a%26b&utm_source=x").unwrap();
    assert_eq!(sanitized, "https://example.com/?q=a%26b");
}

#[test]
fn query_length_counts_characters() {
    let args = DuckDuckGoSearchArgs {
        query: "é".repeat(300),
        max_results: 10,
        region: "wt-wt".to_string(),
        use_cache: false,
    };
    assert!(args.validate().is_ok());
    let long = DuckDuckGoSearchArgs { query: "é".repeat(501), ..args };
    assert!(long.validate().is_err());
}

fn create_mock_html(num_results: usize) -> String {
    let mut html = String::from(r#"<!DOCTYPE html><html><body>"#);
    for i in 0..num_results {
        html.push_str(&format!(
            r#"<div class="result">
                    <a class="result__a" href="//duckduckgo.com/l/?uddg=https%3A%2F%2Fexample.com%2Fpage{}">
                        Result Title {}
                    </a>
                    <a class="result__snippet">This is snippet number {}</a>
                </div>"#,
            i, i, i
        ));
    }
    html.push_str("</body></html>");
    html
}

#[test]
fn test_search_with_mock() {
    let body = create_mock_html(5);
    let parsed = parse_results(&body, 5).expect("failed to parse results");
    assert_eq!(parsed.len(), 5);
}

#[test]
fn parsed_results_carry_link_title_and_snippet() {
    let parsed = parse_results(&create_mock_html(3), 10).unwrap();
    assert_eq!(parsed.len(), 3);
    assert_eq!(parsed[1].url, "https://example.com/page1");
    assert_eq!(parsed[1].title, "Result Title 1");
    assert_eq!(parsed[1].snippet.as_deref(), Some("This is snippet number 1"));
}

#[test]
fn parsing_stops_at_max_results() {
    let parsed = parse_results(&create_mock_html(6), 2).unwrap();
    assert_eq!(parsed.len(), 2);
    assert_eq!(parsed[0].url, "https://example.com/page0");
}

#[test]
fn a_page_without_containers_is_an_error() {
    let e = parse_results("<html><body><p>nothing</p></body></html>", 5).unwrap_err();
    assert_eq!(feedback(e), "Could not find any result containers in HTML");
}

#[test]
fn later_container_selectors_and_title_inside_h2_are_used() {
    let html = r#"<html><body>
        <article><h2><a href="https://example.org/a">Article <b>one</b></a></h2>
        <div class="snippet">   </div><p class="result-snippet">Second snippet</p></article>
        <article><h2><a href="https://example.org/a">Same link</a></h2></article>
        <article><a href="https://example.org/b">No heading</a></article>
    </body></html>"#;
    let parsed = parse_results(html, 10).unwrap();
    assert_eq!(parsed.len(), 1);
    assert_eq!(parsed[0].title, "Article  one");
    assert_eq!(parsed[0].url, "https://example.org/a");
    assert_eq!(parsed[0].snippet.as_deref(), Some("Second snippet"));
}

#[test]
fn class_names_match_whole_words_only() {
    let html = r#"<html><body>
        <div class="results"><a class="result__a" href="https://example.org/x">X</a></div>
        <div class="web-result extra"><a class="result-link" href="https://example.org/y">Y</a></div>
    </body></html>"#;
    let parsed = parse_results(html, 10).unwrap();
    assert_eq!(parsed.len(), 1);
    assert_eq!(parsed[0].url, "https://example.org/y");
    assert_eq!(parsed[0].title, "Y");
}

#[test]
fn bracketed_ipv6_loopback_and_link_local_hosts_are_refused() {
    assert!(UrlValidator::validate("http://[::1]/").is_none());
    assert!(UrlValidator::validate("https://[::1]:8080/admin").is_none());
    assert!(UrlValidator::validate("http://[fe80::1]/").is_none());
    assert!(UrlValidator::validate("http://[2001:db8::1]/").is_some());
}

#[test]
fn a_page_response_counts_its_results_and_keeps_the_query() {
    let a = args("rust", 2, "us-en");
    let r = page_response(&a, &create_mock_html(4)).unwrap();
    assert_eq!(r.count, 2);
    assert_eq!(r.results.len(), 2);
    assert_eq!(r.query, "rust");
    assert!(!r.from_cache);
}

#[test]
fn the_cache_answers_only_when_it_holds_results_and_caching_is_on() {
    let mut cache: LRUCache<DuckDuckGoSearchCached, CACHE_CAPACITY> = LRUCache::new();
    let a = args("rust", 5, "us-en");
    assert!(cached_response(&cache, &a).is_none());
    cache.insert(DuckDuckGoSearchCached {
        params: args("rust", 5, "us-en"),
        results: vec![SearchResult {
            title: "T".to_string(),
            url: "https://example.com".to_string(),
            snippet: None,
        }],
    });
    let r = cached_response(&cache, &a).unwrap();
    assert!(r.from_cache);
    assert_eq!(r.count, 1);
    assert_eq!(r.query, "rust");
    let mut off = args("rust", 5, "us-en");
    off.use_cache = false;
    assert!(cached_response(&cache, &off).is_none());
}

#[test]
fn a_search_with_invalid_arguments_is_refused_before_anything_else() {
    let cache: LRUCache<DuckDuckGoSearchCached, CACHE_CAPACITY> = LRUCache::new();
    match search_start(&cache, &args("   ", 5, "us-en")) {
        SearchStart::Refused(e) => assert_eq!(feedback(e), "Search query cannot be empty"),
        _ => panic!("expected a refusal"),
    }
    match search_start(&cache, &args("rust", 5, "us-en")) {
        SearchStart::Fetch(url) => assert!(url.starts_with("https://html.duckduckgo.com/html/?q=rust")),
        _ => panic!("expected a fetch"),
    }
}
