use rustychain::error::Error;
use rustychain::html::parse_document;
use rustychain::scraping::{
    truncate_content, ExtractionMode, OutputFormat, ScrappingOptions, ScrappingTool,
};

const PAGE: &str = "<html lang=\"en\"><head><title> My Page </title>\
<meta name=\"Description\" content=\"desc\"><meta property=\"og:title\" content=\"OG\">\
<meta property=\"og:image\" content=\"img.png\"><meta name=\"author\" content=\"me\"></head>\
<body><a href=\"/a\" title=\"T\"> A </a><a>no</a><a href=\"b\">  </a>\
<img src=\"i.png\" alt=\"I\" width=\"10\">\
<table><tr><th>a</th><td> b </td></tr><tr></tr></table></body></html>";

#[test]
fn metadata_comes_from_title_meta_and_lang() {
    let nodes = parse_document(PAGE);
    let m = ScrappingTool::new().extract_metadata(&nodes, "https://e.com/x/");
    assert_eq!(m.url, "https://e.com/x/");
    assert_eq!(m.title.as_deref(), Some("My Page"));
    assert_eq!(m.description.as_deref(), Some("desc"));
    assert_eq!(m.author.as_deref(), Some("me"));
    assert_eq!(m.image.as_deref(), Some("img.png"));
    assert_eq!(m.keywords, None);
    assert_eq!(m.language.as_deref(), Some("en"));
}

#[test]
fn open_graph_title_fills_a_missing_title() {
    let nodes = parse_document("<meta property=\"OG:Title\" content=\"OG\"><p>x</p>");
    let m = ScrappingTool::new().extract_metadata(&nodes, "https://e.com/");
    assert_eq!(m.title.as_deref(), Some("OG"));
    assert_eq!(m.language, None);
}

#[test]
fn links_images_and_tables() {
    let tool = ScrappingTool::new();
    let nodes = parse_document(PAGE);
    let links = tool.extract_links(&nodes, "https://e.com/x/");
    assert_eq!(links.len(), 2);
    assert_eq!(links[0].url, "https://e.com/a");
    assert_eq!(links[0].text.as_deref(), Some("A"));
    assert_eq!(links[0].title.as_deref(), Some("T"));
    assert_eq!(links[1].url, "https://e.com/x/b");
    assert_eq!(links[1].text, None);
    let images = tool.extract_images(&nodes, "https://e.com/x/");
    assert_eq!(images.len(), 1);
    assert_eq!(images[0].url, "https://e.com/x/i.png");
    assert_eq!(images[0].alt.as_deref(), Some("I"));
    assert_eq!(images[0].width.as_deref(), Some("10"));
    assert_eq!(images[0].height, None);
    let tables = tool.extract_tables(&nodes);
    assert_eq!(tables.len(), 1);
    assert_eq!(tables[0].index, 0);
    assert_eq!(tables[0].rows, vec![vec!["a".to_string(), "b".to_string()]]);
    assert_eq!(tables[0].caption, None);
    assert!(tool.extract_links(&nodes, "not a base").is_empty());
}

#[test]
fn content_is_cut_at_a_byte_length() {
    assert_eq!(truncate_content("héllo world".to_string(), Some(3)), "hé... [truncated]");
    assert_eq!(truncate_content("héllo".to_string(), Some(20)), "héllo");
    assert_eq!(truncate_content("héllo".to_string(), Some(6)), "héllo");
    assert_eq!(truncate_content("héllo".to_string(), None), "héllo");
}

#[test]
fn only_http_urls_are_scraped() {
    let tool = ScrappingTool::new();
    assert_eq!(tool.check_url("https://Example.com").unwrap(), "https://example.com/");
    match tool.check_url("ftp://example.com/file") {
        Err(Error::Validation { message }) => {
            assert_eq!(message, "URL must use HTTP or HTTPS protocol")
        }
        other => panic!("unexpected {:?}", other),
    }
    assert!(matches!(tool.check_url("not a url"), Err(Error::Url(_))));
}

#[test]
fn request_settings_and_empty_pages() {
    let tool = ScrappingTool::new();
    let mut options = ScrappingOptions::default();
    options.user_agent = Some("agent/1".to_string());
    assert_eq!(tool.request_settings(&options), ("agent/1".to_string(), 30));
    options.user_agent = None;
    options.timeout_secs = Some(5);
    let (agent, timeout) = tool.request_settings(&options);
    assert!(agent.starts_with("Mozilla/5.0"));
    assert_eq!(timeout, 5);
    assert!(matches!(tool.check_page(""), Err(Error::NoContent)));
    assert!(tool.check_page("<p>x</p>").is_ok());
}

#[test]
fn the_result_holds_what_the_options_ask_for() {
    let tool = ScrappingTool::new();
    let mut options = ScrappingOptions::default();
    options.include_metadata = Some(true);
    options.extract_tables = Some(true);
    options.output_format = Some(OutputFormat::Markdown);
    options.mode = Some(ExtractionMode::TextOnly);
    let r = tool.assemble(PAGE, "https://e.com/x/", "body".to_string(), &options).unwrap();
    assert_eq!(r.content, "body");
    assert_eq!(r.url, "https://e.com/x/");
    assert_eq!(r.format, OutputFormat::Markdown);
    assert_eq!(r.metadata.unwrap().title.as_deref(), Some("My Page"));
    assert!(r.links.is_none());
    assert!(r.images.is_none());
    assert_eq!(r.tables.unwrap().len(), 1);
    assert!(matches!(tool.assemble("", "https://e.com/", String::new(), &options), Err(Error::NoContent)));
    assert_eq!(ExtractionMode::default(), ExtractionMode::Full);
    assert_eq!(OutputFormat::default(), OutputFormat::Html);
}

fn options_with(mode: ExtractionMode) -> ScrappingOptions {
    let mut o = ScrappingOptions::default();
    o.mode = Some(mode);
    o
}

#[test]
fn selective_mode_without_selectors_is_refused() {
    let tool = ScrappingTool::new();
    let e = tool
        .extract_content("<html><body><p>x</p></body></html>", &options_with(ExtractionMode::Selective))
        .unwrap_err();
    match e {
        Error::Validation { message } => assert_eq!(message, "css_selectors required for selective mode"),
        other => panic!("unexpected error: {:?}", other),
    }
}

#[test]
fn selective_mode_lists_matches_one_per_line() {
    let tool = ScrappingTool::new();
    let mut o = options_with(ExtractionMode::Selective);
    o.css_selectors = Some(vec!["p.keep".to_string(), "not a [valid".to_string(), "b".to_string()]);
    let html = r#"<html><body><p class="keep">one</p><p>two</p><p class="keep">three <b>bold</b></p></body></html>"#;
    let content = tool.extract_content(html, &o).unwrap();
    assert_eq!(
        content,
        "<p class=\"keep\">one</p>\n<p class=\"keep\">three <b>bold</b></p>\n<b>bold</b>\n"
    );
}

#[test]
fn text_only_mode_joins_visible_pieces() {
    let tool = ScrappingTool::new();
    let html = "<html><head><title>T</title></head><body><p>Hello</p>\n  <p>world <i>again</i></p></body></html>";
    let content = tool.extract_content(html, &options_with(ExtractionMode::TextOnly)).unwrap();
    assert_eq!(content, "T Hello world  again");
}

#[test]
fn full_mode_cuts_out_excluded_elements() {
    let tool = ScrappingTool::new();
    let mut o = options_with(ExtractionMode::Full);
    o.exclude_selectors = Some(vec!["nav".to_string()]);
    let html = "<html><head></head><body><nav><a href=\"/\">Home</a></nav><p>Body</p></body></html>";
    let content = tool.extract_content(html, &o).unwrap();
    assert!(content.contains("<p>Body</p>"));
    assert!(!content.contains("<nav>"));
    assert!(!content.contains("Home"));
    let whole = tool.extract_content(html, &ScrappingOptions::default()).unwrap();
    assert!(whole.contains("<nav><a href=\"/\">Home</a></nav>"));
}

#[test]
fn readability_mode_takes_the_longest_article_without_noise() {
    let tool = ScrappingTool::new();
    let html = "<html><body><article>short</article><article><h1>Long</h1><script>var x;</script><p>much longer text</p></article><main>main text that is the longest of all here</main></body></html>";
    let content = tool.extract_content(html, &options_with(ExtractionMode::Readability)).unwrap();
    assert_eq!(content, "<article><h1>Long</h1><p>much longer text</p></article>");
}

#[test]
fn readability_falls_back_to_the_root_element() {
    let tool = ScrappingTool::new();
    let html = "<html><head></head><body><div>plain</div></body></html>";
    let content = tool.extract_content(html, &options_with(ExtractionMode::Readability)).unwrap();
    assert_eq!(content, "<html><head></head><body><div>plain</div></body></html>");
}

#[test]
fn plain_text_output_joins_the_fragment_text() {
    let tool = ScrappingTool::new();
    let out = tool.format_output("<p>a</p><p>b <b>c</b></p>", OutputFormat::PlainText);
    assert_eq!(out, "a b  c");
    let same = tool.format_output("<p>a</p>", OutputFormat::Html);
    assert_eq!(same, "<p>a</p>");
}
