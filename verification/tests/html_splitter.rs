use rustychain::splitters::{HtmlSemanticSplitter, SplitterConfig, TextSplitter};

#[test]
fn test_simple_html() {
    let config = SplitterConfig::new(1000, 0);
    let splitter = HtmlSemanticSplitter::new(config);

    let html = r#"<h1>Title</h1><p>Content here.</p>"#;
    let chunks = splitter.split_html(html);

    assert!(!chunks.is_empty());
    assert!(chunks[0].metadata.contains_key("h1"));
}

#[test]
fn test_nested_headers() {
    let config = SplitterConfig::new(1000, 0);
    let splitter = HtmlSemanticSplitter::new(config);

    let html = r#"
            <h1>Main Title</h1>
            <p>Intro</p>
            <h2>Section 1</h2>
            <p>Section 1 content</p>
            <h2>Section 2</h2>
            <p>Section 2 content</p>
        "#;

    let chunks = splitter.split_html(html);

    assert!(chunks.len() >= 2);
}

#[test]
fn test_strip_tags() {
    let config = SplitterConfig::new(1000, 0);
    let splitter = HtmlSemanticSplitter::new(config);

    let html = r#"<div><p>Hello <strong>world</strong>!</p></div>"#;
    let chunks = splitter.split_html(html);

    assert!(!chunks.is_empty());
    assert!(!chunks[0].content.contains('<'));
    assert!(chunks[0].content.contains("Hello"));
    assert!(chunks[0].content.contains("world"));
}

#[test]
fn test_preserve_tags() {
    let config = SplitterConfig::new(1000, 0);
    let splitter = HtmlSemanticSplitter::new(config).with_strip_tags(false);

    let html = r#"<p>Hello <strong>world</strong>!</p>"#;
    let chunks = splitter.split_html(html);

    assert!(!chunks.is_empty());
    assert!(chunks[0].content.contains("<strong>"));
}

#[test]
fn test_script_removal() {
    let config = SplitterConfig::new(1000, 0);
    let splitter = HtmlSemanticSplitter::new(config);

    let html = r#"<p>Text</p><script>alert('hi');</script><p>More text</p>"#;
    let chunks = splitter.split_html(html);

    assert!(!chunks.is_empty());
    assert!(!chunks[0].content.contains("alert"));
}

#[test]
fn test_html_entities() {
    let config = SplitterConfig::new(1000, 0);
    let splitter = HtmlSemanticSplitter::new(config);

    let html = r#"<p>Hello&nbsp;world &amp; friends</p>"#;
    let text = splitter.extract_text(html);

    assert!(text.contains("Hello world"));
    assert!(text.contains("& friends"));
}

#[test]
fn test_large_section_split() {
    let config = SplitterConfig::new(30, 0);
    let splitter = HtmlSemanticSplitter::new(config);

    let html = r#"<h1>Title</h1><p>This is a very long paragraph that should be split into multiple chunks because it definitely exceeds the small limit we set. More text here to make it even longer and ensure splitting happens properly.</p>"#;
    let chunks = splitter.split_html(html);

    assert!(
        chunks.len() >= 2,
        "Expected at least 2 chunks, got {}: {:?}",
        chunks.len(),
        chunks
    );
}

#[test]
fn test_with_sections() {
    let config = SplitterConfig::new(1000, 0);
    let splitter = HtmlSemanticSplitter::new(config).with_sections();

    let html = r#"<article><h1>Title</h1><section>Content</section></article>"#;
    let chunks = splitter.split_html(html);

    assert!(!chunks.is_empty());
}

#[test]
fn test_empty_html() {
    let splitter = HtmlSemanticSplitter::default();
    let chunks = splitter.split_html("");
    assert!(chunks.is_empty());
}

#[test]
fn test_no_headers() {
    let config = SplitterConfig::new(1000, 0);
    let splitter = HtmlSemanticSplitter::new(config);

    let html = r#"<p>Just some text without headers.</p>"#;
    let chunks = splitter.split_html(html);

    assert_eq!(chunks.len(), 1);
    assert!(chunks[0].metadata.is_empty());
}

#[test]
fn header_hierarchy_forgets_deeper_headers() {
    let config = SplitterConfig::new(1000, 0);
    let splitter = HtmlSemanticSplitter::new(config);
    let html = "<h1>A</h1>x<h2>B</h2>y<h1>C</h1>z";
    let chunks = splitter.split_html(html);
    assert_eq!(chunks.len(), 3);
    assert_eq!(chunks[0].content, "A x");
    assert_eq!(chunks[1].metadata.get("h1").map(|s| s.as_str()), Some("A"));
    assert_eq!(chunks[1].metadata.get("h2").map(|s| s.as_str()), Some("B"));
    assert_eq!(chunks[2].metadata.get("h1").map(|s| s.as_str()), Some("C"));
    assert!(!chunks[2].metadata.contains_key("h2"));
}

#[test]
fn extract_text_decodes_entities_and_collapses_spaces() {
    let splitter = HtmlSemanticSplitter::default();
    let text = splitter.extract_text("<div>a&lt;b&gt;c</div>\n\n  <li>x&quot;</li><style>p{}</style>end");
    assert_eq!(text, "a<b>c x\" end");
}

#[test]
fn html_split_tracks_positions() {
    let config = SplitterConfig::new(1000, 0).with_indices(true);
    let splitter = HtmlSemanticSplitter::new(config);
    let chunks = splitter.split("<p>Hello</p>");
    assert_eq!(chunks.len(), 1);
    assert_eq!(chunks[0].content, "Hello");
    assert_eq!(chunks[0].start_index, Some(3));
}

#[test]
fn html_split_end_index_is_where_the_chunk_ends() {
    let config = SplitterConfig::new(1000, 0).with_indices(true);
    let splitter = HtmlSemanticSplitter::new(config);
    let chunks = splitter.split("<p>Hello</p>");
    assert_eq!(chunks[0].end_index, Some(8));
}

#[test]
fn preserved_formatting_keeps_strong_and_drops_paragraphs() {
    let splitter =
        HtmlSemanticSplitter::new(SplitterConfig::new(1000, 0)).with_preserve_formatting(true);
    let chunks = splitter.split_html("<p>Hello <strong>world</strong>!</p>");
    assert_eq!(chunks.len(), 1);
    assert!(chunks[0].content.contains("<strong>world</strong>"));
    assert!(!chunks[0].content.contains("<p>"));
}

#[test]
fn each_formatting_tag_is_kept_only_when_asked() {
    let html = "<div>a <b>b</b> <i>i</i> <em>e</em> <code>c</code> <span>s</span></div>";
    let keep = HtmlSemanticSplitter::new(SplitterConfig::new(1000, 0)).with_preserve_formatting(true);
    assert_eq!(keep.extract_text(html), "a <b>b</b> <i>i</i> <em>e</em> <code>c</code> s");
    let plain = HtmlSemanticSplitter::new(SplitterConfig::new(1000, 0));
    assert_eq!(plain.extract_text(html), "a b i e c s");
}

#[test]
fn tags_are_found_whatever_the_case_of_non_ascii_letters() {
    let splitter = HtmlSemanticSplitter::new(SplitterConfig::new(1000, 0))
        .with_tags(vec![("ä".to_string(), "Section".to_string())]);
    let chunks = splitter.split_html("<Ä>Überblick</Ä><p>Text</p>");
    assert!(!chunks.is_empty());
    assert!(chunks.iter().any(|c| c.metadata.contains_key("Section")));
}
