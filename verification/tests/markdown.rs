use rustychain::error::Error;
use rustychain::formatters::MarkdownFormatter;

fn html(md: &str) -> String {
    MarkdownFormatter::to_html(md).unwrap()
}

#[test]
fn markdown_paragraphs_and_inline() {
    assert_eq!(html("Hello world"), "<p>Hello world</p>\n");
    assert_eq!(html("one\ntwo\n\nthree"), "<p>one two</p>\n<p>three</p>\n");
    assert_eq!(
        html("**bold** and *em* and _em_ and `a<b` and [x&y](http://a?b=1&c=2)"),
        "<p><strong>bold</strong> and <em>em</em> and <em>em</em> and <code>a&lt;b</code> and <a href=\"http://a?b=1&amp;c=2\">x&amp;y</a></p>\n"
    );
    assert_eq!(html("a < b & \"c\" 'd'"), "<p>a &lt; b &amp; &quot;c&quot; 'd'</p>\n");
    assert_eq!(html(""), "");
}

#[test]
fn markdown_headers_and_rules() {
    assert_eq!(html("# Title"), "<h1>Title</h1>\n");
    assert_eq!(html("###### Six"), "<h6>Six</h6>\n");
    assert_eq!(html("####### Seven"), "<p>####### Seven</p>\n");
    assert_eq!(html("text\n---\nmore"), "<p>text</p>\n<hr />\n<p>more</p>\n");
}

#[test]
fn markdown_code_blocks() {
    assert_eq!(html("```rust\nlet a = 1 < 2;\n```"), "<pre><code class=\"language-rust\">let a = 1 &lt; 2;\n</code></pre>\n");
    assert_eq!(html("```\nx\n"), "<pre><code>x\n</code></pre>\n");
}

#[test]
fn markdown_lists_and_quotes() {
    assert_eq!(html("- a\n- b\n\nafter"), "<ul>\n<li>a</li>\n<li>b</li>\n</ul>\n<p>after</p>\n");
    assert_eq!(html("1. one\n2. two"), "<ol>\n<li>one</li>\n<li>two</li>\n</ol>\n");
    assert_eq!(html("> quoted\n> more\nplain"), "<blockquote>\n<p>quoted</p>\n<p>more</p>\n</blockquote>\n<p>plain</p>\n");
    assert_eq!(html("> last"), "<blockquote>\n<p>last</p>\n</blockquote>\n");
}

#[test]
fn markdown_is_read_from_the_content_field() {
    assert_eq!(
        MarkdownFormatter::from_json(r##"{"content": "# Title", "format": "markdown"}"##).unwrap(),
        "# Title"
    );
}

#[test]
fn markdown_from_json_without_string_content_is_an_input_error() {
    match MarkdownFormatter::from_json(r#"{"content": 3}"#) {
        Err(Error::Input(m)) => assert_eq!(m, "'content' field missing or not a string"),
        other => panic!("unexpected: {:?}", other),
    }
    match MarkdownFormatter::from_json("not json") {
        Err(Error::Input(m)) => assert!(m.starts_with("Invalid JSON: ")),
        other => panic!("unexpected: {:?}", other),
    }
}
