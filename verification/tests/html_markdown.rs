use rustychain::formatters::MarkdownFormatter;
use rustychain::html::{HtmlKind, HtmlNode};

fn md(html: &str) -> String {
    MarkdownFormatter::markdown_of_html(html)
}

#[test]
fn headings_paragraphs_and_emphasis() {
    assert_eq!(md("<h1>Title</h1><p>Hello <b>world</b></p>"), "# Title\n\nHello **world**\n\n");
    assert_eq!(md("<h2>a</h2><h3>b</h3><h5>c</h5>"), "## a\n\n### b\n\n#### c\n\n");
    assert_eq!(md("<p><em>x</em> <strong>y</strong> <i>z</i></p>"), "*x* **y** *z*\n\n");
}

#[test]
fn lists_indent_by_depth() {
    assert_eq!(md("<ul><li>a</li><li>b</li></ul>"), "\n- a\n- b\n\n");
    assert_eq!(md("<ol><li>x<ul><li>y</li></ul></li></ol>"), "\n1. x\n  - y\n\n\n\n");
}

#[test]
fn code_inside_and_outside_preformatted_blocks() {
    assert_eq!(md("<pre><code>let x = 1;</code></pre>"), "```\nlet x = 1;\n```\n\n");
    assert_eq!(md("<p>use <code>x</code></p>"), "use `x`\n\n");
}

#[test]
fn quotes_links_images_and_breaks() {
    assert_eq!(md("<blockquote>one\ntwo</blockquote>"), "> one\n> two\n\n");
    assert_eq!(
        md("<p><a href=\"https://x.org\">site</a> <img src=\"a.png\" alt=\"A\"></p>"),
        "[site](https://x.org) ![A](a.png)\n\n"
    );
    assert_eq!(md("<p><a>plain</a></p>"), "plain\n\n");
    assert_eq!(md("<p>a<br>b</p><hr>"), "a  \nb\n\n\n---\n\n");
}

fn element(depth: usize, name: &str) -> HtmlNode {
    HtmlNode { depth, kind: HtmlKind::Element { name: name.to_string(), attrs: vec![] } }
}

#[test]
fn without_a_body_the_first_child_of_the_root_renders() {
    let nodes = vec![
        HtmlNode { depth: 0, kind: HtmlKind::Other },
        element(1, "html"),
        element(2, "p"),
        HtmlNode { depth: 3, kind: HtmlKind::Text("hi".to_string()) },
    ];
    assert_eq!(MarkdownFormatter::markdown_of_nodes(&nodes), "hi\n\n");
    assert_eq!(MarkdownFormatter::markdown_of_nodes(&vec![]), "");
}
