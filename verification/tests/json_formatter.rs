use rustychain::error::Error;
use rustychain::formatters::json::JsonFormatter;

#[test]
fn json_in_markdown_and_html() {
    assert_eq!(JsonFormatter::to_markdown("{\"a\":1}").unwrap(), "```json\n{\n  \"a\": 1\n}\n```");
    assert_eq!(
        JsonFormatter::to_html("{\"a\":\"<b>\"}").unwrap(),
        "<pre><code class=\"language-json\">{\n  &quot;a&quot;: &quot;&lt;b&gt;&quot;\n}</code></pre>"
    );
}

#[test]
fn json_pretty_and_minified() {
    assert_eq!(JsonFormatter::to_json("[1,2]").unwrap(), "[\n  1,\n  2\n]");
    assert_eq!(JsonFormatter::from_json(" { \"a\" : [1, 2] } ").unwrap(), "{\"a\":[1,2]}");
}

#[test]
fn invalid_json_is_an_input_error() {
    match JsonFormatter::from_json("{oops") {
        Err(Error::Input(m)) => assert!(m.starts_with("Invalid JSON input: ")),
        other => panic!("unexpected {:?}", other),
    }
    assert!(matches!(JsonFormatter::to_markdown(""), Err(Error::Input(_))));
}
