//! JSON text as Markdown, HTML or JSON again.
//!
//! Parsing and printing JSON is done by `serde_json`; the formatter frames
//! the printed text.
use crate::error::Error;
use crate::formatters::markdown::{escape_html, MarkdownFormatter};
use crate::splitters::recursive_json_splitter::{
    entries_data, json_parsed, lemma_entries_data_index, lemma_entries_text_data, parse_json,
    JsonData, JsonValue,
};
use crate::text::{chars_eq, chars_of, extend_chars, string_from_vec};
use crate::url::opt_string_view;
use vstd::prelude::*;

verus! {

/// How reading or printing JSON text failed, with `serde_json`'s message.
pub enum JsonFailure {
    Parse(String),
    Print(String),
}

/// What `serde_json` makes of the text `text` parsed as a value and printed
/// in its pretty form: the printed text, or the stage that failed with its
/// message.
pub uninterp spec fn json_printed_pretty(text: Seq<char>) -> Result<Seq<char>, (bool, Seq<char>)>;

/// What `serde_json` makes of the text `text` parsed as a value and printed
/// in its compact form: the printed text, or the stage that failed with its
/// message.
pub uninterp spec fn json_printed_compact(text: Seq<char>) -> Result<Seq<char>, (bool, Seq<char>)>;

pub open spec fn failure_view(r: Result<String, JsonFailure>) -> Result<Seq<char>, (bool, Seq<char>)> {
    match r {
        Ok(s) => Ok(s@),
        Err(JsonFailure::Parse(m)) => Err((true, m@)),
        Err(JsonFailure::Print(m)) => Err((false, m@)),
    }
}

/// Parses `text` with `serde_json::from_str` into a `serde_json::Value` and
/// prints it with `serde_json::to_string_pretty`; a failure keeps the
/// error's `Display` text. The result is named `json_printed_pretty(text)`.
#[verifier::external_body]
fn print_json_pretty(text: &str) -> (res: Result<String, JsonFailure>)
    ensures
        failure_view(res) == json_printed_pretty(text@),
{
    let value: serde_json::Value = serde_json::from_str(text).map_err(|e| JsonFailure::Parse(e.to_string()))?;
    serde_json::to_string_pretty(&value).map_err(|e| JsonFailure::Print(e.to_string()))
}

/// Parses `text` with `serde_json::from_str` into a `serde_json::Value` and
/// prints it with `serde_json::to_string`; a failure keeps the error's
/// `Display` text. The result is named `json_printed_compact(text)`.
#[verifier::external_body]
fn print_json_compact(text: &str) -> (res: Result<String, JsonFailure>)
    ensures
        failure_view(res) == json_printed_compact(text@),
{
    let value: serde_json::Value = serde_json::from_str(text).map_err(|e| JsonFailure::Parse(e.to_string()))?;
    serde_json::to_string(&value).map_err(|e| JsonFailure::Print(e.to_string()))
}

/// The error for a failed stage: `Invalid JSON input: ` and the parser's
/// message, or `what` and the printer's message.
pub open spec fn failure_message(f: (bool, Seq<char>), what: Seq<char>) -> Seq<char> {
    if f.0 {
        "Invalid JSON input: "@ + f.1
    } else {
        what + f.1
    }
}

fn failure_error(f: JsonFailure, what: &str) -> (res: Error)
    ensures
        res matches Error::Input(m) && m@ == failure_message(
            match f {
                JsonFailure::Parse(m) => (true, m@),
                JsonFailure::Print(m) => (false, m@),
            },
            what@,
        ),
{
    let (prefix, m) = match f {
        JsonFailure::Parse(m) => (chars_of("Invalid JSON input: "), m),
        JsonFailure::Print(m) => (chars_of(what), m),
    };
    let mut out = prefix;
    let mc = chars_of(m.as_str());
    extend_chars(&mut out, mc.as_slice());
    Error::Input(string_from_vec(out))
}

/// Formats JSON text.
pub struct JsonFormatter;

impl JsonFormatter {
    /// The pretty-printed JSON in a fenced `json` code block.
    pub fn to_markdown(json_str: &str) -> (res: Result<String, Error>)
        ensures
            match json_printed_pretty(json_str@) {
                Ok(p) => res matches Ok(s) && s@ == "```json\n"@ + p + "\n```"@,
                Err(f) => res matches Err(Error::Input(m)) && m@ == failure_message(
                    f,
                    "Failed to serialize JSON: "@,
                ),
            },
    {
        match print_json_pretty(json_str) {
            Ok(p) => {
                let mut out = chars_of("```json\n");
                let pc = chars_of(p.as_str());
                extend_chars(&mut out, pc.as_slice());
                let close = chars_of("\n```");
                extend_chars(&mut out, close.as_slice());
                Ok(string_from_vec(out))
            },
            Err(f) => Err(failure_error(f, "Failed to serialize JSON: ")),
        }
    }

    /// The pretty-printed JSON, HTML-escaped, in a `pre` and `code` block.
    pub fn to_html(json_str: &str) -> (res: Result<String, Error>)
        ensures
            match json_printed_pretty(json_str@) {
                Ok(p) => res matches Ok(s) && s@ == "<pre><code class=\"language-json\">"@
                    + crate::formatters::markdown::escape_html(p) + "</code></pre>"@,
                Err(f) => res matches Err(Error::Input(m)) && m@ == failure_message(
                    f,
                    "Failed to serialize JSON: "@,
                ),
            },
    {
        match print_json_pretty(json_str) {
            Ok(p) => {
                let mut out = chars_of("<pre><code class=\"language-json\">");
                let pc = chars_of(p.as_str());
                let escaped = MarkdownFormatter::escape_html(pc.as_slice());
                let ec = chars_of(escaped.as_str());
                extend_chars(&mut out, ec.as_slice());
                let close = chars_of("</code></pre>");
                extend_chars(&mut out, close.as_slice());
                Ok(string_from_vec(out))
            },
            Err(f) => Err(failure_error(f, "Failed to serialize JSON: ")),
        }
    }

    /// The JSON pretty-printed.
    pub fn to_json(text: &str) -> (res: Result<String, Error>)
        ensures
            match json_printed_pretty(text@) {
                Ok(p) => res matches Ok(s) && s@ == p,
                Err(f) => res matches Err(Error::Input(m)) && m@ == failure_message(
                    f,
                    "Failed to format JSON: "@,
                ),
            },
    {
        match print_json_pretty(text) {
            Ok(p) => Ok(p),
            Err(f) => Err(failure_error(f, "Failed to format JSON: ")),
        }
    }

    /// The JSON minified.
    pub fn from_json(text: &str) -> (res: Result<String, Error>)
        ensures
            match json_printed_compact(text@) {
                Ok(p) => res matches Ok(s) && s@ == p,
                Err(f) => res matches Err(Error::Input(m)) && m@ == failure_message(
                    f,
                    "Failed to minify JSON: "@,
                ),
            },
    {
        match print_json_compact(text) {
            Ok(p) => Ok(p),
            Err(f) => Err(failure_error(f, "Failed to minify JSON: ")),
        }
    }
}


/// The value of the first entry keyed `key`.
pub open spec fn first_field(es: Seq<(Seq<char>, JsonData)>, key: Seq<char>) -> Option<JsonData>
    decreases es.len(),
{
    if es.len() == 0 {
        None
    } else if es[0].0 == key {
        Some(es[0].1)
    } else {
        first_field(es.drop_first(), key)
    }
}

/// The string in the `content` field of `v`, when `v` is an object with
/// such a field holding a string (`Value::get`, then `Value::as_str`).
pub open spec fn content_field(v: JsonData) -> Option<Seq<char>> {
    match v {
        JsonData::Object(es) => match first_field(es, "content"@) {
            Some(JsonData::Str(c)) => Some(c),
            _ => None,
        },
        _ => None,
    }
}

/// The string in the `content` field of `v`, if it has one.
fn content_of(v: &JsonValue) -> (res: Option<String>)
    ensures
        opt_string_view(res) == content_field(v@),
{
    match v {
        JsonValue::Object(entries) => {
            let ghost ed = entries_data(entries@);
            proof {
                lemma_entries_text_data(entries@);
            }
            let key = chars_of("content");
            let mut i: usize = 0;
            assert(ed.skip(0) =~= ed);
            while i < entries.len()
                invariant
                    i <= entries.len(),
                    ed == entries_data(entries@),
                    *v == JsonValue::Object(*entries),
                    ed.len() == entries.len(),
                    key@ == "content"@,
                    first_field(ed.skip(i as int), "content"@) == first_field(ed, "content"@),
                decreases entries.len() - i,
            {
                proof {
                    lemma_entries_data_index(entries@, i as int);
                }
                assert(ed.skip(i as int)[0] == ed[i as int]);
                let k = chars_of(entries[i].0.as_str());
                if chars_eq(k.as_slice(), key.as_slice()) {
                    return match &entries[i].1 {
                        JsonValue::Str(c) => Some(c.clone()),
                        _ => None,
                    };
                }
                assert(ed.skip(i as int).drop_first() =~= ed.skip(i + 1));
                i += 1;
            }
            assert(ed.skip(i as int).len() == 0);
            None
        },
        _ => None,
    }
}

impl MarkdownFormatter {
    /// Reads Markdown out of a JSON object: the string in its `content`
    /// field. Text that is not JSON, and JSON without a string `content`,
    /// are input errors.
    pub fn from_json(json: &str) -> (res: Result<String, Error>)
        ensures
            match json_parsed(json@) {
                Err(m) => res matches Err(Error::Input(e)) && e@ == "Invalid JSON: "@ + m,
                Ok(v) => match content_field(v) {
                    None => res matches Err(Error::Input(e)) && e@
                        == "'content' field missing or not a string"@,
                    Some(c) => res matches Ok(s) && s@ == c,
                },
            },
    {
        match parse_json(json) {
            Ok(v) => match content_of(&v) {
                Some(s) => Ok(s),
                None => Err(Error::Input(String::from_str("'content' field missing or not a string"))),
            },
            Err(m) => {
                let mut msg = chars_of("Invalid JSON: ");
                let mc = chars_of(m.as_str());
                extend_chars(&mut msg, mc.as_slice());
                Err(Error::Input(string_from_vec(msg)))
            },
        }
    }
}

} // verus!
