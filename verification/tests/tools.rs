use rustychain::error::Error;
use rustychain::tools::{DnsArgs, DnsTool, RecordKind};
use rustychain::splitters::recursive_json_splitter::JsonValue;
use rustychain::tools::{ClockArgs, ClockTool, WikipediaArgs, WikipediaTool};

#[test]
fn the_clock_falls_back_to_utc() {
    let zone = |tz: Option<&str>| ClockTool.reported_zone(&ClockArgs { timezone: tz.map(String::from) });
    assert_eq!(zone(Some("Europe/London")), "Europe/London");
    assert_eq!(zone(Some("Mars/Olympus")), "UTC");
    assert_eq!(zone(None), "UTC");
}

#[test]
fn wikipedia_summary_address() {
    let args = WikipediaArgs { title: "Rust (programming language)".into(), language: None };
    assert_eq!(
        WikipediaTool.summary_url(&args),
        "https://en.wikipedia.org/api/rest_v1/page/summary/Rust_%28programming_language%29"
    );
    let args = WikipediaArgs { title: "Café".into(), language: Some("fr".into()) };
    assert_eq!(WikipediaTool.summary_url(&args), "https://fr.wikipedia.org/api/rest_v1/page/summary/Caf%C3%A9");
}

fn obj(entries: Vec<(&str, JsonValue)>) -> JsonValue {
    JsonValue::Object(entries.into_iter().map(|(k, v)| (k.to_string(), v)).collect())
}

#[test]
fn wikipedia_summary_fields() {
    let data = obj(vec![
        ("title", JsonValue::Str("Rust".into())),
        ("extract", JsonValue::Str("A language".into())),
        ("content_urls", obj(vec![("desktop", obj(vec![("page", JsonValue::Str("https://w/Rust".into()))]))])),
    ]);
    let s = WikipediaTool.summary_of(data);
    assert!(matches!(s.title, JsonValue::Str(ref t) if t == "Rust"));
    assert!(matches!(s.extract, JsonValue::Str(ref t) if t == "A language"));
    assert!(matches!(s.description, JsonValue::Null));
    assert!(matches!(s.url, JsonValue::Str(ref t) if t == "https://w/Rust"));
    let s = WikipediaTool.summary_of(JsonValue::Null);
    assert!(matches!(s.url, JsonValue::Null));
}

#[test]
fn dns_record_types() {
    let rt = |t: Option<&str>| DnsTool.record_type(&DnsArgs { domain: "example.com".into(), record_type: t.map(String::from) });
    assert!(matches!(rt(None), Ok((RecordKind::A, ref s)) if s == "A"));
    assert!(matches!(rt(Some("aaaa")), Ok((RecordKind::AAAA, ref s)) if s == "AAAA"));
    assert!(matches!(rt(Some("Cname")), Ok((RecordKind::CNAME, _))));
    match rt(Some("spf")) {
        Err(Error::Input(m)) => assert_eq!(m, "Unsupported record type: SPF"),
        other => panic!("unexpected {:?}", other.map(|(_, s)| s)),
    }
}
