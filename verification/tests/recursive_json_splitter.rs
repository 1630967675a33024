use rustychain::splitters::recursive_json_splitter::chunks_with_indices;
use rustychain::splitters::{JsonValue, RecursiveJsonSplitter, SplitterConfig, TextSplitter};
use serde_json::Value;

fn to_json_value(v: &Value) -> JsonValue {
    match v {
        Value::Null => JsonValue::Null,
        Value::Bool(b) => JsonValue::Bool(*b),
        Value::Number(n) => JsonValue::Number(n.to_string()),
        Value::String(s) => JsonValue::Str(s.clone()),
        Value::Array(a) => JsonValue::Array(a.iter().map(to_json_value).collect()),
        Value::Object(m) => {
            JsonValue::Object(m.iter().map(|(k, v)| (k.clone(), to_json_value(v))).collect())
        }
    }
}

#[test]
fn test_small_json_no_split() {
    let config = SplitterConfig::new(1000, 0);
    let splitter = RecursiveJsonSplitter::new(config);

    let json = r#"{"name": "John", "age": 30}"#;
    let chunks = splitter.split_json(json);

    assert_eq!(chunks.len(), 1);
    let original: Value = serde_json::from_str(json).unwrap();
    let result: Value = serde_json::from_str(&chunks[0]).unwrap();
    assert_eq!(original, result);
}

#[test]
fn test_object_split() {
    let config = SplitterConfig::new(50, 0);
    let splitter = RecursiveJsonSplitter::new(config);

    let json = r#"{"key1": "value1", "key2": "value2", "key3": "value3", "key4": "value4"}"#;
    let chunks = splitter.split_json(json);

    assert!(chunks.len() > 1);
    for chunk in &chunks {
        assert!(serde_json::from_str::<Value>(chunk).is_ok());
    }
}

#[test]
fn test_array_split() {
    let config = SplitterConfig::new(20, 0);
    let splitter = RecursiveJsonSplitter::new(config);

    let json = r#"[1,2,3,4,5,6,7,8,9,10,11,12,13,14,15]"#;
    let chunks = splitter.split_json(json);

    assert!(chunks.len() > 1, "Expected multiple chunks, got {}: {:?}", chunks.len(), chunks);
    for chunk in &chunks {
        assert!(serde_json::from_str::<Value>(chunk).is_ok(), "Invalid JSON: {}", chunk);
    }
}

#[test]
fn test_nested_object_split() {
    let config = SplitterConfig::new(100, 0);
    let splitter = RecursiveJsonSplitter::new(config);

    let json = r#"{"outer": {"inner1": "value1", "inner2": "value2", "inner3": "value3", "inner4": "value4", "inner5": "value5"}}"#;
    let chunks = splitter.split_json(json);

    assert!(!chunks.is_empty());
}

#[test]
fn test_invalid_json() {
    let splitter = RecursiveJsonSplitter::default();
    let chunks = splitter.split_json("not valid json {");

    assert_eq!(chunks.len(), 1);
    assert_eq!(chunks[0], "not valid json {");
}

#[test]
fn test_empty_json() {
    let splitter = RecursiveJsonSplitter::default();

    assert!(splitter.split_json("").is_empty());
    assert_eq!(splitter.split_json("{}"), vec!["{}"]);
    assert_eq!(splitter.split_json("[]"), vec!["[]"]);
}

#[test]
fn test_large_array_elements() {
    let config = SplitterConfig::new(50, 0);
    let splitter = RecursiveJsonSplitter::new(config);

    let json = r#"[{"id": 1, "name": "Alice"}, {"id": 2, "name": "Bob"}, {"id": 3, "name": "Charlie"}]"#;
    let chunks = splitter.split_json(json);

    assert!(!chunks.is_empty());
}

#[test]
fn serialization_matches_serde_json() {
    let splitter = RecursiveJsonSplitter::default();
    let json = r#"{"b": [1, 2.5, -3e10, true, null], "a": "q\"uo\\te\n\t\u0001é", "c": {}}"#;
    let value: Value = serde_json::from_str(json).unwrap();
    assert_eq!(splitter.json_to_string(&to_json_value(&value)), serde_json::to_string(&value).unwrap());
}

#[test]
fn groups_and_keyed_pieces() {
    let splitter = RecursiveJsonSplitter::new(SplitterConfig::new(20, 0));
    let chunks = splitter.split_json(r#"[1,2,3,4,5,6,7,8,9,10,11,12,13,14,15]"#);
    assert_eq!(chunks, vec!["[1,2,3,4,5,6,7,8,9]", "[10,11,12,13,14,15]"]);

    let chunks = splitter.split_json(r#"{"a": [1111111111, 2222222222, 3333333333], "b": 1}"#);
    assert_eq!(
        chunks,
        vec!["{\"a[0]\":[1111111111]}", "{\"a[1]\":[2222222222]}", "{\"a[2]\":[3333333333]}", "{\"b\":1}"]
    );

    let shallow = RecursiveJsonSplitter::new(SplitterConfig::new(5, 0)).with_max_depth(0);
    assert_eq!(shallow.split_json("[1, 2, 3]"), vec!["[1,2,3]"]);
}

#[test]
fn json_chunk_positions() {
    let text = r#"{"a": 1, "b": 2}"#;
    let chunks = chunks_with_indices(text, vec!["{\"a\":1}".to_string(), "zzz".to_string()]);
    assert_eq!(chunks[0].start_index, None);
    let chunks = chunks_with_indices("xx[1]yy[1]", vec!["[1]".to_string(), "[1]".to_string()]);
    assert_eq!(chunks[0].start_index, Some(2));
    assert_eq!(chunks[1].start_index, Some(7));
    assert_eq!(chunks[1].end_index, Some(7));
}

#[test]
fn keys_needing_escapes_stay_valid_json() {
    let splitter = RecursiveJsonSplitter::new(SplitterConfig::new(10, 0));
    let value = JsonValue::Object(vec![("a\"b".to_string(), JsonValue::Str("xxxxxxxxxxxx".to_string()))]);
    let chunks = splitter.split_parsed(Some(value), "{\"a\\\"b\":\"xxxxxxxxxxxx\"}");
    assert!(!chunks.is_empty());
    for c in &chunks {
        assert!(serde_json::from_str::<Value>(c).is_ok(), "not JSON: {}", c);
    }
}

#[test]
fn values_below_the_minimum_size_are_not_split() {
    let splitter = RecursiveJsonSplitter::new(SplitterConfig::new(5, 0)).with_min_value_size(100);
    let items = (1..=5).map(|n| JsonValue::Number(n.to_string())).collect();
    let chunks = splitter.split_parsed(Some(JsonValue::Array(items)), "[1,2,3,4,5]");
    assert_eq!(chunks, vec!["[1,2,3,4,5]".to_string()]);
}

#[test]
fn the_text_splitter_parses_and_splits() {
    let splitter = RecursiveJsonSplitter::new(SplitterConfig::new(20, 0));
    let chunks = splitter.split(r#"[1,2,3,4,5,6,7,8,9,10,11,12,13,14,15]"#);
    assert!(chunks.len() > 1);
    for c in &chunks {
        assert!(serde_json::from_str::<Value>(&c.content).is_ok());
        assert!(c.start_index.is_none());
    }
    let texts = splitter.split_text("not json");
    assert_eq!(texts, vec!["not json".to_string()]);
    assert!(splitter.split("").is_empty());
}

#[test]
fn tracked_json_chunks_get_their_places() {
    let mut config = SplitterConfig::new(12, 0);
    config.track_indices = true;
    let splitter = RecursiveJsonSplitter::new(config);
    let chunks = splitter.split(r#"{"a": "xxxx", "b": "yyyy"}"#);
    assert_eq!(chunks.len(), 2);
    assert_eq!(chunks[0].content, r#"{"a":"xxxx"}"#);
    assert!(chunks.iter().all(|c| c.content.starts_with('{')));
}
