use rustychain::llm::schema::{function_parameters, schema_define, SchemaType};
use rustychain::splitters::recursive_json_splitter::JsonValue;

fn s(x: &str) -> JsonValue {
    JsonValue::Str(x.to_string())
}

fn obj(entries: Vec<(&str, JsonValue)>) -> JsonValue {
    JsonValue::Object(entries.into_iter().map(|(k, v)| (k.to_string(), v)).collect())
}

fn args_schema() -> JsonValue {
    obj(vec![
        ("type", s("object")),
        (
            "properties",
            obj(vec![
                ("q", obj(vec![("type", s("string")), ("description", s("the query"))])),
                ("n", obj(vec![("type", s("integer"))])),
                ("tags", obj(vec![("type", s("array")), ("items", obj(vec![("type", s("string"))]))])),
                ("mode", obj(vec![("type", s("weird")), ("enum", JsonValue::Array(vec![s("a"), JsonValue::Null, s("b")]))])),
            ]),
        ),
        ("required", JsonValue::Array(vec![s("q"), JsonValue::Number("1".into())])),
    ])
}

#[test]
fn schema_types_descriptions_and_items() {
    let d = schema_define(&args_schema());
    assert_eq!(d.schema_type, Some(SchemaType::Object));
    let props = d.properties.unwrap();
    assert_eq!(props.len(), 4);
    assert_eq!(props[0].0, "q");
    assert_eq!(props[0].1.schema_type, Some(SchemaType::String));
    assert_eq!(props[0].1.description.as_deref(), Some("the query"));
    assert_eq!(props[1].1.schema_type, Some(SchemaType::Number));
    let items = props[2].1.items.as_ref().unwrap();
    assert_eq!(props[2].1.schema_type, Some(SchemaType::Array));
    assert_eq!(items.schema_type, Some(SchemaType::String));
    assert_eq!(props[3].1.schema_type, Some(SchemaType::String));
    assert_eq!(props[3].1.enum_values, Some(vec!["a".to_string(), "b".to_string()]));
    assert_eq!(d.required, Some(vec!["q".to_string()]));
    assert!(d.items.is_none());
}

#[test]
fn function_parameters_take_properties_and_required() {
    let p = function_parameters(&args_schema());
    assert_eq!(p.properties.unwrap().len(), 4);
    assert_eq!(p.required, Some(vec!["q".to_string()]));
    let empty = function_parameters(&JsonValue::Null);
    assert!(empty.properties.is_none() && empty.required.is_none());
}

/// The schema that `schemars` writes for arguments `a: f64, b: f64,
/// operation: String`.
fn calculator_schema() -> JsonValue {
    let number = || obj(vec![("type", s("number")), ("format", s("double"))]);
    obj(vec![
        ("$schema", s("https://json-schema.org/draft/2020-12/schema")),
        ("title", s("CalculatorArgs")),
        ("type", s("object")),
        (
            "properties",
            obj(vec![("a", number()), ("b", number()), ("operation", obj(vec![("type", s("string"))]))]),
        ),
        ("required", JsonValue::Array(vec![s("a"), s("b"), s("operation")])),
    ])
}

#[test]
fn test_schema_to_openai_parameters_conversion() {
    let params = function_parameters(&calculator_schema());
    assert_eq!(params.schema_type, SchemaType::Object);
    let props = params.properties.expect("Should have properties");
    assert!(props.iter().any(|(k, _)| k == "a"));
    assert!(props.iter().any(|(k, _)| k == "b"));
    assert!(props.iter().any(|(k, _)| k == "operation"));
    let required = params.required.expect("Should have required fields");
    assert!(required.contains(&"a".to_string()));
}
