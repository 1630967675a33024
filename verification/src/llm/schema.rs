//! JSON Schema of tool parameters, read into the shape that OpenAI's
//! function definitions take.
use crate::splitters::recursive_json_splitter::JsonValue;
use crate::text::{chars_are, chars_of, string_from_vec};
use vstd::prelude::*;

verus! {

/// The type of a schema.
#[derive(Clone, Copy, Debug, PartialEq, Eq, Structural)]
pub enum SchemaType {
    String,
    Number,
    Boolean,
    Array,
    Object,
}

/// A schema: its type, description, allowed values, properties with their
/// schemas, required properties and the schema of its items.
#[derive(Debug)]
pub struct SchemaDefine {
    pub schema_type: Option<SchemaType>,
    pub description: Option<String>,
    pub enum_values: Option<Vec<String>>,
    pub properties: Option<Vec<(String, SchemaDefine)>>,
    pub required: Option<Vec<String>>,
    pub items: Option<Box<SchemaDefine>>,
}

/// The type that a `type` name stands for: `integer` is a number, and an
/// unknown name a string.
pub open spec fn type_named(t: Seq<char>) -> SchemaType {
    if t == "string"@ {
        SchemaType::String
    } else if t == "number"@ || t == "integer"@ {
        SchemaType::Number
    } else if t == "boolean"@ {
        SchemaType::Boolean
    } else if t == "array"@ {
        SchemaType::Array
    } else if t == "object"@ {
        SchemaType::Object
    } else {
        SchemaType::String
    }
}

/// The string values among `vs`, in order.
pub open spec fn strings_of(vs: Seq<JsonValue>) -> Seq<Seq<char>>
    decreases vs.len(),
{
    if vs.len() == 0 {
        Seq::empty()
    } else {
        strings_of(vs.drop_last()) + match vs.last() {
            JsonValue::Str(s) => seq![s@],
            _ => Seq::empty(),
        }
    }
}

/// The value of the first entry with `key`.
pub open spec fn entry(es: Seq<(String, JsonValue)>, key: Seq<char>) -> Option<JsonValue>
    decreases es.len(),
{
    if es.len() == 0 {
        None
    } else if es[0].0@ == key {
        Some(es[0].1)
    } else {
        entry(es.drop_first(), key)
    }
}

/// A schema in terms of sequences.
pub struct SchemaView {
    pub schema_type: Option<SchemaType>,
    pub description: Option<Seq<char>>,
    pub enum_values: Option<Seq<Seq<char>>>,
    pub properties: Option<Seq<(Seq<char>, SchemaView)>>,
    pub required: Option<Seq<Seq<char>>>,
    pub items: Option<Box<SchemaView>>,
}

/// The schema that the JSON value `v` describes. Each part is read from the
/// value's key of that name where it has the right form: a string `type`
/// and `description`, an array `enum` and `required` (their string
/// elements), an object `properties` and any `items`.
pub open spec fn schema_of(v: JsonValue) -> SchemaView
    decreases v,
{
    match v {
        JsonValue::Object(es) => SchemaView {
            schema_type: match entry(es@, "type"@) {
                Some(JsonValue::Str(t)) => Some(type_named(t@)),
                _ => None,
            },
            description: match entry(es@, "description"@) {
                Some(JsonValue::Str(d)) => Some(d@),
                _ => None,
            },
            enum_values: match entry(es@, "enum"@) {
                Some(JsonValue::Array(vs)) => Some(strings_of(vs@)),
                _ => None,
            },
            properties: properties_in(es@),
            required: match entry(es@, "required"@) {
                Some(JsonValue::Array(vs)) => Some(strings_of(vs@)),
                _ => None,
            },
            items: items_in(es@),
        },
        _ => SchemaView {
            schema_type: None,
            description: None,
            enum_values: None,
            properties: None,
            required: None,
            items: None,
        },
    }
}

/// The schema of the first `items` entry of `es`.
pub open spec fn items_in(es: Seq<(String, JsonValue)>) -> Option<Box<SchemaView>>
    decreases es,
{
    if es.len() == 0 {
        None
    } else if es[0].0@ == "items"@ {
        Some(Box::new(schema_of(es[0].1)))
    } else {
        items_in(es.drop_first())
    }
}

/// The properties of the first `properties` entry of `es`, if it is an
/// object: each key with the schema of its value.
pub open spec fn properties_in(es: Seq<(String, JsonValue)>) -> Option<Seq<(Seq<char>, SchemaView)>>
    decreases es,
{
    if es.len() == 0 {
        None
    } else if es[0].0@ == "properties"@ {
        match es[0].1 {
            JsonValue::Object(ps) => Some(property_list(ps@)),
            _ => None,
        }
    } else {
        properties_in(es.drop_first())
    }
}

/// Each entry's key with the schema of its value.
pub open spec fn property_list(ps: Seq<(String, JsonValue)>) -> Seq<(Seq<char>, SchemaView)>
    decreases ps,
{
    if ps.len() == 0 {
        Seq::empty()
    } else {
        seq![(ps[0].0@, schema_of(ps[0].1))] + property_list(ps.drop_first())
    }
}


/// The view of a schema.
pub open spec fn schema_view(s: SchemaDefine) -> SchemaView
    decreases s,
{
    SchemaView {
        schema_type: s.schema_type,
        description: match s.description {
            Some(d) => Some(d@),
            None => None,
        },
        enum_values: match s.enum_values {
            Some(v) => Some(v@.map_values(|x: String| x@)),
            None => None,
        },
        properties: match s.properties {
            Some(ps) => Some(properties_view(ps@)),
            None => None,
        },
        required: match s.required {
            Some(v) => Some(v@.map_values(|x: String| x@)),
            None => None,
        },
        items: match s.items {
            Some(b) => Some(Box::new(schema_view(*b))),
            None => None,
        },
    }
}

/// The views of named schemas.
pub open spec fn properties_view(ps: Seq<(String, SchemaDefine)>) -> Seq<(Seq<char>, SchemaView)>
    decreases ps,
{
    if ps.len() == 0 {
        Seq::empty()
    } else {
        seq![(ps[0].0@, schema_view(ps[0].1))] + properties_view(ps.drop_first())
    }
}

proof fn lemma_property_list(ps: Seq<(String, JsonValue)>)
    ensures
        property_list(ps).len() == ps.len(),
        forall|i: int|
            0 <= i < ps.len() ==> #[trigger] property_list(ps)[i] == (ps[i].0@, schema_of(ps[i].1)),
    decreases ps.len(),
{
    if ps.len() > 0 {
        lemma_property_list(ps.drop_first());
        assert forall|i: int| 0 <= i < ps.len() implies #[trigger] property_list(ps)[i] == (
            ps[i].0@,
            schema_of(ps[i].1),
        ) by {
            if i > 0 {
                assert(property_list(ps)[i] == property_list(ps.drop_first())[i - 1]);
            }
        }
    }
}

proof fn lemma_properties_view(ps: Seq<(String, SchemaDefine)>)
    ensures
        properties_view(ps).len() == ps.len(),
        forall|i: int|
            0 <= i < ps.len() ==> #[trigger] properties_view(ps)[i] == (ps[i].0@, schema_view(ps[i].1)),
    decreases ps.len(),
{
    if ps.len() > 0 {
        lemma_properties_view(ps.drop_first());
        assert forall|i: int| 0 <= i < ps.len() implies #[trigger] properties_view(ps)[i] == (
            ps[i].0@,
            schema_view(ps[i].1),
        ) by {
            if i > 0 {
                assert(properties_view(ps)[i] == properties_view(ps.drop_first())[i - 1]);
            }
        }
    }
}

proof fn lemma_items_in(es: Seq<(String, JsonValue)>)
    ensures
        items_in(es) == match entry(es, "items"@) {
            Some(x) => Some(Box::new(schema_of(x))),
            None => None,
        },
    decreases es.len(),
{
    if es.len() > 0 && es[0].0@ != "items"@ {
        lemma_items_in(es.drop_first());
    }
}

proof fn lemma_properties_in(es: Seq<(String, JsonValue)>)
    ensures
        properties_in(es) == match entry(es, "properties"@) {
            Some(JsonValue::Object(ps)) => Some(property_list(ps@)),
            _ => None,
        },
    decreases es.len(),
{
    if es.len() > 0 && es[0].0@ != "properties"@ {
        lemma_properties_in(es.drop_first());
    }
}

/// The position of the first entry with `key`.
fn find_entry(es: &Vec<(String, JsonValue)>, key: &str) -> (res: Option<usize>)
    ensures
        match res {
            Some(k) => k < es.len() && entry(es@, key@) == Some(es@[k as int].1),
            None => entry(es@, key@) is None,
        },
{
    let mut k: usize = 0;
    assert(es@.skip(0) =~= es@);
    while k < es.len()
        invariant
            k <= es.len(),
            entry(es@.skip(k as int), key@) == entry(es@, key@),
        decreases es.len() - k,
    {
        let kc = chars_of(es[k].0.as_str());
        assert(es@.skip(k as int)[0] == es@[k as int]);
        if chars_are(kc.as_slice(), key) {
            return Some(k);
        }
        assert(es@.skip(k as int).drop_first() =~= es@.skip(k + 1));
        k += 1;
    }
    None
}

/// The string values of `vs`.
fn strings_exec(vs: &Vec<JsonValue>) -> (res: Vec<String>)
    ensures
        res@.map_values(|x: String| x@) == strings_of(vs@),
{
    let mut out: Vec<String> = Vec::new();
    let mut k: usize = 0;
    while k < vs.len()
        invariant
            k <= vs.len(),
            out@.map_values(|x: String| x@) == strings_of(vs@.take(k as int)),
        decreases vs.len() - k,
    {
        assert(vs@.take(k + 1).drop_last() =~= vs@.take(k as int));
        let ghost before = out@.map_values(|x: String| x@);
        match &vs[k] {
            JsonValue::Str(s) => {
                out.push(string_from_vec(chars_of(s.as_str())));
                assert(out@.map_values(|x: String| x@) =~= before + seq![s@]);
            },
            _ => {
                assert(out@.map_values(|x: String| x@) =~= before + Seq::<Seq<char>>::empty());
            },
        }
        k += 1;
    }
    assert(vs@.take(k as int) =~= vs@);
    out
}

fn string_entry(es: &Vec<(String, JsonValue)>, key: &str) -> (res: Option<String>)
    ensures
        match entry(es@, key@) {
            Some(JsonValue::Str(t)) => res matches Some(r) && r@ == t@,
            _ => res is None,
        },
{
    match find_entry(es, key) {
        Some(k) => match &es[k].1 {
            JsonValue::Str(t) => Some(string_from_vec(chars_of(t.as_str()))),
            _ => None,
        },
        None => None,
    }
}

fn strings_entry(es: &Vec<(String, JsonValue)>, key: &str) -> (res: Option<Vec<String>>)
    ensures
        match entry(es@, key@) {
            Some(JsonValue::Array(vs)) => res matches Some(r) && r@.map_values(|x: String| x@)
                == strings_of(vs@),
            _ => res is None,
        },
{
    match find_entry(es, key) {
        Some(k) => match &es[k].1 {
            JsonValue::Array(vs) => Some(strings_exec(vs)),
            _ => None,
        },
        None => None,
    }
}

fn type_exec(t: &str) -> (res: SchemaType)
    ensures
        res == type_named(t@),
{
    let c = chars_of(t);
    if chars_are(c.as_slice(), "string") {
        SchemaType::String
    } else if chars_are(c.as_slice(), "number") || chars_are(c.as_slice(), "integer") {
        SchemaType::Number
    } else if chars_are(c.as_slice(), "boolean") {
        SchemaType::Boolean
    } else if chars_are(c.as_slice(), "array") {
        SchemaType::Array
    } else if chars_are(c.as_slice(), "object") {
        SchemaType::Object
    } else {
        SchemaType::String
    }
}

/// Reads the schema that the JSON value `v` describes, as `schema_of` says.
pub fn schema_define(v: &JsonValue) -> (res: SchemaDefine)
    ensures
        schema_view(res) == schema_of(*v),
    decreases v,
{
    match v {
        JsonValue::Object(es) => {
            let schema_type = match find_entry(es, "type") {
                Some(k) => match &es[k].1 {
                    JsonValue::Str(t) => Some(type_exec(t.as_str())),
                    _ => None,
                },
                None => None,
            };
            let description = string_entry(es, "description");
            let enum_values = strings_entry(es, "enum");
            let required = strings_entry(es, "required");
            proof {
                lemma_items_in(es@);
                lemma_properties_in(es@);
            }
            let items = match find_entry(es, "items") {
                Some(k) => {
                    assert(decreases_to!(*v => es@[k as int].1));
                    Some(Box::new(schema_define(&es[k].1)))
                },
                None => None,
            };
            let properties = match find_entry(es, "properties") {
                Some(k) => match &es[k].1 {
                    JsonValue::Object(ps) => {
                        assert forall|i: int| 0 <= i < ps.len() implies decreases_to!(*v => #[trigger] ps@[i].1) by {
                            assert(decreases_to!(*v => es@[k as int].1));
                            assert(decreases_to!(es@[k as int].1 => ps@[i].1));
                        }
                        let mut out: Vec<(String, SchemaDefine)> = Vec::new();
                        let mut j: usize = 0;
                        while j < ps.len()
                            invariant
                                j <= ps.len(),
                                forall|i: int| 0 <= i < ps.len() ==> decreases_to!(*v => #[trigger] ps@[i].1),
                                out.len() == j,
                                forall|i: int|
                                    0 <= i < j ==> (#[trigger] out@[i]).0@ == ps@[i].0@ && schema_view(
                                        out@[i].1,
                                    ) == schema_of(ps@[i].1),
                            decreases ps.len() - j,
                        {
                            assert(decreases_to!(*v => ps@[j as int].1));
                            let sub = schema_define(&ps[j].1);
                            let name = string_from_vec(chars_of(ps[j].0.as_str()));
                            out.push((name, sub));
                            j += 1;
                        }
                        proof {
                            lemma_property_list(ps@);
                            lemma_properties_view(out@);
                            assert(properties_view(out@) =~= property_list(ps@));
                        }
                        Some(out)
                    },
                    _ => None,
                },
                None => None,
            };
            SchemaDefine { schema_type, description, enum_values, properties, required, items }
        },
        _ => SchemaDefine {
            schema_type: None,
            description: None,
            enum_values: None,
            properties: None,
            required: None,
            items: None,
        },
    }
}

/// The parameters of a function definition: an object with these
/// properties and required names.
#[derive(Debug)]
pub struct FunctionParameters {
    pub schema_type: SchemaType,
    pub properties: Option<Vec<(String, SchemaDefine)>>,
    pub required: Option<Vec<String>>,
}

/// The parameters that the JSON Schema `schema` of a tool's arguments
/// describes: its properties and required names as `schema_of` reads them.
pub fn function_parameters(schema: &JsonValue) -> (res: FunctionParameters)
    ensures
        res.schema_type == SchemaType::Object,
        match res.properties {
            Some(ps) => schema_of(*schema).properties == Some(properties_view(ps@)),
            None => schema_of(*schema).properties is None,
        },
        match res.required {
            Some(r) => schema_of(*schema).required == Some(r@.map_values(|x: String| x@)),
            None => schema_of(*schema).required is None,
        },
{
    let d = schema_define(schema);
    FunctionParameters { schema_type: SchemaType::Object, properties: d.properties, required: d.required }
}

} // verus!
