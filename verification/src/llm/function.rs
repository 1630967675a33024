//! Function calls, their results, and the tools a model may call.
use vstd::prelude::*;

use crate::llm::schema::{function_parameters, schema_of, properties_view, FunctionParameters, SchemaType};
use crate::splitters::recursive_json_splitter::{clone_json, json_string, json_text, JsonData, JsonValue};
use crate::url::opt_string_view;

verus! {

/// A call of a tool that a model asks for: the tool's name and its
/// arguments.
#[derive(Debug)]
pub struct FunctionCall {
    pub name: String,
    pub arguments: JsonValue,
}

impl View for FunctionCall {
    type V = (Seq<char>, JsonData);

    open spec fn view(&self) -> (Seq<char>, JsonData) {
        (self.name@, self.arguments@)
    }
}

/// What a tool returned, under the tool's name.
#[derive(Debug)]
pub struct FunctionResult {
    pub name: String,
    pub results: JsonValue,
}

impl View for FunctionResult {
    type V = (Seq<char>, JsonData);

    open spec fn view(&self) -> (Seq<char>, JsonData) {
        (self.name@, self.results@)
    }
}

/// The function part of an OpenAI tool call: the function's name and its
/// arguments as JSON text.
#[derive(Debug)]
pub struct OpenAiCallFunction {
    pub name: Option<String>,
    pub arguments: Option<String>,
}

/// A tool call as OpenAI reports it, its arguments already read as JSON:
/// `None` where they were missing or were not valid JSON.
#[derive(Debug)]
pub struct ReceivedCall {
    pub name: Option<String>,
    pub arguments: Option<JsonValue>,
}

/// The name of a received call: empty where none was given.
pub open spec fn received_name(call: ReceivedCall) -> Seq<char> {
    match call.name {
        Some(n) => n@,
        None => Seq::empty(),
    }
}

/// The arguments of a received call: `null` where none could be read.
pub open spec fn received_arguments(call: ReceivedCall) -> JsonData {
    match call.arguments {
        Some(a) => a@,
        None => JsonData::Null,
    }
}

impl FunctionCall {
    /// The call as OpenAI takes it: the name, and the arguments as compact
    /// JSON text.
    pub fn to_openai(&self) -> (res: OpenAiCallFunction)
        ensures
            opt_string_view(res.name) == Some(self.name@),
            opt_string_view(res.arguments) == Some(json_text(self.arguments)),
    {
        OpenAiCallFunction { name: Some(self.name.clone()), arguments: Some(json_string(&self.arguments)) }
    }

    /// The call that OpenAI reported: a missing name is empty, and missing
    /// or unreadable arguments are `null`.
    pub fn from_openai(call: ReceivedCall) -> (res: Self)
        ensures
            res.name@ == received_name(call),
            res.arguments@ == received_arguments(call),
    {
        let name = match call.name {
            Some(n) => n,
            None => String::new(),
        };
        let arguments = match call.arguments {
            Some(a) => a,
            None => JsonValue::Null,
        };
        FunctionCall { name, arguments }
    }

    /// A copy of this call.
    pub fn copy(&self) -> (res: Self)
        ensures
            res@ == self@,
            json_text(res.arguments) == json_text(self.arguments),
    {
        FunctionCall { name: self.name.clone(), arguments: clone_json(&self.arguments) }
    }
}

impl FunctionResult {
    /// A copy of this result.
    pub fn copy(&self) -> (res: Self)
        ensures
            res@ == self@,
            json_text(res.results) == json_text(self.results),
    {
        FunctionResult { name: self.name.clone(), results: clone_json(&self.results) }
    }
}

/// A tool that a model may call: its name, its description and the JSON
/// Schema of its arguments.
#[derive(Debug)]
pub struct ToolInfo {
    pub name: String,
    pub description: String,
    pub parameters: JsonValue,
}

impl View for ToolInfo {
    type V = (Seq<char>, Seq<char>, JsonData);

    open spec fn view(&self) -> (Seq<char>, Seq<char>, JsonData) {
        (self.name@, self.description@, self.parameters@)
    }
}

/// The function that an OpenAI tool definition offers.
#[derive(Debug)]
pub struct OpenAiFunction {
    pub name: String,
    pub description: Option<String>,
    pub parameters: FunctionParameters,
}

/// `f` is the OpenAI function definition of `t`: its name, its
/// description, and the parameters that its schema describes.
pub open spec fn is_openai_function(f: OpenAiFunction, t: ToolInfo) -> bool {
    &&& f.name@ == t.name@
    &&& opt_string_view(f.description) == Some(t.description@)
    &&& f.parameters.schema_type == SchemaType::Object
    &&& match f.parameters.properties {
        Some(ps) => schema_of(t.parameters).properties == Some(properties_view(ps@)),
        None => schema_of(t.parameters).properties is None,
    }
    &&& match f.parameters.required {
        Some(r) => schema_of(t.parameters).required == Some(r@.map_values(|x: String| x@)),
        None => schema_of(t.parameters).required is None,
    }
}

/// The views of the tools `ts`.
pub open spec fn tool_views(ts: Seq<ToolInfo>) -> Seq<(Seq<char>, Seq<char>, JsonData)> {
    ts.map_values(|t: ToolInfo| t@)
}

/// Copies of the tools `ts`.
pub fn copy_tools(ts: &Vec<ToolInfo>) -> (res: Vec<ToolInfo>)
    ensures
        tool_views(res@) == tool_views(ts@),
{
    let mut out: Vec<ToolInfo> = Vec::new();
    let mut k: usize = 0;
    while k < ts.len()
        invariant
            k <= ts.len(),
            tool_views(out@) == tool_views(ts@.take(k as int)),
        decreases ts.len() - k,
    {
        let ghost before = out@;
        out.push(ts[k].copy());
        assert(tool_views(out@) =~= tool_views(before).push(ts@[k as int]@));
        assert(tool_views(ts@.take(k + 1)) =~= tool_views(ts@.take(k as int)).push(ts@[k as int]@));
        k += 1;
    }
    assert(ts@.take(k as int) =~= ts@);
    out
}

impl ToolInfo {
    /// A tool with the given name, description and argument schema.
    pub fn new(name: String, description: String, parameters: JsonValue) -> (res: Self)
        ensures
            res.name == name,
            res.description == description,
            res.parameters == parameters,
    {
        ToolInfo { name, description, parameters }
    }

    /// A copy of this tool.
    pub fn copy(&self) -> (res: Self)
        ensures
            res@ == self@,
    {
        ToolInfo {
            name: self.name.clone(),
            description: self.description.clone(),
            parameters: clone_json(&self.parameters),
        }
    }

    /// The tool as an OpenAI function definition: its name, its
    /// description, and the parameters its schema describes.
    pub fn openai_tool_definition(&self) -> (res: OpenAiFunction)
        ensures
            is_openai_function(res, *self),
    {
        OpenAiFunction {
            name: self.name.clone(),
            description: Some(self.description.clone()),
            parameters: function_parameters(&self.parameters),
        }
    }
}

} // verus!
