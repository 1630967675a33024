//! Messages as each provider takes and gives them: the Gemini, OpenAI and
//! Ollama shapes that conversations are converted to and from.
use vstd::prelude::*;

use crate::llm::conversation::Role;
use crate::llm::function::{FunctionCall, OpenAiCallFunction, ReceivedCall};
use crate::splitters::recursive_json_splitter::{JsonData, JsonValue};
use crate::url::opt_string_view;

verus! {

/// Who speaks in a Gemini conversation.
#[derive(Clone, Copy, Debug, PartialEq, Eq, Structural)]
pub enum GeminiRole {
    User,
    Model,
}

/// A part of a Gemini message.
#[derive(Debug)]
pub enum GeminiPart {
    /// Text, and whether it is a thought.
    Text { text: String, thought: Option<bool> },
    /// Data sent inline: its MIME type and its Base64 text.
    InlineData { mime_type: String, data: String },
    /// A call of a function that the model asks for.
    FunctionCall { call: FunctionCall },
    /// What a function returned.
    FunctionResponse { name: String, response: Option<JsonValue> },
    /// A part of another kind, which conversations do not read.
    Other,
}

/// What a Gemini part holds, as values.
pub enum PartView {
    Text(Seq<char>, Option<bool>),
    InlineData(Seq<char>, Seq<char>),
    FunctionCall(Seq<char>, JsonData),
    FunctionResponse(Seq<char>, Option<JsonData>),
    Other,
}

/// The value of an optional JSON value.
pub open spec fn opt_json(o: Option<JsonValue>) -> Option<JsonData> {
    match o {
        Some(v) => Some(v@),
        None => None,
    }
}

impl View for GeminiPart {
    type V = PartView;

    open spec fn view(&self) -> PartView {
        match *self {
            GeminiPart::Text { text, thought } => PartView::Text(text@, thought),
            GeminiPart::InlineData { mime_type, data } => PartView::InlineData(mime_type@, data@),
            GeminiPart::FunctionCall { call } => PartView::FunctionCall(call.name@, call.arguments@),
            GeminiPart::FunctionResponse { name, response } => PartView::FunctionResponse(
                name@,
                opt_json(response),
            ),
            GeminiPart::Other => PartView::Other,
        }
    }
}

/// The views of the parts `ps`.
pub open spec fn part_views(ps: Seq<GeminiPart>) -> Seq<PartView> {
    ps.map_values(|p: GeminiPart| p@)
}

/// A Gemini message: who speaks, and its parts.
#[derive(Debug)]
pub struct GeminiMessage {
    pub role: GeminiRole,
    pub parts: Vec<GeminiPart>,
}

/// Why Gemini finished a candidate.
#[derive(Clone, Copy, Debug, PartialEq, Eq, Structural)]
pub enum GeminiFinishReason {
    FinishReasonUnspecified,
    Stop,
    MaxTokens,
    Safety,
    Recitation,
    Language,
    Other,
    Blocklist,
    ProhibitedContent,
    Spii,
    MalformedFunctionCall,
    ImageSafety,
    UnexpectedToolCall,
    TooManyToolCalls,
}

/// A candidate answer of Gemini: its parts, where it has any, and why it
/// finished.
#[derive(Debug)]
pub struct GeminiCandidate {
    pub parts: Option<Vec<GeminiPart>>,
    pub finish_reason: Option<GeminiFinishReason>,
}

/// A Gemini answer: the model version, the candidates, and the whole
/// answer as `{:?}` prints it.
#[derive(Debug)]
pub struct GeminiResponse {
    pub model_version: Option<String>,
    pub candidates: Vec<GeminiCandidate>,
    pub printed: String,
}

/// The parts of a candidate: none where it has none.
pub open spec fn candidate_parts(c: GeminiCandidate) -> Seq<GeminiPart> {
    match c.parts {
        Some(ps) => ps@,
        None => Seq::empty(),
    }
}

/// The thought texts among the parts `ps`: text parts marked as thoughts.
pub open spec fn part_thoughts(ps: Seq<GeminiPart>) -> Seq<Seq<char>>
    decreases ps.len(),
{
    if ps.len() == 0 {
        Seq::empty()
    } else {
        part_thoughts(ps.drop_last()) + match ps.last() {
            GeminiPart::Text { text, thought: Some(true) } => seq![text@],
            _ => Seq::empty(),
        }
    }
}

/// The thought summaries of a Gemini answer, as
/// `gemini_rust::GenerationResponse::thoughts` collects them: the thought
/// texts of every candidate, in order.
pub open spec fn response_thoughts(cs: Seq<GeminiCandidate>) -> Seq<Seq<char>>
    decreases cs.len(),
{
    if cs.len() == 0 {
        Seq::empty()
    } else {
        response_thoughts(cs.drop_last()) + part_thoughts(candidate_parts(cs.last()))
    }
}

/// Who speaks in an OpenAI conversation.
#[derive(Clone, Copy, Debug, PartialEq, Eq, Structural)]
pub enum OpenAiRole {
    User,
    System,
    Assistant,
    Function,
    Tool,
}

/// A tool call in an OpenAI message: its identifier, its kind and the
/// function it calls.
#[derive(Debug)]
pub struct OpenAiToolCall {
    pub id: String,
    pub kind: String,
    pub function: OpenAiCallFunction,
}

/// A message sent to OpenAI: who speaks, its text, its name, the tool calls
/// it makes, and the call that it answers.
#[derive(Debug)]
pub struct OpenAiMessage {
    pub role: OpenAiRole,
    pub content: String,
    pub name: Option<String>,
    pub tool_calls: Option<Vec<OpenAiToolCall>>,
    pub tool_call_id: Option<String>,
}

/// Why OpenAI finished a choice.
#[derive(Clone, Copy, Debug, PartialEq, Eq, Structural)]
pub enum OpenAiFinishReason {
    Stop,
    Length,
    ContentFilter,
    ToolCalls,
    Null,
}

/// A message that OpenAI answers with: who speaks, its text, its
/// reasoning, its name, and the tool calls it makes.
#[derive(Debug)]
pub struct OpenAiReply {
    pub role: OpenAiRole,
    pub content: Option<String>,
    pub reasoning_content: Option<String>,
    pub name: Option<String>,
    pub tool_calls: Option<Vec<ReceivedCall>>,
}

/// A choice of an OpenAI answer: the message and why it finished.
#[derive(Debug)]
pub struct OpenAiChoice {
    pub message: OpenAiReply,
    pub finish_reason: Option<OpenAiFinishReason>,
}

/// A piece of a streamed OpenAI answer.
#[derive(Debug)]
pub enum OpenAiStreamChunk {
    Content(String),
    ToolCall(Vec<ReceivedCall>),
    Done,
}

/// An image in an OpenAI message: its URL, where it has one, and a
/// caption.
#[derive(Debug)]
pub struct OpenAiImageUrl {
    pub image_url: Option<String>,
    pub text: Option<String>,
}

/// A message sent to or received from Ollama: who speaks, its text, the
/// tool calls it makes, its Base64 images, and the model's thinking.
#[derive(Debug)]
pub struct OllamaMessage {
    pub role: Role,
    pub content: String,
    pub tool_calls: Vec<FunctionCall>,
    pub images: Option<Vec<String>>,
    pub thinking: Option<String>,
}

/// An Ollama answer: the model that gave it, and its message.
#[derive(Debug)]
pub struct OllamaResponse {
    pub model: String,
    pub message: OllamaMessage,
}

/// The views of the calls `cs`.
pub open spec fn call_views(cs: Seq<FunctionCall>) -> Seq<(Seq<char>, JsonData)> {
    cs.map_values(|c: FunctionCall| c@)
}

/// The optional text `o`, empty where there is none.
pub open spec fn text_or_empty(o: Option<String>) -> Seq<char> {
    match o {
        Some(t) => t@,
        None => Seq::empty(),
    }
}

/// The texts of `o`, where there are any.
pub open spec fn opt_texts(o: Option<Vec<String>>) -> Option<Seq<Seq<char>>> {
    match o {
        Some(v) => Some(v@.map_values(|s: String| s@)),
        None => None,
    }
}

/// Whether two optional texts say the same.
pub open spec fn same_text(a: Option<String>, b: Option<String>) -> bool {
    opt_string_view(a) == opt_string_view(b)
}

} // verus!
