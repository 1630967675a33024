//! Models, their generation settings, and the requests that a conversation
//! makes of each provider.
//!
//! The sampling temperature and top-p of a generation are floating-point
//! settings; the caller sends them along with the requests made here.
use vstd::prelude::*;

use crate::error::Error;
use crate::llm::conversation::Inference;
use crate::llm::conversions::{gemini_form, ollama_form, openai_form, copy_text};
use crate::llm::definitions::{openai_reasoning, LLMProvider, Reasoning, ThinkingMode};
use crate::llm::function::{copy_tools, is_openai_function, tool_views, OpenAiFunction, ToolInfo};
use crate::llm::messages::{GeminiMessage, OllamaMessage, OpenAiChoice, OpenAiMessage, OpenAiRole};
use crate::splitters::recursive_json_splitter::{clone_json, JsonData, JsonValue};
use crate::text::{chars_are, chars_eq, chars_of};
use crate::url::{opt_string_view, parse_url, url_parse};

verus! {

/// How a model may call tools: not at all (`Disabled`, named `none`), as
/// it chooses, by calling some tool, or by calling one given tool.
#[derive(Debug)]
pub enum ToolCallingMode {
    Disabled,
    Auto,
    Any,
    Forced(ToolInfo),
}

/// The name of a tool calling mode: `none`, `auto`, `any`, or the name of
/// the forced tool.
pub open spec fn calling_mode_name(m: ToolCallingMode) -> Seq<char> {
    match m {
        ToolCallingMode::Disabled => "none"@,
        ToolCallingMode::Auto => "auto"@,
        ToolCallingMode::Any => "any"@,
        ToolCallingMode::Forced(t) => t.name@,
    }
}

/// The two modes are the same: the same kind, and the same tool where one
/// is forced.
pub open spec fn same_mode(a: ToolCallingMode, b: ToolCallingMode) -> bool {
    match (a, b) {
        (ToolCallingMode::Disabled, ToolCallingMode::Disabled) => true,
        (ToolCallingMode::Auto, ToolCallingMode::Auto) => true,
        (ToolCallingMode::Any, ToolCallingMode::Any) => true,
        (ToolCallingMode::Forced(t), ToolCallingMode::Forced(u)) => t@ == u@,
        _ => false,
    }
}

/// How Gemini may call functions.
#[derive(Clone, Copy, Debug, PartialEq, Eq, Structural)]
pub enum GeminiCallingMode {
    Disabled,
    Auto,
}

/// Which tool OpenAI may choose.
#[derive(Debug)]
pub enum OpenAiToolChoice {
    Disabled,
    Auto,
    Required,
    ToolChoice(OpenAiFunction),
}

impl ToolCallingMode {
    /// The mode's name: `none`, `auto`, `any`, or the forced tool's name.
    pub fn name(&self) -> (res: String)
        ensures
            res@ == calling_mode_name(*self),
    {
        match self {
            ToolCallingMode::Disabled => String::from_str("none"),
            ToolCallingMode::Auto => String::from_str("auto"),
            ToolCallingMode::Any => String::from_str("any"),
            ToolCallingMode::Forced(t) => t.name.clone(),
        }
    }

    /// The mode named `s`: `none`, `auto` or `any`; no other name is
    /// known.
    pub fn from_name(s: &str) -> (res: Result<Self, Error>)
        ensures
            s@ == "none"@ ==> res matches Ok(ToolCallingMode::Disabled),
            s@ == "auto"@ ==> res matches Ok(ToolCallingMode::Auto),
            s@ == "any"@ ==> res matches Ok(ToolCallingMode::Any),
            s@ != "none"@ && s@ != "auto"@ && s@ != "any"@ ==> (res matches Err(Error::Input(m)) && m@
                == "Unknown tool calling mode: "@ + s@),
    {
        let cs = chars_of(s);
        proof {
            reveal_strlit("none");
            reveal_strlit("auto");
            reveal_strlit("any");
            assert("auto"@[0] != "none"@[0]);
            assert("any"@.len() != "none"@.len());
            assert("any"@.len() != "auto"@.len());
        }
        if chars_are(cs.as_slice(), "none") {
            Ok(ToolCallingMode::Disabled)
        } else if chars_are(cs.as_slice(), "auto") {
            Ok(ToolCallingMode::Auto)
        } else if chars_are(cs.as_slice(), "any") {
            Ok(ToolCallingMode::Any)
        } else {
            let mut m = String::from_str("Unknown tool calling mode: ");
            m.append(s);
            Err(Error::Input(m))
        }
    }

    /// Whether the mode's name is `other`.
    pub fn is_named(&self, other: &str) -> (r: bool)
        ensures
            r == (calling_mode_name(*self) == other@),
    {
        let n = self.name();
        let a = chars_of(n.as_str());
        let b = chars_of(other);
        chars_eq(a.as_slice(), b.as_slice())
    }

    /// A copy of the mode.
    pub fn copy(&self) -> (res: Self)
        ensures
            same_mode(res, *self),
    {
        match self {
            ToolCallingMode::Disabled => ToolCallingMode::Disabled,
            ToolCallingMode::Auto => ToolCallingMode::Auto,
            ToolCallingMode::Any => ToolCallingMode::Any,
            ToolCallingMode::Forced(t) => ToolCallingMode::Forced(t.copy()),
        }
    }
}

/// The settings of a generation: how many tokens to sample from and to
/// write, how to think, how many candidates, where to stop, the schema and
/// MIME type of the answer, how to call tools, and whether to include
/// thoughts.
#[derive(Debug)]
pub struct GenerationConfig {
    pub top_k: i32,
    pub max_output_tokens: i32,
    pub thinking: ThinkingMode,
    pub candidate_count: i32,
    pub stop_sequences: Option<Vec<String>>,
    pub output_schema: Option<JsonValue>,
    pub response_mime_type: Option<String>,
    pub tool_calling_mode: ToolCallingMode,
    pub include_thoughts: bool,
}

/// The optional JSON value `o`, as a value.
pub open spec fn opt_data(o: Option<JsonValue>) -> Option<JsonData> {
    match o {
        Some(v) => Some(v@),
        None => None,
    }
}

/// The texts of the optional list `o`.
pub open spec fn opt_list(o: Option<Vec<String>>) -> Option<Seq<Seq<char>>> {
    match o {
        Some(v) => Some(v@.map_values(|s: String| s@)),
        None => None,
    }
}

/// The two configurations say the same.
pub open spec fn same_config(a: GenerationConfig, b: GenerationConfig) -> bool {
    &&& a.top_k == b.top_k
    &&& a.max_output_tokens == b.max_output_tokens
    &&& a.thinking == b.thinking
    &&& a.candidate_count == b.candidate_count
    &&& opt_list(a.stop_sequences) == opt_list(b.stop_sequences)
    &&& opt_data(a.output_schema) == opt_data(b.output_schema)
    &&& opt_string_view(a.response_mime_type) == opt_string_view(b.response_mime_type)
    &&& same_mode(a.tool_calling_mode, b.tool_calling_mode)
    &&& a.include_thoughts == b.include_thoughts
}

/// A copy of a list of texts.
pub(crate) fn copy_strings(v: &Vec<String>) -> (res: Vec<String>)
    ensures
        res@ == v@,
{
    let mut out: Vec<String> = Vec::new();
    let mut k: usize = 0;
    while k < v.len()
        invariant
            k <= v.len(),
            out@ == v@.take(k as int),
        decreases v.len() - k,
    {
        out.push(v[k].clone());
        assert(out@ =~= v@.take(k + 1));
        k += 1;
    }
    assert(v@.take(k as int) =~= v@);
    out
}

impl Default for GenerationConfig {
    /// Sampling from the top 40 tokens, at most 2048 tokens written,
    /// dynamic thinking, one candidate, tools called as the model chooses,
    /// and nothing else set.
    fn default() -> (res: Self)
        ensures
            res.top_k == 40,
            res.max_output_tokens == 2048,
            res.thinking == ThinkingMode::Dynamic,
            res.candidate_count == 1,
            res.stop_sequences is None,
            res.output_schema is None,
            res.response_mime_type is None,
            res.tool_calling_mode is Auto,
            !res.include_thoughts,
    {
        GenerationConfig {
            top_k: 40,
            max_output_tokens: 2048,
            thinking: ThinkingMode::Dynamic,
            candidate_count: 1,
            stop_sequences: None,
            output_schema: None,
            response_mime_type: None,
            tool_calling_mode: ToolCallingMode::Auto,
            include_thoughts: false,
        }
    }
}

impl GenerationConfig {
    /// The default settings.
    pub fn new() -> (res: Self)
        ensures
            res.top_k == 40,
            res.max_output_tokens == 2048,
            res.thinking == ThinkingMode::Dynamic,
            res.candidate_count == 1,
            res.stop_sequences is None,
            res.output_schema is None,
            res.response_mime_type is None,
            res.tool_calling_mode is Auto,
            !res.include_thoughts,
    {
        Self::default()
    }

    /// The settings sampling from the top `top_k` tokens.
    pub fn with_top_k(self, top_k: i32) -> (res: Self)
        ensures
            res == (GenerationConfig { top_k, ..self }),
    {
        GenerationConfig { top_k, ..self }
    }

    /// The settings writing at most `max_output_tokens` tokens.
    pub fn with_max_output_tokens(self, max_output_tokens: i32) -> (res: Self)
        ensures
            res == (GenerationConfig { max_output_tokens, ..self }),
    {
        GenerationConfig { max_output_tokens, ..self }
    }

    /// The settings thinking as `thinking` says.
    pub fn with_thinking(self, thinking: ThinkingMode) -> (res: Self)
        ensures
            res == (GenerationConfig { thinking, ..self }),
    {
        GenerationConfig { thinking, ..self }
    }

    /// The settings asking for `candidate_count` candidates.
    pub fn with_candidate_count(self, candidate_count: i32) -> (res: Self)
        ensures
            res == (GenerationConfig { candidate_count, ..self }),
    {
        GenerationConfig { candidate_count, ..self }
    }

    /// The settings stopping at `stop_sequences`.
    pub fn with_stop_sequences(self, stop_sequences: Vec<String>) -> (res: Self)
        ensures
            res == (GenerationConfig { stop_sequences: Some(stop_sequences), ..self }),
    {
        GenerationConfig { stop_sequences: Some(stop_sequences), ..self }
    }

    /// The settings asking for an answer of the JSON Schema `output_schema`.
    pub fn with_output_schema(self, output_schema: JsonValue) -> (res: Self)
        ensures
            res == (GenerationConfig { output_schema: Some(output_schema), ..self }),
    {
        GenerationConfig { output_schema: Some(output_schema), ..self }
    }

    /// The settings asking for an answer of the MIME type `mime_type`.
    pub fn with_response_mime_type(self, mime_type: String) -> (res: Self)
        ensures
            res == (GenerationConfig { response_mime_type: Some(mime_type), ..self }),
    {
        GenerationConfig { response_mime_type: Some(mime_type), ..self }
    }

    /// The settings calling tools as `mode` says.
    pub fn with_tool_calling_mode(self, mode: ToolCallingMode) -> (res: Self)
        ensures
            res == (GenerationConfig { tool_calling_mode: mode, ..self }),
    {
        GenerationConfig { tool_calling_mode: mode, ..self }
    }

    /// Gemini's calling mode: disabled for `Disabled`, automatic otherwise.
    pub fn to_google_tool_calling_mode(&self) -> (res: GeminiCallingMode)
        ensures
            res == if self.tool_calling_mode is Disabled {
                GeminiCallingMode::Disabled
            } else {
                GeminiCallingMode::Auto
            },
    {
        match self.tool_calling_mode {
            ToolCallingMode::Disabled => GeminiCallingMode::Disabled,
            _ => GeminiCallingMode::Auto,
        }
    }

    /// OpenAI's tool choice: none, automatic, required for any tool, or
    /// the definition of the forced tool.
    pub fn to_openai_tool_calling_mode(&self) -> (res: OpenAiToolChoice)
        ensures
            openai_choice_of(res, self.tool_calling_mode),
    {
        match &self.tool_calling_mode {
            ToolCallingMode::Disabled => OpenAiToolChoice::Disabled,
            ToolCallingMode::Auto => OpenAiToolChoice::Auto,
            ToolCallingMode::Any => OpenAiToolChoice::Required,
            ToolCallingMode::Forced(tool) => OpenAiToolChoice::ToolChoice(tool.openai_tool_definition()),
        }
    }

    /// A copy of the settings.
    pub fn copy(&self) -> (res: Self)
        ensures
            same_config(res, *self),
    {
        let stop_sequences = match &self.stop_sequences {
            Some(v) => Some(copy_strings(v)),
            None => None,
        };
        let output_schema = match &self.output_schema {
            Some(v) => Some(clone_json(v)),
            None => None,
        };
        GenerationConfig {
            top_k: self.top_k,
            max_output_tokens: self.max_output_tokens,
            thinking: self.thinking,
            candidate_count: self.candidate_count,
            stop_sequences,
            output_schema,
            response_mime_type: copy_text(&self.response_mime_type),
            tool_calling_mode: self.tool_calling_mode.copy(),
            include_thoughts: self.include_thoughts,
        }
    }
}

/// `c` is OpenAI's tool choice for the mode `m`.
pub open spec fn openai_choice_of(c: OpenAiToolChoice, m: ToolCallingMode) -> bool {
    match m {
        ToolCallingMode::Disabled => c is Disabled,
        ToolCallingMode::Auto => c is Auto,
        ToolCallingMode::Any => c is Required,
        ToolCallingMode::Forced(t) => c matches OpenAiToolChoice::ToolChoice(f) && is_openai_function(f, t),
    }
}

/// A language model: its name, its system prompt, its provider, the
/// credentials and endpoint to reach it, and the tools it may call.
#[derive(Debug)]
pub struct LLM {
    pub model: String,
    pub system_prompt: String,
    pub provider: LLMProvider,
    pub authorization: Option<String>,
    pub endpoint: Option<String>,
    pub tools: Vec<ToolInfo>,
}

/// What a provider's client is made from: the API key, the model, and the
/// endpoint to use in place of the provider's own.
#[derive(Debug)]
pub struct ClientSettings {
    pub api_key: String,
    pub model: String,
    pub endpoint: Option<String>,
}

/// The position of the first tool of `ts` named `name`.
pub open spec fn tool_position(ts: Seq<ToolInfo>, name: Seq<char>) -> Option<int>
    decreases ts.len(),
{
    if ts.len() == 0 {
        None
    } else {
        match tool_position(ts.drop_last(), name) {
            Some(k) => Some(k),
            None => if ts.last().name@ == name {
                Some(ts.len() - 1)
            } else {
                None
            },
        }
    }
}

/// The message that puts the system prompt `prompt` first.
pub open spec fn is_system_message(m: OpenAiMessage, prompt: Seq<char>) -> bool {
    &&& m.role == OpenAiRole::System
    &&& m.content@ == prompt
    &&& m.name is None
    &&& m.tool_calls is None
    &&& m.tool_call_id is None
}

/// `ms` are the OpenAI messages of a conversation: the system prompt
/// first where there is one, then the history, then the new message.
pub open spec fn openai_messages(
    ms: Seq<OpenAiMessage>,
    prompt: Seq<char>,
    history: Seq<Inference>,
    inference: Inference,
) -> bool {
    let off: int = if prompt.len() > 0 {
        1
    } else {
        0
    };
    &&& ms.len() == off + history.len() + 1
    &&& prompt.len() > 0 ==> is_system_message(ms[0], prompt)
    &&& forall|k: int| 0 <= k < history.len() ==> openai_form(#[trigger] ms[off + k], history[k])
    &&& openai_form(ms[off + history.len()], inference)
}

/// `ms` are the Gemini messages of a conversation: the history, then the
/// new message.
pub open spec fn gemini_messages(ms: Seq<GeminiMessage>, history: Seq<Inference>, inference: Inference) -> bool {
    &&& ms.len() == history.len() + 1
    &&& forall|k: int| 0 <= k < history.len() ==> gemini_form(#[trigger] ms[k], history[k])
    &&& gemini_form(ms[history.len() as int], inference)
}

/// `ms` are the Ollama messages of a conversation: the history, then the
/// new message.
pub open spec fn ollama_messages(ms: Seq<OllamaMessage>, history: Seq<Inference>, inference: Inference) -> bool {
    &&& ms.len() == history.len() + 1
    &&& forall|k: int| 0 <= k < history.len() ==> ollama_form(#[trigger] ms[k], history[k])
    &&& ollama_form(ms[history.len() as int], inference)
}

/// An OpenAI chat request: the model, the messages, the token limit, the
/// number of choices, the tools, the tool choice, the reasoning settings,
/// the stop sequences and the schema of the answer.
#[derive(Debug)]
pub struct OpenAiRequest {
    pub model: String,
    pub messages: Vec<OpenAiMessage>,
    pub max_tokens: i64,
    pub n: i64,
    pub tools: Vec<OpenAiFunction>,
    pub tool_choice: OpenAiToolChoice,
    pub reasoning: Option<Reasoning>,
    pub stop: Option<Vec<String>>,
    pub response_format: Option<JsonValue>,
}

/// A Gemini request: the client, the system instruction, the messages, the
/// thinking budget, the sampling and length settings, the calling mode,
/// the type and schema of the answer, the stop sequences and the tools.
#[derive(Debug)]
pub struct GoogleRequest {
    pub client: ClientSettings,
    pub system_instruction: String,
    pub messages: Vec<GeminiMessage>,
    pub thinking_budget: i32,
    pub top_k: i32,
    pub max_output_tokens: i32,
    pub include_thoughts: bool,
    pub candidate_count: i32,
    pub calling_mode: GeminiCallingMode,
    pub response_mime_type: Option<String>,
    pub response_schema: Option<JsonValue>,
    pub stop_sequences: Option<Vec<String>>,
    pub tools: Vec<ToolInfo>,
}

/// An Ollama chat request: the model, the messages, whether to think, the
/// tools, the sampling setting, the stop sequences and the schema of the
/// answer.
#[derive(Debug)]
pub struct OllamaRequest {
    pub model: String,
    pub messages: Vec<OllamaMessage>,
    pub think: bool,
    pub tools: Vec<ToolInfo>,
    pub top_k: u32,
    pub stop: Vec<String>,
    pub format: Option<JsonValue>,
}

/// The request that a generation makes of its provider.
#[derive(Debug)]
pub enum ProviderRequest {
    Google(GoogleRequest),
    OpenAi(ClientSettings, OpenAiRequest),
    Ollama(OllamaRequest),
}

/// What an embedding asks of its provider.
#[derive(Debug)]
pub enum EmbeddingRequest {
    /// Gemini embeds the text with the given number of dimensions.
    Google { client: ClientSettings, text: String, dimensions: i32 },
    /// OpenAI embeds the input texts with the model and dimensions.
    OpenAi { client: ClientSettings, model: String, input: Vec<String>, dimensions: Option<i32> },
}

/// The client settings of `m` for Gemini: the model path is `models/`
/// followed by the model's name.
pub open spec fn gemini_client_of(c: ClientSettings, m: LLM) -> bool {
    &&& m.authorization matches Some(k) && c.api_key@ == k@
    &&& c.model@ == "models/"@ + m.model@
    &&& c.endpoint == m.endpoint
}

/// The client settings of `m` for OpenAI.
pub open spec fn openai_client_of(c: ClientSettings, m: LLM) -> bool {
    &&& m.authorization matches Some(k) && c.api_key@ == k@
    &&& c.model@ == m.model@
    &&& c.endpoint == m.endpoint
}

/// The endpoint of `m` is one that `url::Url::parse` rejects.
pub open spec fn bad_endpoint(m: LLM) -> bool {
    m.endpoint matches Some(e) && url_parse(e@) is None
}

/// The error of a request made without credentials.
pub open spec fn unauthorized(r: Error) -> bool {
    r matches Error::Unauthorized(s) && s@ == "Not auth"@
}

impl LLM {
    /// Adds `tool` after the model's tools.
    pub fn add_tool(&mut self, tool: ToolInfo)
        ensures
            final(self).tools@ == old(self).tools@.push(tool),
            final(self).model == old(self).model,
            final(self).system_prompt == old(self).system_prompt,
            final(self).provider == old(self).provider,
            final(self).authorization == old(self).authorization,
            final(self).endpoint == old(self).endpoint,
    {
        self.tools.push(tool);
    }

    /// Adds `tools`, in order, after the model's tools.
    pub fn add_tools(&mut self, tools: Vec<ToolInfo>)
        ensures
            final(self).tools@ == old(self).tools@ + tools@,
            final(self).model == old(self).model,
            final(self).system_prompt == old(self).system_prompt,
            final(self).provider == old(self).provider,
            final(self).authorization == old(self).authorization,
            final(self).endpoint == old(self).endpoint,
    {
        let mut tools = tools;
        self.tools.append(&mut tools);
    }

    /// Whether the model has a tool named `tool_name`.
    pub fn exists_tool(&self, tool_name: &str) -> (r: bool)
        ensures
            r == (tool_position(self.tools@, tool_name@) is Some),
    {
        self.find_tool(tool_name).is_some()
    }

    /// The first of the model's tools named `tool_name`, if any.
    pub fn get_tool(&self, tool_name: &str) -> (res: Option<&ToolInfo>)
        ensures
            match tool_position(self.tools@, tool_name@) {
                Some(k) => 0 <= k < self.tools@.len() && res == Some(&self.tools@[k]),
                None => res is None,
            },
    {
        match self.find_tool(tool_name) {
            Some(k) => Some(&self.tools[k]),
            None => None,
        }
    }

    /// The position of the first tool named `tool_name`.
    fn find_tool(&self, tool_name: &str) -> (res: Option<usize>)
        ensures
            match res {
                Some(k) => k < self.tools@.len() && tool_position(self.tools@, tool_name@) == Some(k as int),
                None => tool_position(self.tools@, tool_name@) is None,
            },
    {
        let name = chars_of(tool_name);
        let mut k: usize = 0;
        while k < self.tools.len()
            invariant
                k <= self.tools.len(),
                name@ == tool_name@,
                tool_position(self.tools@.take(k as int), tool_name@) is None,
            decreases self.tools.len() - k,
        {
            let cs = chars_of(self.tools[k].name.as_str());
            assert(self.tools@.take(k + 1).drop_last() =~= self.tools@.take(k as int));
            if chars_eq(cs.as_slice(), name.as_slice()) {
                proof {
                    lemma_position_prefix(self.tools@, tool_name@, k as int);
                }
                return Some(k);
            }
            k += 1;
        }
        assert(self.tools@.take(k as int) =~= self.tools@);
        None
    }

    /// A copy of the model.
    pub fn copy(&self) -> (res: Self)
        ensures
            res.model == self.model,
            res.system_prompt == self.system_prompt,
            res.provider == self.provider,
            res.authorization == self.authorization,
            res.endpoint == self.endpoint,
            tool_views(res.tools@) == tool_views(self.tools@),
    {
        LLM {
            model: self.model.clone(),
            system_prompt: self.system_prompt.clone(),
            provider: self.provider,
            authorization: copy_text(&self.authorization),
            endpoint: copy_text(&self.endpoint),
            tools: copy_tools(&self.tools),
        }
    }

    /// The settings of a Gemini client: credentials are needed, and an
    /// endpoint must be a URL that `url::Url::parse` accepts.
    pub fn get_gemini_client(&self) -> (res: Result<ClientSettings, Error>)
        ensures
            self.authorization is None ==> (res matches Err(e) && unauthorized(e)),
            self.authorization is Some && bad_endpoint(*self) ==> (res matches Err(Error::Url(u))
                && self.endpoint matches Some(e) && u@ == e@),
            self.authorization is Some && !bad_endpoint(*self) ==> (res matches Ok(c)
                && gemini_client_of(c, *self)),
    {
        let key = match &self.authorization {
            Some(a) => a.clone(),
            None => return Err(Error::Unauthorized(String::from_str("Not auth"))),
        };
        if let Some(e) = &self.endpoint {
            if parse_url(e.as_str()).is_none() {
                return Err(Error::Url(e.clone()));
            }
        }
        let mut model = String::from_str("models/");
        model.append(self.model.as_str());
        Ok(ClientSettings { api_key: key, model, endpoint: copy_text(&self.endpoint) })
    }

    /// The settings of an OpenAI client: credentials are needed.
    pub fn get_openai_client(&self) -> (res: Result<ClientSettings, Error>)
        ensures
            self.authorization is None ==> (res matches Err(e) && unauthorized(e)),
            self.authorization is Some ==> (res matches Ok(c) && openai_client_of(c, *self)),
    {
        let key = match &self.authorization {
            Some(a) => a.clone(),
            None => return Err(Error::Unauthorized(String::from_str("Not auth"))),
        };
        Ok(ClientSettings { api_key: key, model: self.model.clone(), endpoint: copy_text(&self.endpoint) })
    }

    /// The OpenAI messages of a conversation.
    fn openai_messages_of(&self, history: &[Inference], inference: &Inference) -> (res: Vec<OpenAiMessage>)
        ensures
            openai_messages(res@, self.system_prompt@, history@, *inference),
    {
        let mut messages: Vec<OpenAiMessage> = Vec::new();
        if chars_of(self.system_prompt.as_str()).len() > 0 {
            messages.push(
                OpenAiMessage {
                    role: OpenAiRole::System,
                    content: self.system_prompt.clone(),
                    name: None,
                    tool_calls: None,
                    tool_call_id: None,
                },
            );
        }
        let ghost off: int = if self.system_prompt@.len() > 0 {
            1
        } else {
            0
        };
        let mut k: usize = 0;
        while k < history.len()
            invariant
                k <= history.len(),
                off == (if self.system_prompt@.len() > 0 {
                    1int
                } else {
                    0int
                }),
                messages@.len() == off + k,
                self.system_prompt@.len() > 0 ==> is_system_message(messages@[0], self.system_prompt@),
                forall|j: int| 0 <= j < k ==> openai_form(#[trigger] messages@[off + j], history@[j]),
            decreases history.len() - k,
        {
            messages.push(history[k].to_openai_message());
            k += 1;
        }
        messages.push(inference.to_openai_message());
        messages
    }

    /// The OpenAI definitions of the model's tools.
    fn openai_tools(&self) -> (res: Vec<OpenAiFunction>)
        ensures
            res@.len() == self.tools@.len(),
            forall|k: int| 0 <= k < res@.len() ==> is_openai_function(#[trigger] res@[k], self.tools@[k]),
    {
        let mut out: Vec<OpenAiFunction> = Vec::new();
        let mut k: usize = 0;
        while k < self.tools.len()
            invariant
                k <= self.tools.len(),
                out@.len() == k,
                forall|j: int| 0 <= j < k ==> is_openai_function(#[trigger] out@[j], self.tools@[j]),
            decreases self.tools.len() - k,
        {
            out.push(self.tools[k].openai_tool_definition());
            k += 1;
        }
        out
    }

    /// The OpenAI chat request for a conversation: the system prompt, the
    /// history and the new message; the token limit, the number of
    /// choices, the tools and the tool choice, the reasoning for the
    /// thinking mode, and the stop sequences and answer schema of `config`.
    pub fn new_openai_request(&self, history: &[Inference], inference: &Inference, config: GenerationConfig) -> (res:
        Result<OpenAiRequest, Error>)
        ensures
            res matches Ok(r) && is_openai_request(r, *self, history@, *inference, config),
    {
        let messages = self.openai_messages_of(history, inference);
        let tool_choice = config.to_openai_tool_calling_mode();
        Ok(
            OpenAiRequest {
                model: self.model.clone(),
                messages,
                max_tokens: config.max_output_tokens as i64,
                n: config.candidate_count as i64,
                tools: self.openai_tools(),
                tool_choice,
                reasoning: config.thinking.to_openai(),
                stop: config.stop_sequences,
                response_format: config.output_schema,
            },
        )
    }

    /// The OpenAI request for a streamed conversation; it holds what
    /// `new_openai_request` puts in a request.
    pub fn new_openai_stream_request(
        &self,
        history: &[Inference],
        inference: &Inference,
        config: GenerationConfig,
    ) -> (res: Result<OpenAiRequest, Error>)
        ensures
            res matches Ok(r) && is_openai_request(r, *self, history@, *inference, config),
    {
        self.new_openai_request(history, inference, config)
    }

    /// The Gemini request for a conversation: the client settings (see
    /// `get_gemini_client`, whose errors it returns), the system prompt as
    /// the instruction, the history and the new message, the thinking
    /// budget and settings of `config`, JSON as the answer's type where a
    /// schema is asked for, and the model's tools.
    pub fn new_google_request(&self, history: &[Inference], inference: &Inference, config: GenerationConfig) -> (res:
        Result<GoogleRequest, Error>)
        ensures
            self.authorization is None ==> (res matches Err(e) && unauthorized(e)),
            self.authorization is Some && bad_endpoint(*self) ==> (res matches Err(Error::Url(u))
                && self.endpoint matches Some(e) && u@ == e@),
            self.authorization is Some && !bad_endpoint(*self) ==> (res matches Ok(r)
                && is_google_request(r, *self, history@, *inference, config)),
    {
        let client = match self.get_gemini_client() {
            Ok(c) => c,
            Err(e) => return Err(e),
        };
        let mut messages: Vec<GeminiMessage> = Vec::new();
        let mut k: usize = 0;
        while k < history.len()
            invariant
                k <= history.len(),
                messages@.len() == k,
                forall|j: int| 0 <= j < k ==> gemini_form(#[trigger] messages@[j], history@[j]),
            decreases history.len() - k,
        {
            messages.push(history[k].to_gemini_message());
            k += 1;
        }
        messages.push(inference.to_gemini_message());
        let calling_mode = config.to_google_tool_calling_mode();
        let budget = config.thinking.to_google();
        let response_mime_type = if config.output_schema.is_some() {
            Some(String::from_str("application/json"))
        } else {
            None
        };
        Ok(
            GoogleRequest {
                client,
                system_instruction: self.system_prompt.clone(),
                messages,
                thinking_budget: budget,
                top_k: config.top_k,
                max_output_tokens: config.max_output_tokens,
                include_thoughts: config.include_thoughts,
                candidate_count: config.candidate_count,
                calling_mode,
                response_mime_type,
                response_schema: config.output_schema,
                stop_sequences: config.stop_sequences,
                tools: copy_tools(&self.tools),
            },
        )
    }

    /// The Ollama chat request for a conversation: the history and the new
    /// message, thinking unless it is disabled, the model's tools, the
    /// top-k setting (as an unsigned number), the stop sequences (none
    /// where there are none) and the answer schema.
    pub fn new_ollama_request(&self, history: &[Inference], inference: &Inference, config: GenerationConfig) -> (res:
        Result<OllamaRequest, Error>)
        ensures
            res matches Ok(r) && is_ollama_request(r, *self, history@, *inference, config),
    {
        let mut messages: Vec<OllamaMessage> = Vec::new();
        let mut k: usize = 0;
        while k < history.len()
            invariant
                k <= history.len(),
                messages@.len() == k,
                forall|j: int| 0 <= j < k ==> ollama_form(#[trigger] messages@[j], history@[j]),
            decreases history.len() - k,
        {
            messages.push(history[k].to_ollama_message());
            k += 1;
        }
        messages.push(inference.to_ollama_message());
        let think = config.thinking.to_ollama();
        let stop = match config.stop_sequences {
            Some(v) => v,
            None => Vec::new(),
        };
        Ok(
            OllamaRequest {
                model: self.model.clone(),
                messages,
                think,
                tools: copy_tools(&self.tools),
                top_k: config.top_k as u32,
                stop,
                format: config.output_schema,
            },
        )
    }

    /// The request that a generation makes: Gemini's, OpenAI's with the
    /// client settings (see `get_openai_client`, whose error it returns),
    /// or Ollama's; other providers are not supported.
    pub fn generation_request(&self, history: &[Inference], inference: &Inference, config: GenerationConfig) -> (res:
        Result<ProviderRequest, Error>)
        ensures
            provider_request(res, *self, history@, *inference, config, "Provider not supported for generation"@),
    {
        match self.provider {
            LLMProvider::Google => match self.new_google_request(history, inference, config) {
                Ok(r) => Ok(ProviderRequest::Google(r)),
                Err(e) => Err(e),
            },
            LLMProvider::OpenAI => {
                let client = match self.get_openai_client() {
                    Ok(c) => c,
                    Err(e) => return Err(e),
                };
                match self.new_openai_request(history, inference, config) {
                    Ok(r) => Ok(ProviderRequest::OpenAi(client, r)),
                    Err(e) => Err(e),
                }
            },
            LLMProvider::Ollama => match self.new_ollama_request(history, inference, config) {
                Ok(r) => Ok(ProviderRequest::Ollama(r)),
                Err(e) => Err(e),
            },
            _ => Err(Error::Unsupported(String::from_str("Provider not supported for generation"))),
        }
    }

    /// The request that a streamed generation makes; it is the request of
    /// `generation_request`, and other providers are not supported for
    /// streaming.
    pub fn stream_request(&self, history: &[Inference], inference: &Inference, config: GenerationConfig) -> (res:
        Result<ProviderRequest, Error>)
        ensures
            provider_request(res, *self, history@, *inference, config, "Provider not supported for streaming"@),
    {
        match self.provider {
            LLMProvider::Google => match self.new_google_request(history, inference, config) {
                Ok(r) => Ok(ProviderRequest::Google(r)),
                Err(e) => Err(e),
            },
            LLMProvider::OpenAI => {
                let client = match self.get_openai_client() {
                    Ok(c) => c,
                    Err(e) => return Err(e),
                };
                match self.new_openai_stream_request(history, inference, config) {
                    Ok(r) => Ok(ProviderRequest::OpenAi(client, r)),
                    Err(e) => Err(e),
                }
            },
            LLMProvider::Ollama => match self.new_ollama_request(history, inference, config) {
                Ok(r) => Ok(ProviderRequest::Ollama(r)),
                Err(e) => Err(e),
            },
            _ => Err(Error::Unsupported(String::from_str("Provider not supported for streaming"))),
        }
    }

    /// What an embedding of `text` with `dim` dimensions asks: Gemini and
    /// OpenAI need their client settings (and return their errors); other
    /// providers do not embed.
    pub fn embedding_request(&self, text: &str, dim: i32) -> (res: Result<EmbeddingRequest, Error>)
        ensures
            self.provider == LLMProvider::Google ==> {
                &&& self.authorization is None ==> (res matches Err(e) && unauthorized(e))
                &&& self.authorization is Some && bad_endpoint(*self) ==> (res matches Err(Error::Url(_)))
                &&& self.authorization is Some && !bad_endpoint(*self) ==> google_embedding(res, *self, text@, dim)
            },
            self.provider == LLMProvider::OpenAI ==> {
                &&& self.authorization is None ==> (res matches Err(e) && unauthorized(e))
                &&& self.authorization is Some ==> openai_embedding(res, *self, text@, dim)
            },
            self.provider != LLMProvider::Google && self.provider != LLMProvider::OpenAI ==> (res matches Err(
                Error::Unsupported(m),
            ) && m@ == "Embedding not supported for this provider"@),
    {
        match self.provider {
            LLMProvider::Google => {
                let client = match self.get_gemini_client() {
                    Ok(c) => c,
                    Err(e) => return Err(e),
                };
                Ok(EmbeddingRequest::Google { client, text: String::from_str(text), dimensions: dim })
            },
            LLMProvider::OpenAI => {
                let client = match self.get_openai_client() {
                    Ok(c) => c,
                    Err(e) => return Err(e),
                };
                let mut input: Vec<String> = Vec::new();
                input.push(String::from_str(text));
                Ok(EmbeddingRequest::OpenAi { client, model: self.model.clone(), input, dimensions: Some(dim) })
            },
            _ => Err(Error::Unsupported(String::from_str("Embedding not supported for this provider"))),
        }
    }
}

/// `res` is the Gemini embedding of `text` with `dim` dimensions for `m`.
pub open spec fn google_embedding(res: Result<EmbeddingRequest, Error>, m: LLM, text: Seq<char>, dim: i32) -> bool {
    &&& res matches Ok(EmbeddingRequest::Google { client, text: t, dimensions })
    &&& gemini_client_of(client, m)
    &&& t@ == text
    &&& dimensions == dim
}

/// `res` is the OpenAI embedding of `text` with `dim` dimensions for `m`.
pub open spec fn openai_embedding(res: Result<EmbeddingRequest, Error>, m: LLM, text: Seq<char>, dim: i32) -> bool {
    &&& res matches Ok(EmbeddingRequest::OpenAi { client, model, input, dimensions })
    &&& openai_client_of(client, m)
    &&& model@ == m.model@
    &&& input@.len() == 1
    &&& input@[0]@ == text
    &&& dimensions == Some(dim)
}

/// `r` is the OpenAI request of `m` for the conversation and settings.
pub open spec fn is_openai_request(
    r: OpenAiRequest,
    m: LLM,
    history: Seq<Inference>,
    inference: Inference,
    config: GenerationConfig,
) -> bool {
    &&& r.model@ == m.model@
    &&& openai_messages(r.messages@, m.system_prompt@, history, inference)
    &&& r.max_tokens == config.max_output_tokens as i64
    &&& r.n == config.candidate_count as i64
    &&& r.tools@.len() == m.tools@.len()
    &&& forall|k: int| 0 <= k < r.tools@.len() ==> is_openai_function(#[trigger] r.tools@[k], m.tools@[k])
    &&& openai_choice_of(r.tool_choice, config.tool_calling_mode)
    &&& r.reasoning == openai_reasoning(config.thinking)
    &&& r.stop == config.stop_sequences
    &&& r.response_format == config.output_schema
}

/// `r` is the Gemini request of `m` for the conversation and settings.
pub open spec fn is_google_request(
    r: GoogleRequest,
    m: LLM,
    history: Seq<Inference>,
    inference: Inference,
    config: GenerationConfig,
) -> bool {
    &&& gemini_client_of(r.client, m)
    &&& r.system_instruction@ == m.system_prompt@
    &&& gemini_messages(r.messages@, history, inference)
    &&& r.thinking_budget == match config.thinking {
        ThinkingMode::Disabled => 0i32,
        ThinkingMode::Sized(size) => size,
        _ => -1i32,
    }
    &&& r.top_k == config.top_k
    &&& r.max_output_tokens == config.max_output_tokens
    &&& r.include_thoughts == config.include_thoughts
    &&& r.candidate_count == config.candidate_count
    &&& r.calling_mode == if config.tool_calling_mode is Disabled {
        GeminiCallingMode::Disabled
    } else {
        GeminiCallingMode::Auto
    }
    &&& opt_string_view(r.response_mime_type) == if config.output_schema is Some {
        Some("application/json"@)
    } else {
        None
    }
    &&& r.response_schema == config.output_schema
    &&& r.stop_sequences == config.stop_sequences
    &&& tool_views(r.tools@) == tool_views(m.tools@)
}

/// `r` is the Ollama request of `m` for the conversation and settings.
pub open spec fn is_ollama_request(
    r: OllamaRequest,
    m: LLM,
    history: Seq<Inference>,
    inference: Inference,
    config: GenerationConfig,
) -> bool {
    &&& r.model@ == m.model@
    &&& ollama_messages(r.messages@, history, inference)
    &&& r.think == !(config.thinking is Disabled)
    &&& tool_views(r.tools@) == tool_views(m.tools@)
    &&& r.top_k == config.top_k as u32
    &&& r.stop@ == match config.stop_sequences {
        Some(v) => v@,
        None => Seq::empty(),
    }
    &&& r.format == config.output_schema
}

/// `res` is what a generation of `m` asks of its provider, with
/// `unsupported` as the message for providers that cannot do it.
pub open spec fn provider_request(
    res: Result<ProviderRequest, Error>,
    m: LLM,
    history: Seq<Inference>,
    inference: Inference,
    config: GenerationConfig,
    unsupported: Seq<char>,
) -> bool {
    match m.provider {
        LLMProvider::Google => {
            &&& m.authorization is None ==> (res matches Err(e) && unauthorized(e))
            &&& m.authorization is Some && bad_endpoint(m) ==> (res matches Err(Error::Url(u))
                && m.endpoint matches Some(e) && u@ == e@)
            &&& m.authorization is Some && !bad_endpoint(m) ==> (res matches Ok(
                ProviderRequest::Google(r),
            ) && is_google_request(r, m, history, inference, config))
        },
        LLMProvider::OpenAI => {
            &&& m.authorization is None ==> (res matches Err(e) && unauthorized(e))
            &&& m.authorization is Some ==> (res matches Ok(ProviderRequest::OpenAi(c, r))
                && openai_client_of(c, m) && is_openai_request(r, m, history, inference, config))
        },
        LLMProvider::Ollama => res matches Ok(ProviderRequest::Ollama(r)) && is_ollama_request(
            r,
            m,
            history,
            inference,
            config,
        ),
        _ => res matches Err(Error::Unsupported(s)) && s@ == unsupported,
    }
}

/// The message of an OpenAI answer: that of its first choice, or an error
/// where it has none.
pub fn openai_first_choice(choices: &Vec<OpenAiChoice>) -> (res: Result<Inference, Error>)
    ensures
        choices@.len() == 0 ==> (res matches Err(Error::Generic(m)) && m@ == "No choices returned from OpenAI"@),
        choices@.len() > 0 ==> (res matches Ok(i) && crate::llm::conversions::is_choice_message(i, choices@[0])),
{
    if choices.len() == 0 {
        return Err(Error::Generic(String::from_str("No choices returned from OpenAI")));
    }
    Ok(Inference::from_openai_choice(&choices[0]))
}

/// The tool of `ts` at `tool_position` is the first one named `name`.
proof fn lemma_position_prefix(ts: Seq<ToolInfo>, name: Seq<char>, k: int)
    requires
        0 <= k < ts.len(),
        tool_position(ts.take(k), name) is None,
        ts[k].name@ == name,
    ensures
        tool_position(ts, name) == Some(k),
    decreases ts.len(),
{
    if ts.len() == k + 1 {
        assert(ts.drop_last() =~= ts.take(k));
    } else {
        assert(ts.drop_last().take(k) =~= ts.take(k));
        lemma_position_prefix(ts.drop_last(), name, k);
    }
}

} // verus!
