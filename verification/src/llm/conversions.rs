//! How conversation messages become provider messages, and how provider
//! answers become conversation messages.
use vstd::prelude::*;

use crate::encoding::{base64_decode, base64_decoded, base64_encode, base64_encoded};
use crate::llm::conversation::{
    bare, empty_assistant_content, inline_payload, says, FinishReason, Image, Inference, InferenceContent,
    Role,
};
use crate::llm::function::{FunctionCall, FunctionResult, ReceivedCall, received_arguments, received_name};
use crate::llm::messages::{
    call_views, candidate_parts, opt_texts, part_thoughts, part_views, response_thoughts, same_text,
    text_or_empty, GeminiCandidate, GeminiFinishReason, GeminiMessage, GeminiPart, GeminiResponse,
    GeminiRole, OllamaMessage, OllamaResponse, OpenAiChoice, OpenAiFinishReason, OpenAiImageUrl,
    OpenAiMessage, OpenAiRole, OpenAiStreamChunk, OpenAiToolCall, PartView,
};
use crate::splitters::recursive_json_splitter::{
    clone_json, decimal_string, decimal_text, json_string, json_text, JsonData, JsonValue,
};
use crate::storage::joined;
use crate::crypto::opt_bytes;
use crate::text::{chars_of, starts_with, starts_with_chars};
use crate::url::opt_string_view;
use vstd::utf8::encode_utf8;

verus! {

/// The OpenAI role of `r`.
pub open spec fn openai_role(r: Role) -> OpenAiRole {
    match r {
        Role::User => OpenAiRole::User,
        Role::Assistant => OpenAiRole::Assistant,
        Role::System => OpenAiRole::System,
        Role::Tool => OpenAiRole::Tool,
    }
}

/// The role of an OpenAI role: a function speaks as the assistant.
pub open spec fn role_of_openai(r: OpenAiRole) -> Role {
    match r {
        OpenAiRole::User => Role::User,
        OpenAiRole::System => Role::System,
        OpenAiRole::Tool => Role::Tool,
        _ => Role::Assistant,
    }
}

/// Whether `i` is a tool message that carries results.
pub open spec fn answers_tool(i: Inference) -> bool {
    i.content.role == Role::Tool && i.function_results@.len() > 0
}

/// The identifier that the `k`-th tool call gets: `call_` and `k`.
pub open spec fn call_id(k: nat) -> Seq<char> {
    "call_"@ + decimal_text(k)
}

/// `t` is the OpenAI form of `c` as the `k`-th call of its message.
pub open spec fn is_openai_call(t: OpenAiToolCall, c: FunctionCall, k: nat) -> bool {
    &&& t.id@ == call_id(k)
    &&& t.kind@ == "function"@
    &&& opt_string_view(t.function.name) == Some(c.name@)
    &&& opt_string_view(t.function.arguments) == Some(json_text(c.arguments))
}

/// The Gemini role of `r`: the user, or the model for everyone else.
pub open spec fn gemini_role(r: Role) -> GeminiRole {
    if r == Role::User {
        GeminiRole::User
    } else {
        GeminiRole::Model
    }
}

/// The audio part of the Gemini form of `i`: its audio inline as MP3.
pub open spec fn audio_part(i: Inference) -> Seq<PartView> {
    match i.content.audio {
        Some(a) => seq![PartView::InlineData("audio/mp3"@, base64_encoded(a@))],
        None => Seq::empty(),
    }
}

/// The text part of the Gemini form of `i`, a thought when `i` holds
/// thinking.
pub open spec fn text_part(i: Inference) -> Seq<PartView> {
    match i.content.text {
        Some(t) => seq![PartView::Text(t@, Some(i.thinking is Some))],
        None => Seq::empty(),
    }
}

/// The parts of the Gemini form of `i`: its audio inline as MP3, its text
/// (marked as a thought when the message holds thinking), its calls, then
/// its results.
pub open spec fn gemini_parts(i: Inference) -> Seq<PartView> {
    audio_part(i) + text_part(i) + i.function_calls@.map_values(|c: FunctionCall| PartView::FunctionCall(c.name@, c.arguments@))
        + i.function_results@.map_values(
        |r: FunctionResult| PartView::FunctionResponse(r.name@, Some(r.results@)),
    )
}

/// `m` is the OpenAI form of `i`. A tool message that carries results
/// answers the call named after its first result, with that result's JSON
/// text as its content; otherwise the content is the text (empty where
/// there is none). The `k`-th tool call gets the identifier `call_k` and
/// its arguments as JSON text.
pub open spec fn openai_form(m: OpenAiMessage, i: Inference) -> bool {
    &&& m.role == openai_role(i.content.role)
    &&& m.content@ == if answers_tool(i) {
        json_text(i.function_results@[0].results)
    } else {
        text_or_empty(i.content.text)
    }
    &&& m.name is None
    &&& opt_string_view(m.tool_call_id) == if answers_tool(i) {
        Some(i.function_results@[0].name@)
    } else {
        None
    }
    &&& i.function_calls@.len() == 0 ==> m.tool_calls is None
    &&& i.function_calls@.len() > 0 ==> (m.tool_calls matches Some(tcs) && tcs@.len()
        == i.function_calls@.len() && forall|k: int|
        0 <= k < tcs@.len() ==> is_openai_call(#[trigger] tcs@[k], i.function_calls@[k], k as nat))
}

/// `m` is the Gemini form of `i`.
pub open spec fn gemini_form(m: GeminiMessage, i: Inference) -> bool {
    m.role == gemini_role(i.content.role) && part_views(m.parts@) == gemini_parts(i)
}

/// `m` is the Ollama form of `i`: the text (empty where there is none),
/// the calls, the images as Base64 (none where there are none), and the
/// thinking.
pub open spec fn ollama_form(m: OllamaMessage, i: Inference) -> bool {
    &&& m.role == i.content.role
    &&& m.content@ == text_or_empty(i.content.text)
    &&& call_views(m.tool_calls@) == call_views(i.function_calls@)
    &&& opt_texts(m.images) == ollama_images(i.content.images)
    &&& m.thinking == i.thinking
}

/// The Base64 images that Ollama gets of `o`: their URLs, and none where
/// there are no images.
pub open spec fn ollama_images(o: Option<Vec<Image>>) -> Option<Seq<Seq<char>>> {
    match o {
        Some(v) => if v@.len() > 0 {
            Some(v@.map_values(|im: Image| im.url@))
        } else {
            None
        },
        None => None,
    }
}

/// The texts of the text parts of `ps`, thoughts included.
pub open spec fn text_parts(ps: Seq<GeminiPart>) -> Seq<Seq<char>>
    decreases ps.len(),
{
    if ps.len() == 0 {
        Seq::empty()
    } else {
        text_parts(ps.drop_last()) + match ps.last() {
            GeminiPart::Text { text, .. } => seq![text@],
            _ => Seq::empty(),
        }
    }
}

/// The calls of the call parts of `ps`.
pub open spec fn call_parts(ps: Seq<GeminiPart>) -> Seq<(Seq<char>, JsonData)>
    decreases ps.len(),
{
    if ps.len() == 0 {
        Seq::empty()
    } else {
        call_parts(ps.drop_last()) + match ps.last() {
            GeminiPart::FunctionCall { call } => seq![call@],
            _ => Seq::empty(),
        }
    }
}

/// The audio of the part `p`: the bytes of inline data of an `audio/` type
/// whose Base64 decodes.
pub open spec fn part_audio(p: GeminiPart) -> Option<Seq<u8>> {
    match p {
        GeminiPart::InlineData { mime_type, data } => if starts_with(mime_type@, "audio/"@) {
            base64_decoded(encode_utf8(data@))
        } else {
            None
        },
        _ => None,
    }
}

/// The first audio of the parts `ps`.
pub open spec fn first_audio(ps: Seq<GeminiPart>) -> Option<Seq<u8>>
    decreases ps.len(),
{
    if ps.len() == 0 {
        None
    } else {
        match first_audio(ps.drop_last()) {
            Some(a) => Some(a),
            None => part_audio(ps.last()),
        }
    }
}

/// `f` is the finish reason for Gemini's `g`; the reasons that have no
/// counterpart are `Other`, named after Gemini's.
pub open spec fn from_google_reason(f: FinishReason, g: GeminiFinishReason) -> bool {
    match g {
        GeminiFinishReason::Stop => f is Stop,
        GeminiFinishReason::MaxTokens => f is MaxTokens,
        GeminiFinishReason::Safety => f is Safety,
        GeminiFinishReason::Recitation => f is Recitation,
        GeminiFinishReason::Blocklist => f is Blocklist,
        GeminiFinishReason::ProhibitedContent => f is ProhibitedContent,
        GeminiFinishReason::Spii => f is Spii,
        GeminiFinishReason::MalformedFunctionCall => f is MalformedFunctionCall,
        GeminiFinishReason::UnexpectedToolCall => f is UnexpectedToolCall,
        GeminiFinishReason::TooManyToolCalls => f is TooManyToolCalls,
        GeminiFinishReason::Language => f matches FinishReason::Other(s) && s@ == "Language"@,
        GeminiFinishReason::ImageSafety => f is ImageSafety,
        GeminiFinishReason::Other => f matches FinishReason::Other(s) && s@ == "Other"@,
        GeminiFinishReason::FinishReasonUnspecified => f is Unspecified,
    }
}

/// `f` is the finish reason for OpenAI's `o`: a length limit is the token
/// limit, a content filter is safety, tool calls are unexpected tool calls,
/// and a null reason is `Other("Null")`.
pub open spec fn from_openai_reason(f: FinishReason, o: OpenAiFinishReason) -> bool {
    match o {
        OpenAiFinishReason::Stop => f is Stop,
        OpenAiFinishReason::Length => f is MaxTokens,
        OpenAiFinishReason::ContentFilter => f is Safety,
        OpenAiFinishReason::ToolCalls => f is UnexpectedToolCall,
        OpenAiFinishReason::Null => f matches FinishReason::Other(s) && s@ == "Null"@,
    }
}

/// `i` is the message of the OpenAI choice `c`: its role (a function
/// speaks as the assistant), text, reasoning, name (as the model), calls
/// and finish reason.
pub open spec fn is_choice_message(i: Inference, c: OpenAiChoice) -> bool {
    &&& i.model == c.message.name
    &&& i.content.role == role_of_openai(c.message.role)
    &&& i.content.text == c.message.content
    &&& i.content.audio is None
    &&& i.content.images is None
    &&& i.thinking == c.message.reasoning_content
    &&& call_views(i.function_calls@) == match c.message.tool_calls {
        Some(tcs) => received_views(tcs@),
        None => Seq::empty(),
    }
    &&& i.function_results@.len() == 0
    &&& match c.finish_reason {
        Some(o) => i.finish_reason matches Some(f) && from_openai_reason(f, o),
        None => i.finish_reason is None,
    }
    &&& i.usage is None
}

/// The calls made of the received calls `cs`.
pub open spec fn received_views(cs: Seq<ReceivedCall>) -> Seq<(Seq<char>, JsonData)> {
    cs.map_values(|c: ReceivedCall| (received_name(c), received_arguments(c)))
}

/// A copy of an optional text.
pub(crate) fn copy_text(o: &Option<String>) -> (r: Option<String>)
    ensures
        r == *o,
{
    match o {
        Some(s) => Some(s.clone()),
        None => None,
    }
}

/// The texts joined with `sep` between them.
fn join_texts(texts: &Vec<String>, sep: &str) -> (res: String)
    ensures
        res@ == joined(texts@.map_values(|t: String| t@), sep@),
{
    let ghost v = texts@.map_values(|t: String| t@);
    let mut out = String::new();
    let mut k: usize = 0;
    while k < texts.len()
        invariant
            k <= texts.len(),
            v == texts@.map_values(|t: String| t@),
            out@ == joined(v.take(k as int), sep@),
        decreases texts.len() - k,
    {
        if k > 0 {
            out.append(sep);
        }
        out.append(texts[k].as_str());
        proof {
            assert(v.take(k + 1).drop_last() =~= v.take(k as int));
            if k == 0 {
                assert(v.take(1) =~= seq![v[0]]);
            }
        }
        k += 1;
    }
    assert(v.take(k as int) =~= v);
    out
}

impl FinishReason {
    /// The finish reason for Gemini's `reason`.
    pub fn from_google(reason: &GeminiFinishReason) -> (res: Self)
        ensures
            from_google_reason(res, *reason),
    {
        match reason {
            GeminiFinishReason::Stop => FinishReason::Stop,
            GeminiFinishReason::MaxTokens => FinishReason::MaxTokens,
            GeminiFinishReason::Safety => FinishReason::Safety,
            GeminiFinishReason::Recitation => FinishReason::Recitation,
            GeminiFinishReason::Blocklist => FinishReason::Blocklist,
            GeminiFinishReason::ProhibitedContent => FinishReason::ProhibitedContent,
            GeminiFinishReason::Spii => FinishReason::Spii,
            GeminiFinishReason::MalformedFunctionCall => FinishReason::MalformedFunctionCall,
            GeminiFinishReason::UnexpectedToolCall => FinishReason::UnexpectedToolCall,
            GeminiFinishReason::TooManyToolCalls => FinishReason::TooManyToolCalls,
            GeminiFinishReason::Language => FinishReason::Other(String::from_str("Language")),
            GeminiFinishReason::ImageSafety => FinishReason::ImageSafety,
            GeminiFinishReason::Other => FinishReason::Other(String::from_str("Other")),
            GeminiFinishReason::FinishReasonUnspecified => FinishReason::Unspecified,
        }
    }

    /// The finish reason for OpenAI's `reason`.
    pub fn from_openai(reason: &OpenAiFinishReason) -> (res: Self)
        ensures
            from_openai_reason(res, *reason),
    {
        match reason {
            OpenAiFinishReason::Stop => FinishReason::Stop,
            OpenAiFinishReason::Length => FinishReason::MaxTokens,
            OpenAiFinishReason::ContentFilter => FinishReason::Safety,
            OpenAiFinishReason::ToolCalls => FinishReason::UnexpectedToolCall,
            OpenAiFinishReason::Null => FinishReason::Other(String::from_str("Null")),
        }
    }
}

impl Image {
    /// The image as an OpenAI image URL, with its caption.
    pub fn to_openai(&self) -> (res: OpenAiImageUrl)
        ensures
            opt_string_view(res.image_url) == Some(self.url@),
            res.text == self.text,
    {
        OpenAiImageUrl { image_url: Some(self.url.clone()), text: copy_text(&self.text) }
    }

    /// The image of an OpenAI image URL: an empty URL where it has none.
    pub fn from_openai(image: OpenAiImageUrl) -> (res: Self)
        ensures
            res.url@ == text_or_empty(image.image_url),
            res.text == image.text,
    {
        let url = match image.image_url {
            Some(u) => u,
            None => String::new(),
        };
        Image { url, text: image.text }
    }

    /// The image as Ollama takes it: its URL as Base64 text.
    pub fn to_ollama(&self) -> (res: String)
        ensures
            res@ == self.url@,
    {
        self.url.clone()
    }

    /// The image of Ollama's Base64 text, with no caption.
    pub fn from_ollama(data: String) -> (res: Self)
        ensures
            res.url == data,
            res.text is None,
    {
        Image { url: data, text: None }
    }

    /// The image as a Gemini part: its Base64 data inline as a PNG image.
    pub fn to_gemini(&self) -> (res: GeminiPart)
        ensures
            res@ == PartView::InlineData("image/png"@, inline_payload(self.url@)),
    {
        GeminiPart::InlineData { mime_type: String::from_str("image/png"), data: self.inline_data() }
    }

    /// The image of a Gemini part: inline PNG, JPEG or GIF data becomes a
    /// data URL; other parts are errors.
    pub fn from_gemini(part: GeminiPart) -> (res: Result<Self, crate::error::Error>)
        ensures
            match part {
                GeminiPart::InlineData { mime_type, data } => match res {
                    Ok(img) => crate::llm::conversation::inline_image_type(mime_type@) && img.url@
                        == "data:"@ + mime_type@ + ";base64,"@ + data@ && img.text is None,
                    Err(e) => !crate::llm::conversation::inline_image_type(mime_type@) && (e matches crate::error::Error::Generic(m)
                        && m@ == "Unsupported image MIME type"@),
                },
                _ => res matches Err(crate::error::Error::Generic(m)) && m@
                    == "Provided part is not an InlineData part"@,
            },
    {
        match part {
            GeminiPart::InlineData { mime_type, data } => Image::from_inline_data(mime_type.as_str(), data.as_str()),
            _ => Err(crate::error::Error::Generic(String::from_str("Provided part is not an InlineData part"))),
        }
    }
}

impl Inference {
    /// The message as OpenAI takes it (see `openai_form`).
    pub fn to_openai_message(&self) -> (res: OpenAiMessage)
        ensures
            openai_form(res, *self),
    {
        let role = match self.content.role {
            Role::User => OpenAiRole::User,
            Role::Assistant => OpenAiRole::Assistant,
            Role::System => OpenAiRole::System,
            Role::Tool => OpenAiRole::Tool,
        };
        let tool_calls = if self.function_calls.len() == 0 {
            None
        } else {
            let mut tcs: Vec<OpenAiToolCall> = Vec::new();
            let mut k: usize = 0;
            while k < self.function_calls.len()
                invariant
                    k <= self.function_calls.len(),
                    tcs@.len() == k,
                    forall|j: int|
                        0 <= j < k ==> is_openai_call(
                            #[trigger] tcs@[j],
                            self.function_calls@[j],
                            j as nat,
                        ),
                decreases self.function_calls.len() - k,
            {
                let mut id = String::from_str("call_");
                id.append(decimal_string(k).as_str());
                let tc = OpenAiToolCall {
                    id,
                    kind: String::from_str("function"),
                    function: self.function_calls[k].to_openai(),
                };
                tcs.push(tc);
                k += 1;
            }
            Some(tcs)
        };
        let answering = self.content.role == Role::Tool && self.function_results.len() > 0;
        let tool_call_id = if answering {
            Some(self.function_results[0].name.clone())
        } else {
            None
        };
        let content = if answering {
            json_string(&self.function_results[0].results)
        } else {
            match &self.content.text {
                Some(t) => t.clone(),
                None => String::new(),
            }
        };
        OpenAiMessage { role, content, name: None, tool_calls, tool_call_id }
    }

    /// The message as Gemini takes it: from the user or from the model,
    /// with the parts that `gemini_parts` lists.
    pub fn to_gemini_message(&self) -> (res: GeminiMessage)
        ensures
            gemini_form(res, *self),
    {
        let role = if self.content.role == Role::User {
            GeminiRole::User
        } else {
            GeminiRole::Model
        };
        let mut parts: Vec<GeminiPart> = Vec::new();
        if let Some(audio) = &self.content.audio {
            let data = base64_encode(audio.as_slice());
            parts.push(GeminiPart::InlineData { mime_type: String::from_str("audio/mp3"), data });
        }
        assert(part_views(parts@) =~= audio_part(*self));
        if let Some(text) = &self.content.text {
            parts.push(GeminiPart::Text { text: text.clone(), thought: Some(self.thinking.is_some()) });
        }
        assert(part_views(parts@) =~= audio_part(*self) + text_part(*self));
        let ghost head = audio_part(*self) + text_part(*self);
        let ghost calls = self.function_calls@.map_values(
            |c: FunctionCall| PartView::FunctionCall(c.name@, c.arguments@),
        );
        let mut k: usize = 0;
        while k < self.function_calls.len()
            invariant
                k <= self.function_calls.len(),
                calls == self.function_calls@.map_values(
                    |c: FunctionCall| PartView::FunctionCall(c.name@, c.arguments@),
                ),
                part_views(parts@) == head + calls.take(k as int),
            decreases self.function_calls.len() - k,
        {
            let call = self.function_calls[k].copy();
            let ghost before = parts@;
            parts.push(GeminiPart::FunctionCall { call });
            assert(part_views(parts@) =~= part_views(before).push(calls[k as int]));
            assert(calls.take(k + 1) =~= calls.take(k as int).push(calls[k as int]));
            k += 1;
        }
        assert(calls.take(k as int) =~= calls);
        let ghost results = self.function_results@.map_values(
            |r: FunctionResult| PartView::FunctionResponse(r.name@, Some(r.results@)),
        );
        let mut j: usize = 0;
        while j < self.function_results.len()
            invariant
                j <= self.function_results.len(),
                results == self.function_results@.map_values(
                    |r: FunctionResult| PartView::FunctionResponse(r.name@, Some(r.results@)),
                ),
                part_views(parts@) == head + calls + results.take(j as int),
            decreases self.function_results.len() - j,
        {
            let r = self.function_results[j].copy();
            let ghost before = parts@;
            parts.push(GeminiPart::FunctionResponse { name: r.name, response: Some(r.results) });
            assert(part_views(parts@) =~= part_views(before).push(results[j as int]));
            assert(results.take(j + 1) =~= results.take(j as int).push(results[j as int]));
            j += 1;
        }
        assert(results.take(j as int) =~= results);
        assert(part_views(parts@) =~= gemini_parts(*self));
        GeminiMessage { role, parts }
    }

    /// The message as Ollama takes it (see `ollama_form`).
    pub fn to_ollama_message(&self) -> (res: OllamaMessage)
        ensures
            ollama_form(res, *self),
    {
        let mut images: Vec<String> = Vec::new();
        let mut has_images = false;
        if let Some(imgs) = &self.content.images {
            let mut k: usize = 0;
            while k < imgs.len()
                invariant
                    k <= imgs.len(),
                    images@.map_values(|s: String| s@) == imgs@.take(k as int).map_values(
                        |im: Image| im.url@,
                    ),
                decreases imgs.len() - k,
            {
                let ghost before = images@;
                images.push(imgs[k].to_ollama());
                assert(images@.map_values(|s: String| s@) =~= before.map_values(|s: String| s@).push(
                    imgs@[k as int].url@,
                ));
                assert(imgs@.take(k + 1).map_values(|im: Image| im.url@) =~= imgs@.take(
                    k as int,
                ).map_values(|im: Image| im.url@).push(imgs@[k as int].url@));
                k += 1;
            }
            assert(imgs@.take(k as int) =~= imgs@);
            has_images = imgs.len() > 0;
        }
        let mut calls: Vec<FunctionCall> = Vec::new();
        let mut k: usize = 0;
        while k < self.function_calls.len()
            invariant
                k <= self.function_calls.len(),
                call_views(calls@) == call_views(self.function_calls@.take(k as int)),
            decreases self.function_calls.len() - k,
        {
            let ghost before = calls@;
            calls.push(self.function_calls[k].copy());
            assert(call_views(calls@) =~= call_views(before).push(self.function_calls@[k as int]@));
            assert(call_views(self.function_calls@.take(k + 1)) =~= call_views(
                self.function_calls@.take(k as int),
            ).push(self.function_calls@[k as int]@));
            k += 1;
        }
        assert(self.function_calls@.take(k as int) =~= self.function_calls@);
        let content = match &self.content.text {
            Some(t) => t.clone(),
            None => String::new(),
        };
        OllamaMessage {
            role: self.content.role,
            content,
            tool_calls: calls,
            images: if has_images {
                Some(images)
            } else {
                None
            },
            thinking: copy_text(&self.thinking),
        }
    }
}

/// The call made of a received call, copied.
fn call_of_received(tc: &ReceivedCall) -> (res: FunctionCall)
    ensures
        res@ == (received_name(*tc), received_arguments(*tc)),
{
    let name = match &tc.name {
        Some(n) => n.clone(),
        None => String::new(),
    };
    let arguments = match &tc.arguments {
        Some(a) => clone_json(a),
        None => JsonValue::Null,
    };
    FunctionCall { name, arguments }
}

/// The calls made of the received calls `tcs`.
fn calls_of_received(tcs: &Vec<ReceivedCall>) -> (res: Vec<FunctionCall>)
    ensures
        call_views(res@) == received_views(tcs@),
{
    let mut calls: Vec<FunctionCall> = Vec::new();
    let mut k: usize = 0;
    while k < tcs.len()
        invariant
            k <= tcs.len(),
            call_views(calls@) == received_views(tcs@.take(k as int)),
        decreases tcs.len() - k,
    {
        let ghost before = calls@;
        calls.push(call_of_received(&tcs[k]));
        assert(call_views(calls@) =~= call_views(before).push(calls@[k as int]@));
        assert(received_views(tcs@.take(k + 1)) =~= received_views(tcs@.take(k as int)).push(
            (received_name(tcs@[k as int]), received_arguments(tcs@[k as int])),
        ));
        k += 1;
    }
    assert(tcs@.take(k as int) =~= tcs@);
    calls
}

/// The thought summaries of the candidates `cs`.
fn collect_thoughts(cs: &Vec<GeminiCandidate>) -> (res: Vec<String>)
    ensures
        res@.map_values(|t: String| t@) == response_thoughts(cs@),
{
    let mut out: Vec<String> = Vec::new();
    let mut c: usize = 0;
    while c < cs.len()
        invariant
            c <= cs.len(),
            out@.map_values(|t: String| t@) == response_thoughts(cs@.take(c as int)),
        decreases cs.len() - c,
    {
        let ghost start = out@.map_values(|t: String| t@);
        let ghost ps = candidate_parts(cs@[c as int]);
        if let Some(parts) = &cs[c].parts {
            let mut j: usize = 0;
            while j < parts.len()
                invariant
                    j <= parts.len(),
                    ps == parts@,
                    out@.map_values(|t: String| t@) == start + part_thoughts(ps.take(j as int)),
                decreases parts.len() - j,
            {
                let ghost before = out@;
                match &parts[j] {
                    GeminiPart::Text { text, thought: Some(t) } => {
                        if *t {
                            out.push(text.clone());
                            assert(out@.map_values(|t: String| t@) =~= before.map_values(
                                |t: String| t@,
                            ).push(text@));
                        }
                    },
                    _ => {},
                }
                assert(ps.take(j + 1).drop_last() =~= ps.take(j as int));
                j += 1;
            }
            assert(ps.take(j as int) =~= ps);
        } else {
            assert(ps =~= Seq::<GeminiPart>::empty());
        }
        assert(cs@.take(c + 1).drop_last() =~= cs@.take(c as int));
        c += 1;
    }
    assert(cs@.take(c as int) =~= cs@);
    out
}

impl Inference {
    /// The message of a Gemini answer, read from its first candidate: its
    /// texts joined by newlines, its first audio, its calls, its finish
    /// reason, the model version, and the thoughts of every candidate
    /// joined by newlines. An answer without candidates becomes a message
    /// saying so, with the answer printed.
    pub fn from_gemini_response(resp: GeminiResponse) -> (res: Self)
        ensures
            res.model == resp.model_version,
            res.content.role == Role::Assistant,
            res.content.images is None,
            res.function_results@.len() == 0,
            res.usage is None,
            resp.candidates@.len() == 0 ==> {
                &&& res.content.text matches Some(t) && t@ == "No candidates in response: "@
                    + resp.printed@
                &&& res.content.audio is None
                &&& res.thinking is None
                &&& res.function_calls@.len() == 0
                &&& res.finish_reason is None
            },
            resp.candidates@.len() > 0 ==> {
                let ps = candidate_parts(resp.candidates@[0]);
                &&& opt_string_view(res.content.text) == if text_parts(ps).len() == 0 {
                    None
                } else {
                    Some(joined(text_parts(ps), "\n"@))
                }
                &&& opt_bytes(res.content.audio) == first_audio(ps)
                &&& opt_string_view(res.thinking) == Some(
                    joined(response_thoughts(resp.candidates@), "\n"@),
                )
                &&& call_views(res.function_calls@) == call_parts(ps)
                &&& match resp.candidates@[0].finish_reason {
                    Some(g) => res.finish_reason matches Some(f) && from_google_reason(f, g),
                    None => res.finish_reason is None,
                }
            },
    {
        if resp.candidates.len() == 0 {
            let mut m = String::from_str("No candidates in response: ");
            m.append(resp.printed.as_str());
            return Inference {
                model: resp.model_version,
                content: InferenceContent { role: Role::Assistant, text: Some(m), audio: None, images: None },
                thinking: None,
                function_calls: Vec::new(),
                function_results: Vec::new(),
                finish_reason: None,
                usage: None,
            };
        }
        let thoughts = collect_thoughts(&resp.candidates);
        let cand = &resp.candidates[0];
        let ghost ps = candidate_parts(resp.candidates@[0]);
        let mut texts: Vec<String> = Vec::new();
        let mut calls: Vec<FunctionCall> = Vec::new();
        let mut audio: Option<Vec<u8>> = None;
        if let Some(parts) = &cand.parts {
            let audio_prefix = chars_of("audio/");
            let mut j: usize = 0;
            while j < parts.len()
                invariant
                    j <= parts.len(),
                    ps == parts@,
                    audio_prefix@ == "audio/"@,
                    texts@.map_values(|t: String| t@) == text_parts(ps.take(j as int)),
                    call_views(calls@) == call_parts(ps.take(j as int)),
                    opt_bytes(audio) == first_audio(ps.take(j as int)),
                decreases parts.len() - j,
            {
                let ghost tb = texts@;
                let ghost cb = calls@;
                assert(ps.take(j + 1).drop_last() =~= ps.take(j as int));
                assert(ps.take(j + 1).last() == ps[j as int]);
                match &parts[j] {
                    GeminiPart::Text { text, .. } => {
                        texts.push(text.clone());
                        assert(texts@.map_values(|t: String| t@) =~= tb.map_values(|t: String| t@).push(
                            text@,
                        ));
                    },
                    GeminiPart::FunctionCall { call } => {
                        calls.push(call.copy());
                        assert(call_views(calls@) =~= call_views(cb).push(call@));
                    },
                    GeminiPart::InlineData { mime_type, data } => {
                        if audio.is_none() {
                            let mime = chars_of(mime_type.as_str());
                            if starts_with_chars(mime.as_slice(), audio_prefix.as_slice()) {
                                match base64_decode(data.as_str().as_bytes()) {
                                    Ok(b) => {
                                        audio = Some(b);
                                    },
                                    Err(_) => {},
                                }
                            }
                        }
                        assert(texts@.map_values(|t: String| t@) =~= tb.map_values(|t: String| t@));
                    },
                    _ => {},
                }
                j += 1;
            }
            assert(ps.take(j as int) =~= ps);
        } else {
            assert(ps =~= Seq::<GeminiPart>::empty());
            assert(texts@.map_values(|t: String| t@) =~= Seq::<Seq<char>>::empty());
        }
        let text = if texts.len() == 0 {
            None
        } else {
            Some(join_texts(&texts, "\n"))
        };
        let finish_reason = match &cand.finish_reason {
            Some(g) => Some(FinishReason::from_google(g)),
            None => None,
        };
        let thinking = join_texts(&thoughts, "\n");
        Inference {
            model: resp.model_version,
            content: InferenceContent { role: Role::Assistant, text, audio, images: None },
            thinking: Some(thinking),
            function_calls: calls,
            function_results: Vec::new(),
            finish_reason,
            usage: None,
        }
    }

    /// The message of an OpenAI choice (see `is_choice_message`).
    pub fn from_openai_choice(choice: &OpenAiChoice) -> (res: Self)
        ensures
            is_choice_message(res, *choice),
    {
        let calls = match &choice.message.tool_calls {
            Some(tcs) => calls_of_received(tcs),
            None => {
                let v: Vec<FunctionCall> = Vec::new();
                assert(call_views(v@) =~= Seq::<(Seq<char>, JsonData)>::empty());
                v
            },
        };
        let role = match choice.message.role {
            OpenAiRole::User => Role::User,
            OpenAiRole::System => Role::System,
            OpenAiRole::Tool => Role::Tool,
            _ => Role::Assistant,
        };
        let finish_reason = match &choice.finish_reason {
            Some(o) => Some(FinishReason::from_openai(o)),
            None => None,
        };
        Inference {
            model: copy_text(&choice.message.name),
            content: InferenceContent { role, text: copy_text(&choice.message.content), audio: None, images: None },
            thinking: copy_text(&choice.message.reasoning_content),
            function_calls: calls,
            function_results: Vec::new(),
            finish_reason,
            usage: None,
        }
    }

    /// The message of a piece of a streamed OpenAI answer: tool calls end
    /// with a tool call, text and the end of the stream with a stop.
    pub fn from_openai_stream_response(message: OpenAiStreamChunk) -> (res: Result<Self, crate::error::Error>)
        ensures
            res matches Ok(i) && match message {
                OpenAiStreamChunk::ToolCall(tcs) => {
                    &&& empty_assistant_content(i.content)
                    &&& call_views(i.function_calls@) == received_views(tcs@)
                    &&& i.finish_reason matches Some(FinishReason::ToolCall)
                    &&& i.model is None
                    &&& i.thinking is None
                    &&& i.function_results@.len() == 0
                    &&& i.usage is None
                },
                OpenAiStreamChunk::Content(c) => {
                    &&& says(i.content, Role::Assistant, c@)
                    &&& i.finish_reason matches Some(FinishReason::Stop)
                    &&& i.model is None
                    &&& i.thinking is None
                    &&& i.function_calls@.len() == 0
                    &&& i.function_results@.len() == 0
                    &&& i.usage is None
                },
                OpenAiStreamChunk::Done => {
                    &&& empty_assistant_content(i.content)
                    &&& i.finish_reason matches Some(FinishReason::Stop)
                    &&& i.model is None
                    &&& i.thinking is None
                    &&& i.function_calls@.len() == 0
                    &&& i.function_results@.len() == 0
                    &&& i.usage is None
                },
            },
    {
        let (content, calls, finish) = match message {
            OpenAiStreamChunk::ToolCall(tcs) => (
                InferenceContent::default(),
                calls_of_received(&tcs),
                FinishReason::ToolCall,
            ),
            OpenAiStreamChunk::Content(c) => (
                InferenceContent { role: Role::Assistant, text: Some(c), audio: None, images: None },
                Vec::new(),
                FinishReason::Stop,
            ),
            OpenAiStreamChunk::Done => (InferenceContent::default(), Vec::new(), FinishReason::Stop),
        };
        Ok(
            Inference {
                model: None,
                content,
                thinking: None,
                function_calls: calls,
                function_results: Vec::new(),
                finish_reason: Some(finish),
                usage: None,
            },
        )
    }

    /// The message of an Ollama answer: its role, text, images, thinking
    /// and calls, and the model; an answer that makes tool calls ends with
    /// a tool call.
    pub fn from_ollama_response(resp: OllamaResponse) -> (res: Self)
        ensures
            res.model == Some(resp.model),
            res.content.role == resp.message.role,
            res.content.text == Some(resp.message.content),
            res.content.audio is None,
            match resp.message.images {
                Some(d) => res.content.images matches Some(v) && v@.len() == d@.len() && forall|k: int|
                    0 <= k < v@.len() ==> (#[trigger] v@[k]).url == d@[k] && v@[k].text is None,
                None => res.content.images is None,
            },
            res.thinking == resp.message.thinking,
            res.function_calls == resp.message.tool_calls,
            res.function_results@.len() == 0,
            resp.message.tool_calls@.len() > 0 ==> res.finish_reason matches Some(FinishReason::ToolCall),
            resp.message.tool_calls@.len() == 0 ==> res.finish_reason is None,
            res.usage is None,
    {
        let finish_reason = if resp.message.tool_calls.len() > 0 {
            Some(FinishReason::ToolCall)
        } else {
            None
        };
        let images = match resp.message.images {
            Some(d) => {
                let mut v: Vec<Image> = Vec::new();
                let mut k: usize = 0;
                while k < d.len()
                    invariant
                        k <= d.len(),
                        v@.len() == k,
                        forall|i: int| 0 <= i < k ==> (#[trigger] v@[i]).url == d@[i] && v@[i].text is None,
                    decreases d.len() - k,
                {
                    v.push(Image::from_ollama(d[k].clone()));
                    k += 1;
                }
                Some(v)
            },
            None => None,
        };
        Inference {
            model: Some(resp.model),
            content: InferenceContent {
                role: resp.message.role,
                text: Some(resp.message.content),
                audio: None,
                images,
            },
            thinking: resp.message.thinking,
            function_calls: resp.message.tool_calls,
            function_results: Vec::new(),
            finish_reason,
            usage: None,
        }
    }
}

} // verus!
