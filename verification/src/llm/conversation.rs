//! Conversation content: roles, images, usage and finish reasons.
use vstd::prelude::*;

use crate::error::Error;
use crate::llm::function::{FunctionCall, FunctionResult};
use crate::text::{chars_are, chars_of, find_chars, find_from, lemma_find_from, slice_chars, starts_with, starts_with_chars, string_from_vec};

verus! {

/// Reason for finishing the generation.
#[derive(Debug)]
pub enum FinishReason {
    Stop,
    MaxTokens,
    Safety,
    Recitation,
    Blocklist,
    ProhibitedContent,
    Spii,
    MalformedFunctionCall,
    ImageSafety,
    UnexpectedToolCall,
    TooManyToolCalls,
    ToolCall,
    Other(String),
    Unspecified,
}

/// Who speaks in a conversation.
#[derive(Clone, Copy, Debug, PartialEq, Eq, Structural)]
pub enum Role {
    System,
    User,
    Assistant,
    Tool,
}

/// An image: its URL (or base64 data URL) and an optional caption.
#[derive(Debug)]
pub struct Image {
    pub url: String,
    pub text: Option<String>,
}

/// The image types a model may send inline.
pub open spec fn inline_image_type(mime: Seq<char>) -> bool {
    mime == "image/png"@ || mime == "image/jpeg"@ || mime == "image/jpg"@ || mime == "image/gif"@
}

/// The base64 payload of an image URL: what follows the first comma of a
/// `data:` URL (nothing when there is no comma), or the URL itself.
pub open spec fn inline_payload(url: Seq<char>) -> Seq<char> {
    if starts_with(url, "data:"@) {
        match find_from(url, seq![','], 0) {
            Some(i) => url.skip(i + 1),
            None => Seq::empty(),
        }
    } else {
        url
    }
}

impl Image {
    /// An image with the given URL and caption.
    pub fn new(url: String, text: Option<String>) -> (res: Self)
        ensures
            res.url == url,
            res.text == text,
    {
        Self { url, text }
    }

    /// The image sent inline with type `mime` and base64 `data`, as a data
    /// URL; only PNG, JPEG and GIF images are accepted.
    pub fn from_inline_data(mime: &str, data: &str) -> (res: Result<Self, Error>)
        ensures
            match res {
                Ok(img) => inline_image_type(mime@) && img.url@ == "data:"@ + mime@ + ";base64,"@
                    + data@ && img.text is None,
                Err(e) => !inline_image_type(mime@) && (e matches Error::Generic(m)
                    && m@ == "Unsupported image MIME type"@),
            },
    {
        let m = chars_of(mime);
        let ms = m.as_slice();
        if chars_are(ms, "image/png") || chars_are(ms, "image/jpeg") || chars_are(ms, "image/jpg")
            || chars_are(ms, "image/gif") {
            let mut url = String::from_str("data:");
            url.append(mime);
            url.append(";base64,");
            url.append(data);
            Ok(Self { url, text: None })
        } else {
            Err(Error::Generic(String::from_str("Unsupported image MIME type")))
        }
    }

    /// The base64 data to send inline for this image.
    pub fn inline_data(&self) -> (res: String)
        ensures
            res@ == inline_payload(self.url@),
    {
        let u = chars_of(self.url.as_str());
        let prefix = chars_of("data:");
        if starts_with_chars(u.as_slice(), prefix.as_slice()) {
            let comma: Vec<char> = vec![','];
            assert(comma@ =~= seq![',']);
            proof {
                lemma_find_from(u@, seq![','], 0);
            }
            match find_chars(u.as_slice(), comma.as_slice(), 0) {
                Some(i) => {
                    assert(i + 1 <= u@.len());
                    assert(i + 1 <= u.len());
                    let rest = slice_chars(u.as_slice(), i + 1, u.len());
                    assert(rest@ =~= u@.skip(i + 1));
                    string_from_vec(rest)
                },
                None => String::new(),
            }
        } else {
            self.url.clone()
        }
    }
}

/// Token counts of a generation.
#[derive(Debug, Clone, Copy, PartialEq, Eq, Structural)]
pub struct UsageMetadata {
    pub prompt_tokens: usize,
    pub completion_tokens: usize,
    pub total_tokens: usize,
}

/// What a message holds: who says it, and its text, audio and images.
#[derive(Debug)]
pub struct InferenceContent {
    pub role: Role,
    pub text: Option<String>,
    pub audio: Option<Vec<u8>>,
    pub images: Option<Vec<Image>>,
}

impl Default for InferenceContent {
    /// Empty content from the assistant.
    fn default() -> (res: Self)
        ensures
            res.role == Role::Assistant,
            res.text is None,
            res.audio is None,
            res.images is None,
    {
        InferenceContent { role: Role::Assistant, text: None, audio: None, images: None }
    }
}

impl InferenceContent {
    /// A user message holding the text `s`.
    pub fn from_user_text(s: &str) -> (res: Self)
        ensures
            res.role == Role::User,
            res.text matches Some(t) && t@ == s@,
            res.audio is None,
            res.images is None,
    {
        InferenceContent { role: Role::User, text: Some(String::from_str(s)), audio: None, images: None }
    }
}


/// A message of a conversation: its content, the model that produced it,
/// the model's thinking, the tool calls it asks for, the tool results it
/// carries, why generation finished, and the token counts.
#[derive(Debug)]
pub struct Inference {
    pub model: Option<String>,
    pub content: InferenceContent,
    pub thinking: Option<String>,
    pub function_calls: Vec<FunctionCall>,
    pub function_results: Vec<FunctionResult>,
    pub finish_reason: Option<FinishReason>,
    pub usage: Option<UsageMetadata>,
}

/// The content is the assistant's and empty.
pub open spec fn empty_assistant_content(c: InferenceContent) -> bool {
    &&& c.role == Role::Assistant
    &&& c.text is None
    &&& c.audio is None
    &&& c.images is None
}

/// The content `c` is `role` saying `text`, with no audio and no images.
pub open spec fn says(c: InferenceContent, role: Role, text: Seq<char>) -> bool {
    &&& c.role == role
    &&& c.text matches Some(t) && t@ == text
    &&& c.audio is None
    &&& c.images is None
}

/// Everything of `i` but its content is empty: no model, thinking, calls,
/// results, finish reason or usage.
pub open spec fn bare(i: Inference) -> bool {
    &&& i.model is None
    &&& i.thinking is None
    &&& i.function_calls@.len() == 0
    &&& i.function_results@.len() == 0
    &&& i.finish_reason is None
    &&& i.usage is None
}

impl Default for Inference {
    /// An empty message from the assistant.
    fn default() -> (res: Self)
        ensures
            empty_assistant_content(res.content),
            bare(res),
    {
        Inference {
            model: None,
            content: InferenceContent::default(),
            thinking: None,
            function_calls: Vec::new(),
            function_results: Vec::new(),
            finish_reason: None,
            usage: None,
        }
    }
}

impl Inference {
    /// A message with the given content and nothing else.
    pub fn new(content: InferenceContent) -> (res: Self)
        ensures
            res.content == content,
            bare(res),
    {
        Inference {
            model: None,
            content,
            thinking: None,
            function_calls: Vec::new(),
            function_results: Vec::new(),
            finish_reason: None,
            usage: None,
        }
    }

    /// A message in which `role` says `text`.
    pub fn with_content(role: Role, text: &str) -> (res: Self)
        ensures
            says(res.content, role, text@),
            bare(res),
    {
        Self::new(InferenceContent { role, text: Some(String::from_str(text)), audio: None, images: None })
    }

    /// A message in which the user says `text`.
    pub fn as_user(text: &str) -> (res: Self)
        ensures
            says(res.content, Role::User, text@),
            bare(res),
    {
        Self::with_content(Role::User, text)
    }

    /// A message in which the assistant says `text`.
    pub fn as_assistant(text: &str) -> (res: Self)
        ensures
            says(res.content, Role::Assistant, text@),
            bare(res),
    {
        Self::with_content(Role::Assistant, text)
    }

    /// A system message saying `text`.
    pub fn as_system(text: &str) -> (res: Self)
        ensures
            says(res.content, Role::System, text@),
            bare(res),
    {
        Self::with_content(Role::System, text)
    }

    /// A tool message saying `text`.
    pub fn as_tool(text: &str) -> (res: Self)
        ensures
            says(res.content, Role::Tool, text@),
            bare(res),
    {
        Self::with_content(Role::Tool, text)
    }

    /// A tool message carrying `results` and no text.
    pub fn with_function_results(results: Vec<FunctionResult>) -> (res: Self)
        ensures
            res.content.role == Role::Tool,
            res.content.text is None,
            res.content.audio is None,
            res.content.images is None,
            res.function_results == results,
            res.model is None,
            res.thinking is None,
            res.function_calls@.len() == 0,
            res.finish_reason is None,
            res.usage is None,
    {
        Inference {
            model: None,
            content: InferenceContent { role: Role::Tool, text: None, audio: None, images: None },
            thinking: None,
            function_calls: Vec::new(),
            function_results: results,
            finish_reason: None,
            usage: None,
        }
    }

    /// The message with `result` added after its tool results.
    pub fn add_function_result(self, result: FunctionResult) -> (res: Self)
        ensures
            res.function_results@ == self.function_results@.push(result),
            res.content == self.content,
            res.model == self.model,
            res.thinking == self.thinking,
            res.function_calls == self.function_calls,
            res.finish_reason == self.finish_reason,
            res.usage == self.usage,
    {
        let mut s = self;
        s.function_results.push(result);
        s
    }

    /// The message with `call` added after its tool calls.
    pub fn add_function_call(self, call: FunctionCall) -> (res: Self)
        ensures
            res.function_calls@ == self.function_calls@.push(call),
            res.content == self.content,
            res.model == self.model,
            res.thinking == self.thinking,
            res.function_results == self.function_results,
            res.finish_reason == self.finish_reason,
            res.usage == self.usage,
    {
        let mut s = self;
        s.function_calls.push(call);
        s
    }

    /// The message with `audio` as its audio.
    pub fn with_audio(self, audio: Vec<u8>) -> (res: Self)
        ensures
            res.content.audio == Some(audio),
            res.content.role == self.content.role,
            res.content.text == self.content.text,
            res.content.images == self.content.images,
            res.model == self.model,
            res.thinking == self.thinking,
            res.function_calls == self.function_calls,
            res.function_results == self.function_results,
            res.finish_reason == self.finish_reason,
            res.usage == self.usage,
    {
        let mut s = self;
        s.content.audio = Some(audio);
        s
    }

    /// The message with `images` as its images.
    pub fn with_images(self, images: Vec<Image>) -> (res: Self)
        ensures
            res.content.images == Some(images),
            res.content.role == self.content.role,
            res.content.text == self.content.text,
            res.content.audio == self.content.audio,
            res.model == self.model,
            res.thinking == self.thinking,
            res.function_calls == self.function_calls,
            res.function_results == self.function_results,
            res.finish_reason == self.finish_reason,
            res.usage == self.usage,
    {
        let mut s = self;
        s.content.images = Some(images);
        s
    }

    /// The message with `image` added after its images (the first image
    /// where it had none).
    pub fn add_image(self, image: Image) -> (res: Self)
        ensures
            res.content.images matches Some(imgs) && imgs@ == match self.content.images {
                Some(old) => old@.push(image),
                None => seq![image],
            },
            res.content.role == self.content.role,
            res.content.text == self.content.text,
            res.content.audio == self.content.audio,
            res.model == self.model,
            res.thinking == self.thinking,
            res.function_calls == self.function_calls,
            res.function_results == self.function_results,
            res.finish_reason == self.finish_reason,
            res.usage == self.usage,
    {
        let mut s = self;
        let images = match s.content.images {
            Some(mut imgs) => {
                imgs.push(image);
                imgs
            },
            None => {
                let mut imgs: Vec<Image> = Vec::new();
                imgs.push(image);
                imgs
            },
        };
        s.content.images = Some(images);
        s
    }

    /// The message with `thinking` as the model's thinking.
    pub fn with_thinking(self, thinking: String) -> (res: Self)
        ensures
            res.thinking == Some(thinking),
            res.content == self.content,
            res.model == self.model,
            res.function_calls == self.function_calls,
            res.function_results == self.function_results,
            res.finish_reason == self.finish_reason,
            res.usage == self.usage,
    {
        let mut s = self;
        s.thinking = Some(thinking);
        s
    }

    /// Whether the message holds the model's thinking.
    pub fn is_thinking(&self) -> (r: bool)
        ensures
            r == self.thinking is Some,
    {
        self.thinking.is_some()
    }

    /// Whether the message asks for tool calls.
    pub fn has_function_calls(&self) -> (r: bool)
        ensures
            r == (self.function_calls@.len() > 0),
    {
        self.function_calls.len() > 0
    }

    /// Whether the message carries tool results.
    pub fn has_function_results(&self) -> (r: bool)
        ensures
            r == (self.function_results@.len() > 0),
    {
        self.function_results.len() > 0
    }
}

impl<'a> From<&'a str> for Inference {
    /// A message in which the user says `s`, as `Inference::as_user` makes
    /// it.
    fn from(s: &'a str) -> Self {
        Inference::as_user(s)
    }
}

impl<'a> vstd::std_specs::convert::FromSpecImpl<&'a str> for Inference {
    /// Not described: a specification cannot build the message's `String`.
    open spec fn obeys_from_spec() -> bool {
        false
    }

    open spec fn from_spec(v: &'a str) -> Self {
        arbitrary()
    }
}

impl<'a> From<(Role, &'a str)> for Inference {
    /// A message in which the given role says the given text, as
    /// `Inference::with_content` makes it.
    fn from(p: (Role, &'a str)) -> Self {
        Inference::with_content(p.0, p.1)
    }
}

impl<'a> vstd::std_specs::convert::FromSpecImpl<(Role, &'a str)> for Inference {
    /// Not described: a specification cannot build the message's `String`.
    open spec fn obeys_from_spec() -> bool {
        false
    }

    open spec fn from_spec(v: (Role, &'a str)) -> Self {
        arbitrary()
    }
}

impl From<InferenceContent> for Inference {
    /// A message with the given content, as `Inference::new` makes it.
    fn from(c: InferenceContent) -> Self {
        Inference::new(c)
    }
}

impl vstd::std_specs::convert::FromSpecImpl<InferenceContent> for Inference {
    /// Not described: a specification cannot build the message's vectors.
    open spec fn obeys_from_spec() -> bool {
        false
    }

    open spec fn from_spec(v: InferenceContent) -> Self {
        arbitrary()
    }
}

impl<'a> From<&'a str> for InferenceContent {
    /// The user saying `s`, as `InferenceContent::from_user_text` makes it.
    fn from(s: &'a str) -> Self {
        InferenceContent::from_user_text(s)
    }
}

impl<'a> vstd::std_specs::convert::FromSpecImpl<&'a str> for InferenceContent {
    /// Not described: a specification cannot build the content's `String`.
    open spec fn obeys_from_spec() -> bool {
        false
    }

    open spec fn from_spec(v: &'a str) -> Self {
        arbitrary()
    }
}

impl<'a> From<(Role, &'a str)> for InferenceContent {
    /// The given role saying the given text, with no audio and no images.
    fn from(p: (Role, &'a str)) -> Self {
        InferenceContent { role: p.0, text: Some(String::from_str(p.1)), audio: None, images: None }
    }
}

impl<'a> vstd::std_specs::convert::FromSpecImpl<(Role, &'a str)> for InferenceContent {
    /// Not described: a specification cannot build the content's `String`.
    open spec fn obeys_from_spec() -> bool {
        false
    }

    open spec fn from_spec(v: (Role, &'a str)) -> Self {
        arbitrary()
    }
}

} // verus!
