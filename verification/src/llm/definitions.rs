//! Providers and thinking modes, and how a thinking mode is put to each
//! provider.
use vstd::prelude::*;

verus! {

/// Supported LLM providers.
#[derive(Clone, Copy, Debug, PartialEq, Eq, Structural, Hash, PartialOrd, Ord)]
pub enum LLMProvider {
    Google,
    OpenAI,
    Anthropic,
    Ollama,
}

/// How hard a model should think.
#[derive(Clone, Copy, Debug, PartialEq, Eq, Structural, Hash, PartialOrd, Ord)]
pub enum ThinkingEffort {
    Low,
    Medium,
    High,
}

/// Different modes for LLM "thinking" or planning.
///
/// - `Disabled`: no additional thinking.
/// - `Dynamic`: let the LLM decide how much to think.
/// - `Effort(e)`: think with the given effort.
/// - `Sized(n)`: a thinking budget of `n` tokens.
#[derive(Clone, Copy, Debug, PartialEq, Eq, Structural, Hash, PartialOrd, Ord)]
pub enum ThinkingMode {
    Disabled,
    Dynamic,
    Effort(ThinkingEffort),
    Sized(i32),
}

/// The reasoning effort levels of OpenAI requests.
#[derive(Clone, Copy, Debug, PartialEq, Eq, Structural)]
pub enum ReasoningEffort {
    Low,
    Medium,
    High,
}

/// How OpenAI reasoning is bounded.
#[derive(Clone, Copy, Debug, PartialEq, Eq, Structural)]
pub enum ReasoningMode {
    Effort { effort: ReasoningEffort },
    MaxTokens { max_tokens: i64 },
}

/// The reasoning settings of an OpenAI request.
#[derive(Clone, Copy, Debug, PartialEq, Eq, Structural)]
pub struct Reasoning {
    pub mode: Option<ReasoningMode>,
    pub exclude: Option<bool>,
    pub enabled: Option<bool>,
}

/// The OpenAI reasoning settings for the thinking mode `t`.
pub open spec fn openai_reasoning(t: ThinkingMode) -> Option<Reasoning> {
    match t {
        ThinkingMode::Disabled => Some(Reasoning { mode: None, exclude: None, enabled: Some(false) }),
        ThinkingMode::Dynamic => None,
        ThinkingMode::Effort(e) => Some(
            Reasoning {
                mode: Some(
                    ReasoningMode::Effort {
                        effort: match e {
                            ThinkingEffort::Low => ReasoningEffort::Low,
                            ThinkingEffort::Medium => ReasoningEffort::Medium,
                            ThinkingEffort::High => ReasoningEffort::High,
                        },
                    },
                ),
                exclude: Some(false),
                enabled: Some(true),
            },
        ),
        ThinkingMode::Sized(size) => Some(
            Reasoning {
                mode: Some(ReasoningMode::MaxTokens { max_tokens: size as i64 }),
                exclude: Some(false),
                enabled: Some(true),
            },
        ),
    }
}

impl ThinkingMode {
    /// The Google thinking budget: 0 for no thinking, the size of a sized
    /// budget, -1 (dynamic) otherwise, as Google has no effort levels.
    pub fn to_google(&self) -> (r: i32)
        ensures
            r == match *self {
                ThinkingMode::Disabled => 0i32,
                ThinkingMode::Sized(size) => size,
                _ => -1i32,
            },
    {
        match self {
            ThinkingMode::Disabled => 0,
            ThinkingMode::Sized(size) => *size,
            _ => -1,
        }
    }

    /// The OpenAI reasoning settings: disabled for no thinking, none for
    /// dynamic thinking, enabled with an effort or a token budget otherwise.
    pub fn to_openai(&self) -> (r: Option<Reasoning>)
        ensures
            r == openai_reasoning(*self),
    {
        match self {
            ThinkingMode::Disabled => Some(Reasoning { mode: None, exclude: None, enabled: Some(false) }),
            ThinkingMode::Dynamic => None,
            ThinkingMode::Effort(effort) => {
                let reasoning_effort = match effort {
                    ThinkingEffort::Low => ReasoningEffort::Low,
                    ThinkingEffort::Medium => ReasoningEffort::Medium,
                    ThinkingEffort::High => ReasoningEffort::High,
                };
                Some(
                    Reasoning {
                        mode: Some(ReasoningMode::Effort { effort: reasoning_effort }),
                        exclude: Some(false),
                        enabled: Some(true),
                    },
                )
            },
            ThinkingMode::Sized(size) => Some(
                Reasoning {
                    mode: Some(ReasoningMode::MaxTokens { max_tokens: *size as i64 }),
                    exclude: Some(false),
                    enabled: Some(true),
                },
            ),
        }
    }

    /// Whether Ollama should think: always but for `Disabled`.
    pub fn to_ollama(&self) -> (r: bool)
        ensures
            r == !(*self is Disabled),
    {
        !matches!(self, ThinkingMode::Disabled)
    }
}

} // verus!
