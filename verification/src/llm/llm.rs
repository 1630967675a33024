//! The provider and thinking-mode types of the model description.
use vstd::prelude::*;

verus! {

/// Supported LLM providers.
#[derive(Clone, Copy, Debug, PartialEq, Eq, Structural, Hash, PartialOrd, Ord)]
pub enum LLMProvider {
    Google,
    OpenAI,
    Anthropic,
    Ollama,
}

/// Different modes for LLM "thinking" or planning.
///
/// - `Disabled`: no additional thinking.
/// - `Dynamic`: let the LLM decide how much to think.
/// - `Sized(n)`: a thinking budget of `n` tokens.
#[derive(Clone, Copy, Debug, PartialEq, Eq, Structural, Hash, PartialOrd, Ord)]
pub enum ThinkingMode {
    Disabled,
    Dynamic,
    Sized(i32),
}

} // verus!
