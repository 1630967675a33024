//! An inference put to a model: the message, the conversation before it,
//! the generation settings and the model.
use vstd::prelude::*;

use std::sync::Arc;

use crate::error::Error;
use crate::llm::conversation::Inference;
use crate::llm::requests::{provider_request, GenerationConfig, ProviderRequest, LLM};

verus! {

/// Whether the answer comes at once or as a stream.
#[derive(Clone, Copy, Debug, PartialEq, Eq, Structural, Hash, PartialOrd, Ord)]
pub enum InferenceMode {
    OneShot,
    Streaming,
}

/// The settings are the default ones.
pub open spec fn is_default_config(c: GenerationConfig) -> bool {
    &&& c.top_k == 40
    &&& c.max_output_tokens == 2048
    &&& c.thinking == crate::llm::definitions::ThinkingMode::Dynamic
    &&& c.candidate_count == 1
    &&& c.stop_sequences is None
    &&& c.output_schema is None
    &&& c.response_mime_type is None
    &&& c.tool_calling_mode is Auto
    &&& !c.include_thoughts
}

/// A message to put to a model, with the conversation before it and the
/// settings of the generation.
#[derive(Debug)]
pub struct InferenceTask<'a> {
    pub history: &'a [Inference],
    pub inference: Inference,
    pub config: GenerationConfig,
    pub llm: Arc<LLM>,
}

impl<'a> InferenceTask<'a> {
    /// The task of putting `inference` to `llm`, with no history and the
    /// default settings.
    pub fn new(inference: Inference, llm: Arc<LLM>) -> (res: Self)
        ensures
            res.history@.len() == 0,
            res.inference == inference,
            is_default_config(res.config),
            res.llm == llm,
    {
        let history: &'a [Inference] = &[];
        InferenceTask { history, inference, config: GenerationConfig::default(), llm }
    }

    /// The task with `history` as the conversation before the message.
    pub fn with_history(self, history: &'a [Inference]) -> (res: Self)
        ensures
            res.history == history,
            res.inference == self.inference,
            res.config == self.config,
            res.llm == self.llm,
    {
        InferenceTask { history, ..self }
    }

    /// The task with `config` as its settings.
    pub fn with_config(self, config: GenerationConfig) -> (res: Self)
        ensures
            res.config == config,
            res.history == self.history,
            res.inference == self.inference,
            res.llm == self.llm,
    {
        InferenceTask { config, ..self }
    }

    /// What generating the answer asks of the model's provider (see
    /// `LLM::generation_request`).
    pub fn generation_request(self) -> (res: Result<ProviderRequest, Error>)
        ensures
            provider_request(
                res,
                *self.llm,
                self.history@,
                self.inference,
                self.config,
                "Provider not supported for generation"@,
            ),
    {
        self.llm.generation_request(self.history, &self.inference, self.config)
    }

    /// What streaming the answer asks of the model's provider (see
    /// `LLM::stream_request`).
    pub fn stream_request(self) -> (res: Result<ProviderRequest, Error>)
        ensures
            provider_request(
                res,
                *self.llm,
                self.history@,
                self.inference,
                self.config,
                "Provider not supported for streaming"@,
            ),
    {
        self.llm.stream_request(self.history, &self.inference, self.config)
    }
}

impl LLM {
    /// The task of putting `inference` to this model.
    pub fn inference(&self, inference: Inference) -> (res: InferenceTask<'static>)
        ensures
            res.history@.len() == 0,
            res.inference == inference,
            is_default_config(res.config),
            res.llm.model == self.model,
            res.llm.system_prompt == self.system_prompt,
            res.llm.provider == self.provider,
            res.llm.authorization == self.authorization,
            res.llm.endpoint == self.endpoint,
            crate::llm::function::tool_views(res.llm.tools@) == crate::llm::function::tool_views(self.tools@),
    {
        InferenceTask::new(inference, Arc::new(self.copy()))
    }
}

} // verus!
