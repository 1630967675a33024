//! Model-facing types: providers, thinking modes, finish reasons, images,
//! inference content and usage.

pub mod builder;
pub mod conversation;
pub mod conversions;
pub mod definitions;
pub mod function;
pub mod inference;
pub mod inference_task;
pub mod llm;
pub mod messages;
pub mod requests;
pub mod schema;

pub use builder::LLMBuilder;
pub use conversation::{FinishReason, Image, Inference, InferenceContent, Role, UsageMetadata};
pub use function::{FunctionCall, FunctionResult, ReceivedCall, ToolInfo};
pub use inference_task::InferenceTask;
pub use requests::{GenerationConfig, ProviderRequest, ToolCallingMode, LLM};
pub use definitions::{LLMProvider, Reasoning, ReasoningEffort, ReasoningMode, ThinkingEffort, ThinkingMode};
