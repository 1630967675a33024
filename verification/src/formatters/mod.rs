//! Text formatters.

pub mod markdown;

pub use markdown::MarkdownFormatter;
pub mod html_markdown;
pub mod json;
