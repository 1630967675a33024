//! Text splitters for breaking documents into smaller chunks.

pub mod definitions;
pub mod html_splitter;
pub mod recursive_char_text_splitter;
pub mod recursive_json_splitter;

pub use definitions::{CharCount, ChunkView, SplitterConfig, TextChunk, TextLength, TextSplitter};
pub use recursive_char_text_splitter::{RecursiveCharacterTextSplitter, SeparatorBehavior};
pub use recursive_json_splitter::{JsonValue, RecursiveJsonSplitter};
pub use html_splitter::{HtmlChunk, HtmlMetadata, HtmlSemanticSplitter};
