//! Building blocks for LLM-powered applications: text splitters, an LRU cache,
//! search-argument validation, URL checks, command prompt detection and
//! Markdown rendering.

pub mod agent;
pub mod chain;
pub mod crypto;
pub mod encoding;
pub mod error;
pub mod formatters;
pub mod html;
pub mod http_agent;
pub mod ip;
pub mod llm;
pub mod lru;
pub mod mongo;
pub mod os;
pub mod scraping;
pub mod search;
pub mod selector;
pub mod splitters;
pub mod storage;
pub mod templates;
pub mod text;
pub mod tools;
pub mod url;

pub use error::Error;
pub use splitters::{CharCount, ChunkView, SplitterConfig, TextChunk, TextLength, TextSplitter};
