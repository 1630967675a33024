//! Web search: argument validation, result links, result selection and the
//! result cache.

pub mod definitions;
pub mod duckduckgo;
pub mod simple;

pub use definitions::{
    default_max_results, default_region, default_use_cache, SearchResult, CACHE_CAPACITY,
    DEFAULT_MAX_RESULTS, MAX_RESULTS_LIMIT, MIN_RESULTS_LIMIT, RATE_LIMIT_DELAY_MS,
    REQUEST_TIMEOUT_SECS,
};
pub use duckduckgo::{DuckDuckGoSearchArgs, DuckDuckGoSearchCached, RawResult};
