# rustychain

Building blocks for LLM-powered applications — text splitters, formatters,
an LRU cache, search and scraping tools, request building for the Gemini,
OpenAI and Ollama providers, agents and chains — written in Verus, with the
behaviour of each function stated in its `requires` / `ensures` and proved.

## Layout

- `src/` — the verified library. Every function has a contract; the
  properties that relate several functions are stated as public proof
  functions (named `law_…`). Calls into outside crates (`scraper`, `url`,
  `aes-gcm`, `argon2`, `base64`, `hex`, `sha2`, `serde_json`, …) go through
  small trusted wrappers whose doc comments say what is assumed of them.
- `tests/` — tests of the library on concrete values.
- `app/` — ordinary Rust around the library: the network requests, the
  provider clients, running commands, serde types and the loops that
  perform the actions the library decides on.
