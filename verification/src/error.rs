//! The library's error type.
use vstd::prelude::*;

verus! {

/// What can go wrong in the library's operations.
#[derive(Debug)]
pub enum Error {
    /// A failure described by a message.
    Generic(String),
    /// An internal failure, such as an unsupported action.
    Internal(String),
    /// An input that the operation does not accept.
    Input(String),
    /// An operation or option that is not supported.
    Unsupported(String),
    /// Text that is not valid hexadecimal.
    Hex(hex::FromHexError),
    /// Text that `url::Url::parse` does not accept.
    Url(String),
    /// A request that fails validation, with a message saying why.
    Validation { message: String },
    /// A failed HTTP exchange, described by a message.
    Http(String),
    /// A page or response without content.
    NoContent,
    /// Something looked up by name that does not exist.
    NotFound(String),
    /// A request made without the credentials it needs.
    Unauthorized(String),
    /// A failure to encrypt or decrypt.
    Encryption(String),
    /// A failure of an agent's step, with the step's position and name.
    Agent { index: usize, name: String, source: Box<Error> },
    /// A chain step that failed, with its position and name.
    Step { index: usize, step_name: Option<String>, source: Box<Error> },
    /// A chain asked for its output before running all its steps.
    ChainNotFinalized,
    /// A chain step found no input to run on.
    NotInput,
    /// A failure to hash a password or to read a stored hash.
    Argon2(String),
    /// A search request that cannot be made, with the offending query and
    /// a message saying what to change.
    Search { query: Option<String>, source: Option<String>, feedback: Option<String> },
}

} // verus!
