//! How an inference is run.
use vstd::prelude::*;

verus! {

/// Whether the answer comes at once or as a stream.
#[derive(Clone, Copy, Debug, PartialEq, Eq, Structural, Hash, PartialOrd, Ord)]
pub enum InferenceMode {
    OneShot,
    Streaming,
}

} // verus!
