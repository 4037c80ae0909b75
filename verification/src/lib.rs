//! Core of a chat front-end over a locally running model daemon: a progress
//! store that tracks long-running model downloads, the merge rule that folds
//! upstream pull-progress lines into stored records, a liveness/catalog probe,
//! a best-effort prompt augmenter backed by a web-search provider, and a relay
//! that turns the daemon's newline-delimited completion stream into client
//! events ended by a sentinel.
use vstd::prelude::*;

pub mod augment;
pub mod bytes;
pub mod parse;
pub mod probe;
pub mod progress;
pub mod relay;
pub mod store;
pub mod text;

verus! {

/// A request for one chat completion: the target model and the prompt text.
pub struct PromptRequest {
    pub model: String,
    pub prompt: String,
}

} // verus!
