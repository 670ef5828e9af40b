//! Bodies of the requests to and replies from the model server.
use vstd::prelude::*;

verus! {

/// Request for an embedding of `prompt`.
#[derive(Debug, Clone)]
pub struct EmbedRequest {
    pub model: String,
    pub prompt: String,
}

/// Request for an answer to `prompt`, streamed or whole.
#[derive(Debug, Clone)]
pub struct ChatRequest {
    pub model: String,
    pub prompt: String,
    pub stream: bool,
}

/// A whole answer, or the error the server reported.
#[derive(Debug, Clone)]
pub struct ChatResponse {
    pub response: String,
    pub error: Option<String>,
}

/// One line of a streamed answer.
#[derive(Debug, Clone)]
pub struct ChatStreamResponse {
    pub response: String,
    pub done: bool,
    pub error: Option<String>,
}

} // verus!
