//! Request and reply bodies of the model server's API.
pub mod types;

pub use types::{ChatRequest, ChatResponse, ChatStreamResponse, EmbedRequest};
