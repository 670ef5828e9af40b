//! The chat service: which server and models it uses, and the prompts it
//! builds.
pub mod chat;
pub mod indexing;

pub use chat::ChatService;

use crate::text::to_string;
use vstd::prelude::*;

verus! {

/// Where the model server is and which models answer and embed.
#[derive(Debug, Clone)]
pub struct Config {
    pub base_url: String,
    pub embed_model: String,
    pub chat_model: String,
}

impl Default for Config {
    fn default() -> (c: Config)
        ensures
            c.base_url@ == "http://localhost:11434"@,
            c.embed_model@ == "nomic-embed-text"@,
            c.chat_model@ == "llama3"@,
    {
        Config {
            base_url: to_string("http://localhost:11434"),
            embed_model: to_string("nomic-embed-text"),
            chat_model: to_string("llama3"),
        }
    }
}

} // verus!
