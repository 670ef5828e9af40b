//! The model server's client logic.
pub mod ollama;
