//! Library of a local semantic code search and chat tool: command parsing,
//! the editing state of the chat input, text chunking, prompt building and
//! the decisions of the event loop.
pub mod text;
pub mod app;
pub mod db;
pub mod scrapper;
pub mod ui;
pub mod input;
pub mod laws;
pub mod properties;
pub mod sort;
pub mod service;
pub mod dev;
pub mod config;
pub mod secrets;
pub mod client;
pub mod clients;
pub mod cli;
pub mod watcher;
