//! Terminal views: wrapping and styling of the text shown, and language
//! detection for code blocks.
pub mod blocks;
pub mod highlight;
pub mod chat;
pub mod logs;
pub mod markdown;
pub mod panels;
pub mod render;
pub mod style;
pub mod syntax;
