//! Configuration defaults.
pub mod settings;

pub use settings::{FileFilterConfig, RateLimitConfig, UiConfig, WatcherConfig};
