pub mod language_config;
pub mod reporter_format;

pub use language_config::LanguageConfig;
pub use reporter_format::{REPORTER_FORMAT_JSON, REPORTER_FORMAT_TABLE};
