pub mod aggregate;
pub mod config_builder;
pub mod language_reporter;
pub mod language_scanner;
pub mod reporter;
pub mod scanner;
pub mod walk;

pub use config_builder::ConfigBuilder;
pub use language_reporter::LanguageReporter;
pub use language_scanner::LanguageScanner;
pub use reporter::Reporter;
pub use scanner::Scanner;
