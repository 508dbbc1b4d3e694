pub mod app_config;
pub mod error;
pub mod file;
pub mod language;
pub mod language_report;
pub mod language_scanner_options;
pub mod report;
pub mod scanner_report;

pub use app_config::AppConfig;
pub use error::TechScanError;
pub use file::File;
pub use language::Language;
pub use language_report::{LanguageReport, LanguageReportItem};
pub use language_scanner_options::{LanguageScannerOptions, ScannerOptions};
pub use scanner_report::{ScannerLanguage, ScannerReport};
