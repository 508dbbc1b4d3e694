//! Classifies the files under a directory tree by programming language,
//! inferred from each file's extension, and aggregates the result into a
//! report with per-language file counts, file lists and totals, rendered
//! either as a JSON document or as human-readable tables.

pub mod config;
pub mod entity;
pub mod json;
pub mod service;
pub mod table;
pub mod text;

pub use config::{LanguageConfig, REPORTER_FORMAT_JSON, REPORTER_FORMAT_TABLE};
pub use entity::{
    AppConfig, File, Language, LanguageReport, LanguageReportItem, LanguageScannerOptions,
    ScannerLanguage, ScannerOptions, ScannerReport, TechScanError,
};
pub use service::{ConfigBuilder, LanguageReporter, LanguageScanner, Reporter, Scanner};
