//! The library's error type. Errors coming from outside code are carried
//! as their rendered messages, so that contracts can speak about them.

use vstd::prelude::*;

verus! {

#[derive(Debug)]
pub enum TechScanError {
    IoError(String),
    ConfigError(String),
    ValidationError(String),
    DirectoryNotFound(String),
}

/// The descriptive message of an error, as a sequence of characters.
pub open spec fn spec_error_message(e: &TechScanError) -> Seq<char> {
    match e {
        TechScanError::IoError(m) => "I/O error: "@ + m@,
        TechScanError::ConfigError(m) => "Configuration error: "@ + m@,
        TechScanError::ValidationError(m) => "Validation error: "@ + m@,
        TechScanError::DirectoryNotFound(p) => "Directory not found: "@ + p@,
    }
}

impl TechScanError {
    /// A single descriptive message for reporting the error.
    pub fn message(&self) -> (r: String)
        ensures
            r@ == spec_error_message(self),
    {
        match self {
            TechScanError::IoError(m) => {
                let mut s = String::from_str("I/O error: ");
                s.append(m.as_str());
                s
            },
            TechScanError::ConfigError(m) => {
                let mut s = String::from_str("Configuration error: ");
                s.append(m.as_str());
                s
            },
            TechScanError::ValidationError(m) => {
                let mut s = String::from_str("Validation error: ");
                s.append(m.as_str());
                s
            },
            TechScanError::DirectoryNotFound(p) => {
                let mut s = String::from_str("Directory not found: ");
                s.append(p.as_str());
                s
            },
        }
    }
}

} // verus!
