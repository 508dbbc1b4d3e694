//! An alternative report shape kept for compatibility; it carries the
//! same data as `language_report` and shares its view.

use crate::entity::language::Language;
use crate::entity::language_report::{ReportItemV, ReportV};
use vstd::prelude::*;

verus! {

#[derive(Debug)]
pub struct Report {
    pub dir: String,
    pub total_file_count: u64,
    pub languages: Vec<LanguageReport>,
}

#[derive(Debug)]
pub struct LanguageReport {
    pub language: Language,
    pub file_count: u64,
    pub file_paths: Vec<String>,
}

impl View for LanguageReport {
    type V = ReportItemV;

    open spec fn view(&self) -> ReportItemV {
        ReportItemV {
            language: self.language@,
            file_count: self.file_count as int,
            file_paths: self.file_paths.deep_view(),
        }
    }
}

impl View for Report {
    type V = ReportV;

    open spec fn view(&self) -> ReportV {
        ReportV {
            dir: self.dir@,
            total_file_count: self.total_file_count as int,
            languages: Seq::new(
                self.languages@.len(),
                |i: int| self.languages@[i]@,
            ),
        }
    }
}

} // verus!
