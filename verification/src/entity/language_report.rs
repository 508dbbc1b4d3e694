//! The aggregated report: per-language items and totals. The report
//! shapes used by the different scanners share one mathematical view.

use crate::entity::language::{Language, LanguageV};
use vstd::prelude::*;

verus! {

#[derive(Debug)]
pub struct LanguageReport {
    pub dir: String,
    pub total_file_count: u64,
    pub languages: Vec<LanguageReportItem>,
}

#[derive(Debug)]
pub struct LanguageReportItem {
    pub language: Language,
    pub file_count: u64,
    pub file_paths: Vec<String>,
}

pub ghost struct ReportItemV {
    pub language: LanguageV,
    pub file_count: int,
    pub file_paths: Seq<Seq<char>>,
}

pub ghost struct ReportV {
    pub dir: Seq<char>,
    pub total_file_count: int,
    pub languages: Seq<ReportItemV>,
}

impl View for LanguageReportItem {
    type V = ReportItemV;

    open spec fn view(&self) -> ReportItemV {
        ReportItemV {
            language: self.language@,
            file_count: self.file_count as int,
            file_paths: self.file_paths.deep_view(),
        }
    }
}

impl View for LanguageReport {
    type V = ReportV;

    open spec fn view(&self) -> ReportV {
        ReportV {
            dir: self.dir@,
            total_file_count: self.total_file_count as int,
            languages: Seq::new(
                self.languages@.len(),
                |i: int| self.languages@[i]@,
            ),
        }
    }
}

/// The number of classified files a report accounts for: the sum of its
/// items' counts.
pub open spec fn spec_sum_counts(items: Seq<ReportItemV>) -> int
    decreases items.len(),
{
    if items.len() == 0 {
        0
    } else {
        spec_sum_counts(items.drop_last()) + items.last().file_count
    }
}

/// A well-formed report: every count is the length of the item's path
/// list, and the classified files never outnumber the discovered ones.
pub open spec fn report_wf(r: ReportV) -> bool {
    &&& forall|i: int|
        0 <= i < r.languages.len() ==> (#[trigger] r.languages[i]).file_count
            == r.languages[i].file_paths.len()
    &&& spec_sum_counts(r.languages) <= r.total_file_count
    &&& r.total_file_count <= u64::MAX
    &&& r.languages.len() < usize::MAX
}

pub proof fn lemma_sum_counts_nonneg(items: Seq<ReportItemV>)
    requires
        forall|i: int| 0 <= i < items.len() ==> (#[trigger] items[i]).file_count >= 0,
    ensures
        spec_sum_counts(items) >= 0,
    decreases items.len(),
{
    if items.len() > 0 {
        lemma_sum_counts_nonneg(items.drop_last());
    }
}

/// A prefix of the items accounts for no more files than all of them.
pub proof fn lemma_sum_counts_prefix(items: Seq<ReportItemV>, i: int)
    requires
        0 <= i <= items.len(),
        forall|k: int| 0 <= k < items.len() ==> (#[trigger] items[k]).file_count >= 0,
    ensures
        spec_sum_counts(items.take(i)) <= spec_sum_counts(items),
    decreases items.len() - i,
{
    if i == items.len() {
        assert(items.take(i) =~= items);
    } else {
        assert(items.take(i + 1).drop_last() =~= items.take(i));
        assert(items.take(i + 1).last() == items[i]);
        lemma_sum_counts_prefix(items, i + 1);
    }
}

/// Each single item's count is bounded by the sum of all counts, when
/// counts are non-negative.
pub proof fn lemma_count_le_sum(items: Seq<ReportItemV>, k: int)
    requires
        0 <= k < items.len(),
        forall|i: int| 0 <= i < items.len() ==> (#[trigger] items[i]).file_count >= 0,
    ensures
        items[k].file_count <= spec_sum_counts(items),
    decreases items.len(),
{
    if k == items.len() - 1 {
        lemma_sum_counts_nonneg(items.drop_last());
    } else {
        lemma_count_le_sum(items.drop_last(), k);
        assert(items.drop_last()[k] == items[k]);
    }
}

} // verus!
