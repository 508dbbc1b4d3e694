//! Rendering of a `LanguageReport`: format validation, the JSON document
//! and the two tables with percentages over the classified-file count.

use crate::entity::language_report::{
    lemma_count_le_sum, lemma_sum_counts_prefix, report_wf, spec_sum_counts, LanguageReport,
    LanguageReportItem, ReportItemV, ReportV,
};
use crate::json::{append_indent, append_item_json, append_json_string, spec_items_array,
    spec_items_pretty, spec_report_json};
use crate::service::aggregate::items_view;
use crate::table::{
    build_sharp_table, builder_new, builder_push_record, format_percentage, row2, row3, rows_of,
    spec_percentage, spec_sharp_table,
};
use crate::text::{spec_u64_string, u64_to_string};
use vstd::prelude::*;

verus! {

/// The message given for an unknown format token; it names the supported
/// tokens.
pub open spec fn spec_unsupported_format(format: Seq<char>) -> Seq<char> {
    "Unsupported reporter format: '"@ + format + "'. Supported formats: table, json."@
}

/// Sums the file counts of the items; `bound` caps the sum so that it
/// stays a machine integer.
fn sum_item_counts(items: &Vec<LanguageReportItem>, bound: u64) -> (s: u64)
    requires
        spec_sum_counts(items_view(items@)) <= bound as int,
    ensures
        s as int == spec_sum_counts(items_view(items@)),
{
    let ghost iv = items_view(items@);
    proof {
        assert forall|k: int| 0 <= k < iv.len() implies (#[trigger] iv[k]).file_count >= 0 by {
            assert(iv[k] == items@[k]@);
        }
    }
    let mut s: u64 = 0;
    let mut i: usize = 0;
    proof {
        assert(iv.take(0) =~= Seq::<ReportItemV>::empty());
    }
    while i < items.len()
        invariant
            iv == items_view(items@),
            forall|k: int| 0 <= k < iv.len() ==> (#[trigger] iv[k]).file_count >= 0,
            spec_sum_counts(iv) <= bound as int,
            i <= items.len(),
            s as int == spec_sum_counts(iv.take(i as int)),
        decreases items.len() - i,
    {
        proof {
            assert(iv.take(i as int + 1).drop_last() =~= iv.take(i as int));
            assert(iv.take(i as int + 1).last() == iv[i as int]);
            assert(iv[i as int] == items@[i as int]@);
            lemma_sum_counts_prefix(iv, i as int + 1);
        }
        s = s + items[i].file_count;
        i = i + 1;
    }
    proof {
        assert(iv.take(items@.len() as int) =~= iv);
    }
    s
}

/// The summary table rows: headers, directory, and the three counts.
pub open spec fn spec_summary_rows(r: ReportV, detected: int) -> Seq<Seq<Seq<char>>> {
    seq![
        seq!["Item"@, "Value"@],
        seq!["Directory"@, r.dir],
        seq!["Total Files"@, spec_u64_string(r.total_file_count as nat)],
        seq!["Language Files"@, spec_u64_string(detected as nat)],
        seq!["Excluded Files"@, spec_u64_string((r.total_file_count - detected) as nat)],
    ]
}

/// The per-language table rows: name, file count, percentage of the
/// classified files.
pub open spec fn spec_lang_rows(items: Seq<ReportItemV>, denom: int) -> Seq<Seq<Seq<char>>>
    decreases items.len(),
{
    if items.len() == 0 {
        Seq::empty()
    } else {
        spec_lang_rows(items.drop_last(), denom).push(
            seq![
                items.last().language.name,
                spec_u64_string(items.last().file_count as nat),
                spec_percentage(items.last().file_count, denom),
            ],
        )
    }
}

/// Every per-language row has exactly the three cells.
pub proof fn lemma_lang_rows_width(items: Seq<ReportItemV>, denom: int)
    ensures
        spec_lang_rows(items, denom).len() == items.len(),
        forall|k: int|
            0 <= k < items.len() ==> (#[trigger] spec_lang_rows(items, denom)[k]).len() == 3,
    decreases items.len(),
{
    if items.len() > 0 {
        lemma_lang_rows_width(items.drop_last(), denom);
        assert forall|k: int| 0 <= k < items.len() implies (#[trigger] spec_lang_rows(
            items,
            denom,
        )[k]).len() == 3 by {
            if k < items.len() - 1 {
                assert(spec_lang_rows(items, denom)[k] == spec_lang_rows(
                    items.drop_last(),
                    denom,
                )[k]);
            }
        }
    }
}

/// The full tabular rendering: a titled summary table and a titled
/// per-language table, centered headers, joined by blank lines.
pub open spec fn spec_language_table(r: ReportV) -> Seq<char> {
    let detected = spec_sum_counts(r.languages);
    "=== Scan Summary ===\n"@ + spec_sharp_table(spec_summary_rows(r, detected), 0)
        + "\n\n=== Language Statistics ===\n"@ + spec_sharp_table(
        seq![seq!["Language"@, "Files"@, "Percentage"@]] + spec_lang_rows(r.languages, detected),
        r.languages.len() as int + 1,
    )
}

pub struct LanguageReporter;

impl Default for LanguageReporter {
    fn default() -> Self {
        Self::new()
    }
}

impl LanguageReporter {
    pub fn new() -> Self {
        LanguageReporter
    }

    /// Accepts exactly the tokens `table` and `json`; any other token is
    /// rejected with a message naming the supported tokens.
    pub fn validate_format(format: &str) -> (r: Result<(), String>)
        ensures
            r is Ok <==> (format@ == "table"@ || format@ == "json"@),
            r is Err ==> r->Err_0@ == spec_unsupported_format(format@),
    {
        let f = format.to_owned();
        if f.eq(&String::from_str("table")) || f.eq(&String::from_str("json")) {
            Ok(())
        } else {
            let mut m = String::from_str("Unsupported reporter format: '");
            m.append(format);
            m.append("'. Supported formats: table, json.");
            proof {
                assert(m@ =~= spec_unsupported_format(format@));
            }
            Err(m)
        }
    }

    /// The report as a pretty JSON document.
    pub fn to_json(&self, report: &LanguageReport) -> (r: Result<String, String>)
        ensures
            r is Ok,
            r matches Ok(s) ==> s@ == spec_report_json(
                report@.dir,
                report@.total_file_count,
                report@.languages,
            ),
    {
        let ghost items = report@.languages;
        let mut out = String::new();
        out.append("{\n");
        append_indent(&mut out, 1);
        out.append("\"dir\": ");
        append_json_string(&mut out, report.dir.as_str());
        out.append(",\n");
        append_indent(&mut out, 1);
        out.append("\"total_file_count\": ");
        out.append(u64_to_string(report.total_file_count).as_str());
        out.append(",\n");
        append_indent(&mut out, 1);
        out.append("\"languages\": ");
        let ghost before_items = out@;
        if report.languages.len() == 0 {
            out.append("[]");
            proof {
                assert(out@ =~= before_items + spec_items_array(items, 1));
            }
        } else {
            out.append("[\n");
            let mut i: usize = 0;
            while i < report.languages.len()
                invariant
                    items == report@.languages,
                    report@.languages.len() == report.languages@.len(),
                    i <= report.languages@.len(),
                    out@ == before_items + "[\n"@ + spec_items_pretty(items.take(i as int), 2),
                decreases report.languages@.len() - i,
            {
                if i > 0 {
                    out.append(",\n");
                }
                append_indent(&mut out, 2);
                let it = &report.languages[i];
                append_item_json(&mut out, &it.language, it.file_count, &it.file_paths, 2);
                proof {
                    assert(items.take(i as int + 1).drop_last() =~= items.take(i as int));
                    assert(items.take(i as int + 1).last() == items[i as int]);
                    assert(items[i as int] == report.languages@[i as int]@);
                    assert(out@ =~= before_items + "[\n"@ + spec_items_pretty(
                        items.take(i as int + 1),
                        2,
                    ));
                }
                i = i + 1;
            }
            out.append("\n");
            append_indent(&mut out, 1);
            out.append("]");
            proof {
                assert(items.take(items.len() as int) =~= items);
                assert(out@ =~= before_items + spec_items_array(items, 1));
            }
        }
        out.append("\n}");
        proof {
            assert(out@ =~= spec_report_json(
                report@.dir,
                report@.total_file_count,
                report@.languages,
            ));
        }
        Ok(out)
    }

    /// The report as two rendered tables. Requires a well-formed report:
    /// counts match the path lists and never outnumber the total.
    pub fn to_table(&self, report: &LanguageReport) -> (r: Result<String, String>)
        requires
            report_wf(report@),
        ensures
            r is Ok,
            r matches Ok(s) ==> s@ == spec_language_table(report@),
    {
        let ghost items = report@.languages;
        proof {
            assert(items_view(report.languages@) =~= items);
        }
        let detected = sum_item_counts(&report.languages, report.total_file_count);
        let excluded = report.total_file_count - detected;

        let mut sb = builder_new();
        builder_push_record(&mut sb, row2(String::from_str("Item"), String::from_str("Value")));
        builder_push_record(&mut sb, row2(String::from_str("Directory"), report.dir.clone()));
        builder_push_record(
            &mut sb,
            row2(String::from_str("Total Files"), u64_to_string(report.total_file_count)),
        );
        builder_push_record(
            &mut sb,
            row2(String::from_str("Language Files"), u64_to_string(detected)),
        );
        builder_push_record(
            &mut sb,
            row2(String::from_str("Excluded Files"), u64_to_string(excluded)),
        );
        proof {
            assert(rows_of(sb) =~= spec_summary_rows(report@, detected as int));
        }
        let summary = build_sharp_table(sb, 0);

        let mut lb = builder_new();
        builder_push_record(
            &mut lb,
            row3(
                String::from_str("Language"),
                String::from_str("Files"),
                String::from_str("Percentage"),
            ),
        );
        let ghost header = seq![seq!["Language"@, "Files"@, "Percentage"@]];
        proof {
            assert(rows_of(lb) =~= header + spec_lang_rows(items.take(0), detected as int));
        }
        let mut i: usize = 0;
        while i < report.languages.len()
            invariant
                report_wf(report@),
                items == report@.languages,
                report@.languages.len() == report.languages@.len(),
                detected as int == spec_sum_counts(items),
                i <= report.languages@.len(),
                header == seq![seq!["Language"@, "Files"@, "Percentage"@]],
                rows_of(lb) == header + spec_lang_rows(items.take(i as int), detected as int),
            decreases report.languages@.len() - i,
        {
            proof {
                assert(items[i as int] == report.languages@[i as int]@);
                assert forall|k: int| 0 <= k < items.len() implies (#[trigger] items[k]).file_count
                    >= 0 by {
                    assert(items[k] == report.languages@[k]@);
                }
                lemma_count_le_sum(items, i as int);
            }
            let it = &report.languages[i];
            let row = row3(
                it.language.name.clone(),
                u64_to_string(it.file_count),
                format_percentage(it.file_count, detected),
            );
            proof {
                lemma_lang_rows_width(items.take(i as int), detected as int);
                assert(items.take(i as int).len() == i as int);
                assert(header.len() == 1);
                assert(rows_of(lb).len() == 1 + i as int);
                assert forall|j: int| 0 <= j < rows_of(lb).len() implies (
                #[trigger] rows_of(lb)[j]).len() == 3 by {
                    if j == 0 {
                        assert(rows_of(lb)[0] == header[0]);
                        assert(header[0].len() == 3);
                    } else {
                        assert(rows_of(lb)[j] == spec_lang_rows(
                            items.take(i as int),
                            detected as int,
                        )[j - 1]);
                    }
                }
            }
            builder_push_record(&mut lb, row);
            proof {
                assert(items.take(i as int + 1).drop_last() =~= items.take(i as int));
                assert(items.take(i as int + 1).last() == items[i as int]);
                assert(rows_of(lb) =~= header + spec_lang_rows(
                    items.take(i as int + 1),
                    detected as int,
                ));
            }
            i = i + 1;
        }
        proof {
            assert(items.take(items.len() as int) =~= items);
        }
        let last_row = report.languages.len() + 1;
        let lang_table = build_sharp_table(lb, last_row);

        let mut out = String::from_str("=== Scan Summary ===\n");
        out.append(summary.as_str());
        out.append("\n\n=== Language Statistics ===\n");
        out.append(lang_table.as_str());
        proof {
            assert(out@ =~= spec_language_table(report@));
        }
        Ok(out)
    }

    /// Renders the report in the requested format; an unknown token is
    /// rejected with the descriptive message, before any rendering.
    pub fn render(&self, report: &LanguageReport, format: &str) -> (r: Result<String, String>)
        requires
            report_wf(report@),
        ensures
            r is Ok <==> (format@ == "table"@ || format@ == "json"@),
            r matches Ok(s) ==> (format@ == "json"@ ==> s@ == spec_report_json(
                report@.dir,
                report@.total_file_count,
                report@.languages,
            )) && (format@ == "table"@ ==> s@ == spec_language_table(report@)),
            r matches Err(e) ==> e@ == spec_unsupported_format(format@),
    {
        proof {
            reveal_strlit("table");
            reveal_strlit("json");
            assert("table"@.len() == 5);
            assert("json"@.len() == 4);
            assert("table"@ != "json"@);
        }
        match Self::validate_format(format) {
            Err(e) => Err(e),
            Ok(_) => {
                let f = format.to_owned();
                if f.eq(&String::from_str("json")) {
                    self.to_json(report)
                } else {
                    self.to_table(report)
                }
            },
        }
    }
}

} // verus!
