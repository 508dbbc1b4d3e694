//! An earlier scanner shape kept for compatibility: the same walk and
//! aggregation as `LanguageScanner`, reporting its errors as plain
//! messages and producing a `ScannerReport`.

use crate::config::language_config::spec_registry;
use crate::entity::file::{file_wf, File};
use crate::entity::language::clone_strings;
use crate::entity::language_report::report_wf;
use crate::entity::language_scanner_options::ScannerOptions;
use crate::entity::scanner_report::{ScannerLanguage, ScannerReport};
use crate::service::aggregate::{
    aggregate_items, file_views, items_view, lemma_report_counts_bounded,
    lemma_report_items_ordered, pair_item, spec_analyze, spec_pairs, spec_report_pairs, PairV,
};
use crate::service::language_scanner::{
    lemma_first_bad_glob_at, lemma_first_bad_glob_none, lemma_pairs_len, lemma_sort_pairs_len,
    spec_add_error_message, spec_scan_error, spec_scan_globs,
};
use crate::service::walk::{
    glob_err, globs_of, override_builder_add, override_builder_build, override_builder_new,
    path_exists, walk_new, walk_next, walk_pending,
};
use vstd::prelude::*;

verus! {

pub struct Scanner {
    pub dir: String,
    pub opts: ScannerOptions,
}

impl Scanner {
    /// Builds a scanner for a root directory; a root that does not exist
    /// on disk is rejected with a message naming that root.
    pub fn new(dir: String, opts: Option<ScannerOptions>) -> (r: Result<Self, String>)
        ensures
            r matches Ok(s) ==> s.dir@ == dir@,
            r matches Ok(s) ==> match opts {
                Some(o) => s.opts == o,
                None => s.opts.exclude@.len() == 0,
            },
            r matches Err(e) ==> e@ == "Directory does not exist: "@ + dir@,
    {
        if !path_exists(dir.as_str()) {
            let mut m = String::from_str("Directory does not exist: ");
            m.append(dir.as_str());
            return Err(m);
        }
        let opts = match opts {
            Some(o) => o,
            None => ScannerOptions::default(),
        };
        Ok(Scanner { dir, opts })
    }

    /// The message for a pattern the override matcher refuses.
    fn add_error(pattern: &str, global: bool, e: String) -> (r: String)
        ensures
            r@ == spec_add_error_message(pattern@, global, e@),
    {
        let mut m = if global {
            String::from_str("Failed to add global exclude pattern '")
        } else {
            String::from_str("Failed to add exclude pattern '")
        };
        m.append(pattern);
        m.append("': ");
        m.append(e.as_str());
        proof {
            assert(m@ =~= spec_add_error_message(pattern@, global, e@));
        }
        m
    }

    /// Configures the walk exactly as `LanguageScanner` does, reporting
    /// the first refused pattern as a plain message, before any
    /// directory entry is visited.
    fn walk_dir(&self) -> (r: Result<ignore::Walk, String>)
        ensures
            r is Ok <==> spec_scan_error(self.opts.exclude.deep_view()) is None,
            r matches Err(e) ==> e@ == spec_scan_error(self.opts.exclude.deep_view())->Some_0,
    {
        let ghost dx = self.opts.exclude.deep_view();
        let ghost globs = spec_scan_globs(dx);
        proof {
            reveal_strlit("!.git");
            reveal_strlit("!.DS_Store");
            assert(globs.len() == 2 + dx.len());
            assert(globs[0] == "!.git"@);
            assert(globs[1] == "!.DS_Store"@);
        }
        let mut ob = override_builder_new(self.dir.as_str());
        match override_builder_add(&mut ob, "!.git") {
            Ok(_) => {},
            Err(e) => {
                proof {
                    lemma_first_bad_glob_at(globs, 0);
                }
                return Err(Self::add_error("!.git", true, e));
            },
        }
        match override_builder_add(&mut ob, "!.DS_Store") {
            Ok(_) => {},
            Err(e) => {
                proof {
                    lemma_first_bad_glob_at(globs, 1);
                }
                return Err(Self::add_error("!.DS_Store", true, e));
            },
        }
        proof {
            assert(globs_of(ob) =~= globs.take(2));
        }
        let mut i: usize = 0;
        while i < self.opts.exclude.len()
            invariant
                dx == self.opts.exclude.deep_view(),
                globs == spec_scan_globs(dx),
                self.opts.exclude@.len() == dx.len(),
                globs.len() == 2 + dx.len(),
                i <= dx.len(),
                globs_of(ob) == globs.take(2 + i as int),
                forall|k: int| 0 <= k < 2 + i ==> glob_err(#[trigger] globs[k]) is None,
            decreases self.opts.exclude@.len() - i,
        {
            let mut g = String::from_str("!");
            g.append(self.opts.exclude[i].as_str());
            proof {
                reveal_strlit("!");
                assert(dx[i as int] == self.opts.exclude@[i as int]@);
                assert(globs[2 + i as int] == "!"@ + dx[i as int]);
                assert(g@ == globs[2 + i as int]);
                assert(g@.len() > 0 && g@[0] == '!');
            }
            match override_builder_add(&mut ob, g.as_str()) {
                Ok(_) => {
                    proof {
                        assert(globs.take(2 + i as int + 1) =~= globs.take(2 + i as int).push(
                            globs[2 + i as int],
                        ));
                    }
                },
                Err(e) => {
                    proof {
                        lemma_first_bad_glob_at(globs, 2 + i as int);
                    }
                    return Err(Self::add_error(g.as_str(), false, e));
                },
            }
            i = i + 1;
        }
        proof {
            assert(globs.take(2 + dx.len() as int) =~= globs);
            lemma_first_bad_glob_none(globs);
        }
        match override_builder_build(&ob) {
            Err(e) => {
                let mut m = String::from_str("Failed to build overrides: ");
                m.append(e.as_str());
                proof {
                    assert(m@ =~= "Failed to build overrides: "@ + e@);
                }
                Err(m)
            },
            Ok(ov) => Ok(walk_new(self.dir.as_str(), ov)),
        }
    }

    /// Walks the root and collects every regular file found, honoring the
    /// ignore rules and the exclude patterns, together with the message
    /// of every entry the walker reported an error for: such entries are
    /// skipped and the walk goes on. The walk fails only before it
    /// starts, on the first refused pattern, naming it.
    pub fn scan_with_warnings(&self) -> (r: Result<(Vec<File>, Vec<String>), String>)
        ensures
            r is Ok <==> spec_scan_error(self.opts.exclude.deep_view()) is None,
            r matches Ok(fw) ==> forall|k: int|
                0 <= k < fw.0@.len() ==> file_wf((#[trigger] fw.0@[k])@),
            r matches Err(e) ==> e@ == spec_scan_error(self.opts.exclude.deep_view())->Some_0,
    {
        match self.walk_dir() {
            Err(e) => Err(e),
            Ok(mut walk) => {
                let mut files: Vec<File> = Vec::new();
                let mut warnings: Vec<String> = Vec::new();
                loop
                    invariant
                        forall|k: int| 0 <= k < files@.len() ==> file_wf((#[trigger] files@[k])@),
                    ensures
                        forall|k: int| 0 <= k < files@.len() ==> file_wf((#[trigger] files@[k])@),
                    decreases walk_pending(walk),
                {
                    match walk_next(&mut walk) {
                        None => {
                            break ;
                        },
                        Some(Ok((path, is_file))) => {
                            if is_file {
                                files.push(File::from_path(path.as_str()));
                            }
                        },
                        Some(Err(e)) => {
                            // the entry is skipped; the caller may log this
                            warnings.push(e);
                        },
                    }
                }
                Ok((files, warnings))
            },
        }
    }

    /// As `scan_with_warnings`, discarding the per-entry messages.
    pub fn scan(&self) -> (r: Result<Vec<File>, String>)
        ensures
            r is Ok <==> spec_scan_error(self.opts.exclude.deep_view()) is None,
            r matches Ok(files) ==> forall|k: int|
                0 <= k < files@.len() ==> file_wf((#[trigger] files@[k])@),
            r matches Err(e) ==> e@ == spec_scan_error(self.opts.exclude.deep_view())->Some_0,
    {
        match self.scan_with_warnings() {
            Ok((files, _)) => Ok(files),
            Err(e) => Err(e),
        }
    }

    /// Aggregates discovered files into the report: grouped by language,
    /// counted, and ordered; the result is exactly `spec_analyze` over
    /// the scanner's directory and the files.
    pub fn analyze(&self, files: Vec<File>) -> (r: ScannerReport)
        ensures
            r@ == spec_analyze(self.dir@, file_views(files@)),
            report_wf(r@),
            forall|a: int, b: int|
                0 <= a < b < r@.languages.len() ==> (#[trigger] r@.languages[a]).file_count
                    >= (#[trigger] r@.languages[b]).file_count,
    {
        let ghost fv = file_views(files@);
        let items = aggregate_items(&files);
        let mut languages: Vec<ScannerLanguage> = Vec::new();
        let mut i: usize = 0;
        while i < items.len()
            invariant
                i <= items.len(),
                languages@.len() == i,
                forall|k: int| 0 <= k < i ==> (#[trigger] languages@[k])@ == items@[k]@,
            decreases items.len() - i,
        {
            let it = &items[i];
            languages.push(
                ScannerLanguage {
                    language: it.language.clone(),
                    file_count: it.file_count,
                    file_paths: clone_strings(&it.file_paths),
                },
            );
            i = i + 1;
        }
        let total = files.len() as u64;
        let report = ScannerReport { dir: self.dir.clone(), total_file_count: total, languages };
        proof {
            let n = spec_registry().len() as int;
            let ps = spec_report_pairs(fv);
            assert(items_view(items@) == ps.map_values(|p: PairV| pair_item(p)));
            assert forall|k: int| 0 <= k < report@.languages.len() implies (
            #[trigger] report@.languages[k]) == ps.map_values(|p: PairV| pair_item(p))[k] by {
                assert(report@.languages[k] == report.languages@[k]@);
                assert(items_view(items@)[k] == items@[k]@);
            }
            assert(report@.languages =~= ps.map_values(|p: PairV| pair_item(p)));
            assert(report@ =~= spec_analyze(self.dir@, fv));
            lemma_report_counts_bounded(self.dir@, fv);
            assert forall|k: int| 0 <= k < report@.languages.len() implies (
            #[trigger] report@.languages[k]).file_count
                == report@.languages[k].file_paths.len() by {
                assert(report@.languages[k] == pair_item(ps[k]));
            }
            lemma_pairs_len(fv, n);
            lemma_sort_pairs_len(spec_pairs(fv, n));
            lemma_report_items_ordered(self.dir@, fv);
        }
        report
    }
}

} // verus!
