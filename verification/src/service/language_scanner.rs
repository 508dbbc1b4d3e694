//! The scanner: checks the root, walks the tree behind the trusted
//! walker boundary, and aggregates the discovered files into a
//! `LanguageReport` whose contents are pinned to `spec_analyze`.

use crate::config::language_config::spec_registry;
use crate::entity::error::TechScanError;
use crate::entity::file::{file_wf, File, FileV};
use crate::entity::language_report::{report_wf, LanguageReport};
use crate::entity::language_scanner_options::LanguageScannerOptions;
use crate::service::aggregate::{
    aggregate_items, file_views, items_view, lemma_insert_desc_char, lemma_report_counts_bounded,
    lemma_report_items_ordered, pair_item, spec_analyze, spec_pairs, spec_report_pairs,
    spec_sort_pairs, PairV,
};
use crate::service::walk::{
    build_err, glob_err, globs_of, override_builder_add, override_builder_build,
    override_builder_new, path_exists, walk_new, walk_next, walk_pending,
};
use vstd::prelude::*;

verus! {

/// The sorted pairs are never more numerous than the registry indices
/// they are drawn from.
pub proof fn lemma_pairs_len(files: Seq<FileV>, n: int)
    ensures
        spec_pairs(files, n).len() <= (if n >= 0 {
            n
        } else {
            0
        }),
    decreases n,
{
    if n > 0 {
        lemma_pairs_len(files, n - 1);
    }
}

pub proof fn lemma_sort_pairs_len(s: Seq<PairV>)
    ensures
        spec_sort_pairs(s).len() == s.len(),
    decreases s.len(),
{
    if s.len() > 0 {
        lemma_sort_pairs_len(s.drop_last());
        lemma_insert_desc_char(spec_sort_pairs(s.drop_last()), s.last());
    }
}

/// The override globs a scanner hands to the walker: the two fixed
/// global excludes, then each user pattern behind the inverting `!`.
pub open spec fn spec_scan_globs(exclude: Seq<Seq<char>>) -> Seq<Seq<char>> {
    seq!["!.git"@, "!.DS_Store"@] + exclude.map_values(|p: Seq<char>| "!"@ + p)
}

/// The position of the first glob the matcher refuses, if any.
pub open spec fn spec_first_bad_glob(globs: Seq<Seq<char>>) -> Option<int>
    decreases globs.len(),
{
    if globs.len() == 0 {
        None
    } else if glob_err(globs[0]) is Some {
        Some(0int)
    } else {
        match spec_first_bad_glob(globs.skip(1)) {
            Some(i) => Some(i + 1),
            None => None,
        }
    }
}

pub proof fn lemma_first_bad_glob_at(globs: Seq<Seq<char>>, i: int)
    requires
        0 <= i < globs.len(),
        glob_err(globs[i]) is Some,
        forall|k: int| 0 <= k < i ==> glob_err(#[trigger] globs[k]) is None,
    ensures
        spec_first_bad_glob(globs) == Some(i),
    decreases globs.len(),
{
    if i > 0 {
        assert forall|k: int| 0 <= k < i - 1 implies glob_err(#[trigger] globs.skip(1)[k])
            is None by {
            assert(globs.skip(1)[k] == globs[k + 1]);
        }
        assert(globs.skip(1)[i - 1] == globs[i]);
        lemma_first_bad_glob_at(globs.skip(1), i - 1);
    }
}

pub proof fn lemma_first_bad_glob_none(globs: Seq<Seq<char>>)
    requires
        forall|k: int| 0 <= k < globs.len() ==> glob_err(#[trigger] globs[k]) is None,
    ensures
        spec_first_bad_glob(globs) is None,
    decreases globs.len(),
{
    if globs.len() > 0 {
        assert forall|k: int| 0 <= k < globs.len() - 1 implies glob_err(
            #[trigger] globs.skip(1)[k],
        ) is None by {
            assert(globs.skip(1)[k] == globs[k + 1]);
        }
        lemma_first_bad_glob_none(globs.skip(1));
    }
}

/// The message reported for a glob the matcher refuses; the first two
/// globs are the fixed global excludes.
pub open spec fn spec_add_error_message(glob: Seq<char>, global: bool, e: Seq<char>) -> Seq<
    char,
> {
    (if global {
        "Failed to add global exclude pattern '"@
    } else {
        "Failed to add exclude pattern '"@
    }) + glob + "': "@ + e
}

/// How setting up the walk over the given user patterns fails, if it
/// does: the message for the first refused glob, else for a failed
/// compile of the override set, else nothing — the walk then starts.
pub open spec fn spec_scan_error(exclude: Seq<Seq<char>>) -> Option<Seq<char>> {
    let globs = spec_scan_globs(exclude);
    match spec_first_bad_glob(globs) {
        Some(i) => Some(spec_add_error_message(globs[i], i < 2, glob_err(globs[i])->Some_0)),
        None => match build_err(globs) {
            Some(m) => Some("Failed to build overrides: "@ + m),
            None => None,
        },
    }
}

#[derive(Debug)]
pub struct LanguageScanner {
    pub dir: String,
    pub opts: LanguageScannerOptions,
}

impl LanguageScanner {
    /// Builds a scanner for a root directory; a root that does not exist
    /// on disk is rejected with `DirectoryNotFound` naming that root.
    pub fn new(dir: &str, opts: Option<LanguageScannerOptions>) -> (r: Result<
        Self,
        TechScanError,
    >)
        ensures
            r matches Ok(s) ==> s.dir@ == dir@,
            r matches Ok(s) ==> match opts {
                Some(o) => s.opts == o,
                None => s.opts.exclude@.len() == 0,
            },
            r is Err ==> r->Err_0 is DirectoryNotFound,
            r matches Err(TechScanError::DirectoryNotFound(p)) ==> p@ == dir@,
    {
        if !path_exists(dir) {
            return Err(TechScanError::DirectoryNotFound(String::from_str(dir)));
        }
        let opts = match opts {
            Some(o) => o,
            None => LanguageScannerOptions::default(),
        };
        Ok(LanguageScanner { dir: String::from_str(dir), opts })
    }

    /// The message for a pattern the override matcher refuses.
    fn add_error(pattern: &str, global: bool, e: String) -> (r: String)
        ensures
            r@ == spec_add_error_message(pattern@, global, e@),
    {
        let mut m = if global {
            String::from_str("Failed to add global exclude pattern '")
        } else {
            String::from_str("Failed to add exclude pattern '")
        };
        m.append(pattern);
        m.append("': ");
        m.append(e.as_str());
        proof {
            assert(m@ =~= spec_add_error_message(pattern@, global, e@));
        }
        m
    }

    /// Configures the walk: the two global excludes and each user pattern
    /// are added as inverted override globs, in that order; the first
    /// refused pattern is reported as a `ValidationError` naming it,
    /// before any directory entry is visited.
    fn walk_dir(&self) -> (r: Result<ignore::Walk, TechScanError>)
        ensures
            r is Ok <==> spec_scan_error(self.opts.exclude.deep_view()) is None,
            r matches Err(e) ==> (e matches TechScanError::ValidationError(m) && m@
                == spec_scan_error(self.opts.exclude.deep_view())->Some_0),
    {
        let ghost dx = self.opts.exclude.deep_view();
        let ghost globs = spec_scan_globs(dx);
        proof {
            reveal_strlit("!.git");
            reveal_strlit("!.DS_Store");
            assert(globs.len() == 2 + dx.len());
            assert(globs[0] == "!.git"@);
            assert(globs[1] == "!.DS_Store"@);
        }
        let mut ob = override_builder_new(self.dir.as_str());
        match override_builder_add(&mut ob, "!.git") {
            Ok(_) => {},
            Err(e) => {
                proof {
                    lemma_first_bad_glob_at(globs, 0);
                }
                return Err(
                    TechScanError::ValidationError(Self::add_error("!.git", true, e)),
                );
            },
        }
        match override_builder_add(&mut ob, "!.DS_Store") {
            Ok(_) => {},
            Err(e) => {
                proof {
                    lemma_first_bad_glob_at(globs, 1);
                }
                return Err(
                    TechScanError::ValidationError(Self::add_error("!.DS_Store", true, e)),
                );
            },
        }
        proof {
            assert(globs_of(ob) =~= globs.take(2));
        }
        let mut i: usize = 0;
        while i < self.opts.exclude.len()
            invariant
                dx == self.opts.exclude.deep_view(),
                globs == spec_scan_globs(dx),
                self.opts.exclude@.len() == dx.len(),
                globs.len() == 2 + dx.len(),
                i <= dx.len(),
                globs_of(ob) == globs.take(2 + i as int),
                forall|k: int| 0 <= k < 2 + i ==> glob_err(#[trigger] globs[k]) is None,
            decreases self.opts.exclude@.len() - i,
        {
            let mut g = String::from_str("!");
            g.append(self.opts.exclude[i].as_str());
            proof {
                reveal_strlit("!");
                assert(dx[i as int] == self.opts.exclude@[i as int]@);
                assert(globs[2 + i as int] == "!"@ + dx[i as int]);
                assert(g@ == globs[2 + i as int]);
                assert(g@.len() > 0 && g@[0] == '!');
            }
            match override_builder_add(&mut ob, g.as_str()) {
                Ok(_) => {
                    proof {
                        assert(globs.take(2 + i as int + 1) =~= globs.take(2 + i as int).push(
                            globs[2 + i as int],
                        ));
                    }
                },
                Err(e) => {
                    proof {
                        lemma_first_bad_glob_at(globs, 2 + i as int);
                    }
                    return Err(
                        TechScanError::ValidationError(Self::add_error(g.as_str(), false, e)),
                    );
                },
            }
            i = i + 1;
        }
        proof {
            assert(globs.take(2 + dx.len() as int) =~= globs);
            lemma_first_bad_glob_none(globs);
        }
        match override_builder_build(&ob) {
            Err(e) => {
                let mut m = String::from_str("Failed to build overrides: ");
                m.append(e.as_str());
                proof {
                    assert(m@ =~= "Failed to build overrides: "@ + e@);
                }
                Err(TechScanError::ValidationError(m))
            },
            Ok(ov) => Ok(walk_new(self.dir.as_str(), ov)),
        }
    }

    /// Walks the root and collects every regular file found, honoring the
    /// ignore rules and the exclude patterns, together with the message
    /// of every entry the walker reported an error for: such entries are
    /// skipped and the walk goes on. The walk fails only before it
    /// starts, on the first refused pattern, with a `ValidationError`
    /// naming it.
    pub fn scan_with_warnings(&self) -> (r: Result<(Vec<File>, Vec<String>), TechScanError>)
        ensures
            r is Ok <==> spec_scan_error(self.opts.exclude.deep_view()) is None,
            r matches Ok(fw) ==> forall|k: int|
                0 <= k < fw.0@.len() ==> file_wf((#[trigger] fw.0@[k])@),
            r matches Err(e) ==> (e matches TechScanError::ValidationError(m) && m@
                == spec_scan_error(self.opts.exclude.deep_view())->Some_0),
    {
        match self.walk_dir() {
            Err(e) => Err(e),
            Ok(mut walk) => {
                let mut files: Vec<File> = Vec::new();
                let mut warnings: Vec<String> = Vec::new();
                loop
                    invariant
                        forall|k: int| 0 <= k < files@.len() ==> file_wf((#[trigger] files@[k])@),
                    ensures
                        forall|k: int| 0 <= k < files@.len() ==> file_wf((#[trigger] files@[k])@),
                    decreases walk_pending(walk),
                {
                    match walk_next(&mut walk) {
                        None => {
                            break ;
                        },
                        Some(Ok((path, is_file))) => {
                            if is_file {
                                files.push(File::from_path(path.as_str()));
                            }
                        },
                        Some(Err(e)) => {
                            // the entry is skipped; the caller may log this
                            warnings.push(e);
                        },
                    }
                }
                Ok((files, warnings))
            },
        }
    }

    /// As `scan_with_warnings`, discarding the per-entry messages.
    pub fn scan(&self) -> (r: Result<Vec<File>, TechScanError>)
        ensures
            r is Ok <==> spec_scan_error(self.opts.exclude.deep_view()) is None,
            r matches Ok(files) ==> forall|k: int|
                0 <= k < files@.len() ==> file_wf((#[trigger] files@[k])@),
            r matches Err(e) ==> (e matches TechScanError::ValidationError(m) && m@
                == spec_scan_error(self.opts.exclude.deep_view())->Some_0),
    {
        match self.scan_with_warnings() {
            Ok((files, _)) => Ok(files),
            Err(e) => Err(e),
        }
    }

    /// Aggregates discovered files into the report: grouped by language,
    /// counted, and ordered; the result is exactly `spec_analyze` over
    /// the scanner's directory and the files.
    pub fn analyze(&self, files: Vec<File>) -> (r: LanguageReport)
        ensures
            r@ == spec_analyze(self.dir@, file_views(files@)),
            report_wf(r@),
            forall|a: int, b: int|
                0 <= a < b < r@.languages.len() ==> (#[trigger] r@.languages[a]).file_count
                    >= (#[trigger] r@.languages[b]).file_count,
    {
        let ghost fv = file_views(files@);
        let items = aggregate_items(&files);
        let total = files.len() as u64;
        let report = LanguageReport {
            dir: self.dir.clone(),
            total_file_count: total,
            languages: items,
        };
        proof {
            let n = spec_registry().len() as int;
            let ps = spec_report_pairs(fv);
            assert(report@.languages =~= items_view(report.languages@));
            assert(report@.languages == ps.map_values(|p: PairV| pair_item(p)));
            assert(report@ =~= spec_analyze(self.dir@, fv));
            lemma_report_counts_bounded(self.dir@, fv);
            assert forall|i: int| 0 <= i < report@.languages.len() implies (
            #[trigger] report@.languages[i]).file_count
                == report@.languages[i].file_paths.len() by {
                assert(report@.languages[i] == pair_item(ps[i]));
            }
            lemma_pairs_len(fv, n);
            lemma_sort_pairs_len(spec_pairs(fv, n));
            lemma_report_items_ordered(self.dir@, fv);
        }
        report
    }
}

} // verus!
