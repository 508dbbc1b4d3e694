//! Aggregation of discovered files into per-language report items:
//! grouping by classified language, counting, and ordering the items by
//! file count descending with ties broken by registry position.

use crate::config::language_config::{
    classify_file, is_registry, lemma_first_match_props, spec_classify, spec_registry,
    supported_languages,
};
use crate::entity::file::{File, FileV};
use crate::entity::language_report::{LanguageReportItem, ReportItemV, ReportV};
use vstd::prelude::*;

verus! {

/// The view of every file in a vector, in order.
pub open spec fn file_views(files: Seq<File>) -> Seq<FileV> {
    Seq::new(files.len(), |i: int| files[i]@)
}

/// The view of every report item in a vector, in order.
pub open spec fn items_view(items: Seq<LanguageReportItem>) -> Seq<ReportItemV> {
    Seq::new(items.len(), |i: int| items[i]@)
}

/// The paths of the files classifying to registry index `lang`, in
/// discovery order.
pub open spec fn spec_bucket(files: Seq<FileV>, lang: int) -> Seq<Seq<char>>
    decreases files.len(),
{
    if files.len() == 0 {
        Seq::empty()
    } else if spec_classify(files.last()) == Some(lang) {
        spec_bucket(files.drop_last(), lang).push(files.last().path)
    } else {
        spec_bucket(files.drop_last(), lang)
    }
}

/// An aggregation pair: a registry index and the bucket of paths at it.
pub type PairV = (int, Seq<Seq<char>>);

/// The pairs for the registry indices below `n` whose bucket is
/// non-empty, in ascending index order.
pub open spec fn spec_pairs(files: Seq<FileV>, n: int) -> Seq<PairV>
    decreases n,
{
    if n <= 0 {
        Seq::empty()
    } else {
        spec_pairs(files, n - 1) + (if spec_bucket(files, n - 1).len() > 0 {
            seq![(n - 1, spec_bucket(files, n - 1))]
        } else {
            Seq::empty()
        })
    }
}

/// Stable insertion of `p` into a sequence sorted by count descending:
/// `p` goes after every pair whose count is at least its own.
pub open spec fn spec_insert_desc(s: Seq<PairV>, p: PairV) -> Seq<PairV>
    decreases s.len(),
{
    if s.len() == 0 {
        seq![p]
    } else if s.last().1.len() >= p.1.len() {
        s.push(p)
    } else {
        spec_insert_desc(s.drop_last(), p).push(s.last())
    }
}

/// The position at which `spec_insert_desc` places a pair of count `c`.
pub open spec fn spec_insert_pos(s: Seq<PairV>, c: nat) -> int
    decreases s.len(),
{
    if s.len() == 0 {
        0
    } else if s.last().1.len() >= c {
        s.len() as int
    } else {
        spec_insert_pos(s.drop_last(), c)
    }
}

/// Insertion sort of the pairs by count descending, stable.
pub open spec fn spec_sort_pairs(s: Seq<PairV>) -> Seq<PairV>
    decreases s.len(),
{
    if s.len() == 0 {
        Seq::empty()
    } else {
        spec_insert_desc(spec_sort_pairs(s.drop_last()), s.last())
    }
}

/// The ordered aggregation of a file sequence: one pair per language
/// with at least one file, sorted by count descending, ties broken by
/// ascending registry index.
pub open spec fn spec_report_pairs(files: Seq<FileV>) -> Seq<PairV> {
    spec_sort_pairs(spec_pairs(files, spec_registry().len() as int))
}

/// The report item a pair stands for.
pub open spec fn pair_item(p: PairV) -> ReportItemV {
    ReportItemV {
        language: spec_registry()[p.0],
        file_count: p.1.len() as int,
        file_paths: p.1,
    }
}

/// The full aggregated report over a directory name and a file sequence.
pub open spec fn spec_analyze(dir: Seq<char>, files: Seq<FileV>) -> ReportV {
    ReportV {
        dir: dir,
        total_file_count: files.len() as int,
        languages: spec_report_pairs(files).map_values(|p: PairV| pair_item(p)),
    }
}

/// `spec_insert_desc` is the same as splitting at `spec_insert_pos`:
/// everything at or past the position has a strictly smaller count, and
/// the element just before it (if any) has at least the count.
pub proof fn lemma_insert_desc_char(s: Seq<PairV>, p: PairV)
    ensures
        0 <= spec_insert_pos(s, p.1.len()) <= s.len(),
        spec_insert_desc(s, p) == s.take(spec_insert_pos(s, p.1.len())) + seq![p] + s.skip(
            spec_insert_pos(s, p.1.len()),
        ),
        forall|k: int|
            spec_insert_pos(s, p.1.len()) <= k < s.len() ==> (#[trigger] s[k]).1.len()
                < p.1.len(),
        spec_insert_pos(s, p.1.len()) > 0 ==> s[spec_insert_pos(s, p.1.len()) - 1].1.len()
            >= p.1.len(),
    decreases s.len(),
{
    let c = p.1.len();
    let pos = spec_insert_pos(s, c);
    if s.len() == 0 {
        assert(spec_insert_desc(s, p) =~= s.take(pos) + seq![p] + s.skip(pos));
    } else if s.last().1.len() >= c {
        assert(spec_insert_desc(s, p) =~= s.take(pos) + seq![p] + s.skip(pos));
    } else {
        lemma_insert_desc_char(s.drop_last(), p);
        let dl = s.drop_last();
        assert(spec_insert_desc(s, p) == spec_insert_desc(dl, p).push(s.last()));
        assert(spec_insert_desc(dl, p) == dl.take(pos) + seq![p] + dl.skip(pos));
        assert(dl.take(pos) =~= s.take(pos));
        assert(dl.skip(pos).push(s.last()) =~= s.skip(pos));
        assert((dl.take(pos) + seq![p] + dl.skip(pos)).push(s.last()) =~= s.take(pos) + seq![p]
            + s.skip(pos));
        assert forall|k: int| pos <= k < s.len() implies (#[trigger] s[k]).1.len() < c by {
            if k < s.len() - 1 {
                assert(s[k] == dl[k]);
            }
        }
        if pos > 0 {
            assert(s[pos - 1] == dl[pos - 1]);
        }
    }
}

/// The exec insertion position is the spec one: it is determined by the
/// two boundary conditions alone.
pub proof fn lemma_insert_pos_unique(s: Seq<PairV>, c: nat, pos: int)
    requires
        0 <= pos <= s.len(),
        forall|k: int| pos <= k < s.len() ==> (#[trigger] s[k]).1.len() < c,
        pos > 0 ==> s[pos - 1].1.len() >= c,
    ensures
        spec_insert_pos(s, c) == pos,
    decreases s.len(),
{
    if s.len() == 0 {
    } else if s.last().1.len() >= c {
        if pos < s.len() {
            assert(s[s.len() - 1].1.len() < c);
        }
    } else {
        let dl = s.drop_last();
        if pos == s.len() {
            assert(s[pos - 1].1.len() < c);
        }
        assert forall|k: int| pos <= k < dl.len() implies (#[trigger] dl[k]).1.len() < c by {
            assert(dl[k] == s[k]);
        }
        if pos > 0 {
            assert(dl[pos - 1] == s[pos - 1]);
        }
        lemma_insert_pos_unique(dl, c, pos);
    }
}

/// The sum of the pair counts.
pub open spec fn spec_sum_pairs(s: Seq<PairV>) -> int
    decreases s.len(),
{
    if s.len() == 0 {
        0
    } else {
        spec_sum_pairs(s.drop_last()) + s.last().1.len()
    }
}

/// The number of files classifying to a registry index below `n`.
pub open spec fn spec_classified_below(files: Seq<FileV>, n: int) -> int
    decreases files.len(),
{
    if files.len() == 0 {
        0
    } else {
        spec_classified_below(files.drop_last(), n) + (match spec_classify(files.last()) {
            Some(i) => if 0 <= i < n {
                1int
            } else {
                0int
            },
            None => 0int,
        })
    }
}

/// The sum of the bucket sizes at the registry indices below `n`.
pub open spec fn spec_sum_buckets(files: Seq<FileV>, n: int) -> int
    decreases n,
{
    if n <= 0 {
        0
    } else {
        spec_sum_buckets(files, n - 1) + spec_bucket(files, n - 1).len()
    }
}

pub proof fn lemma_sum_insert_desc(s: Seq<PairV>, p: PairV)
    ensures
        spec_sum_pairs(spec_insert_desc(s, p)) == spec_sum_pairs(s) + p.1.len(),
    decreases s.len(),
{
    if s.len() == 0 {
        let r = spec_insert_desc(s, p);
        assert(r == seq![p]);
        assert(r.drop_last() =~= Seq::<PairV>::empty());
        assert(r.last() == p);
        assert(spec_sum_pairs(r.drop_last()) == 0);
        assert(spec_sum_pairs(r) == spec_sum_pairs(r.drop_last()) + r.last().1.len());
    } else if s.last().1.len() >= p.1.len() {
        let r = s.push(p);
        assert(r.drop_last() =~= s);
        assert(r.last() == p);
        assert(spec_sum_pairs(r) == spec_sum_pairs(r.drop_last()) + r.last().1.len());
    } else {
        lemma_sum_insert_desc(s.drop_last(), p);
        let t = spec_insert_desc(s.drop_last(), p);
        let r = t.push(s.last());
        assert(r.drop_last() =~= t);
        assert(r.last() == s.last());
        assert(spec_sum_pairs(r) == spec_sum_pairs(r.drop_last()) + r.last().1.len());
        assert(spec_sum_pairs(s) == spec_sum_pairs(s.drop_last()) + s.last().1.len());
    }
}

pub proof fn lemma_sum_sort_pairs(s: Seq<PairV>)
    ensures
        spec_sum_pairs(spec_sort_pairs(s)) == spec_sum_pairs(s),
    decreases s.len(),
{
    if s.len() > 0 {
        lemma_sum_sort_pairs(s.drop_last());
        lemma_sum_insert_desc(spec_sort_pairs(s.drop_last()), s.last());
    }
}

pub proof fn lemma_sum_pairs_buckets(files: Seq<FileV>, n: int)
    ensures
        spec_sum_pairs(spec_pairs(files, n)) == spec_sum_buckets(files, n),
    decreases n,
{
    if n > 0 {
        lemma_sum_pairs_buckets(files, n - 1);
        if spec_bucket(files, n - 1).len() > 0 {
            let s = spec_pairs(files, n - 1) + seq![(n - 1, spec_bucket(files, n - 1))];
            assert(s.drop_last() =~= spec_pairs(files, n - 1));
        } else {
            assert(spec_pairs(files, n) =~= spec_pairs(files, n - 1));
        }
    }
}

pub proof fn lemma_sum_buckets_step(files: Seq<FileV>, n: int)
    requires
        files.len() > 0,
    ensures
        spec_sum_buckets(files, n) == spec_sum_buckets(files.drop_last(), n) + (
        match spec_classify(files.last()) {
            Some(i) => if 0 <= i < n {
                1int
            } else {
                0int
            },
            None => 0int,
        }),
    decreases n,
{
    if n > 0 {
        lemma_sum_buckets_step(files, n - 1);
    }
}

pub proof fn lemma_sum_buckets_classified(files: Seq<FileV>, n: int)
    ensures
        spec_sum_buckets(files, n) == spec_classified_below(files, n),
    decreases files.len(),
{
    if files.len() == 0 {
        lemma_sum_buckets_empty(files, n);
    } else {
        lemma_sum_buckets_classified(files.drop_last(), n);
        lemma_sum_buckets_step(files, n);
    }
}

pub proof fn lemma_sum_buckets_empty(files: Seq<FileV>, n: int)
    requires
        files.len() == 0,
    ensures
        spec_sum_buckets(files, n) == 0,
    decreases n,
{
    if n > 0 {
        lemma_sum_buckets_empty(files, n - 1);
    }
}

pub proof fn lemma_classified_below_le(files: Seq<FileV>, n: int)
    ensures
        0 <= spec_classified_below(files, n) <= files.len(),
    decreases files.len(),
{
    if files.len() > 0 {
        lemma_classified_below_le(files.drop_last(), n);
    }
}

pub proof fn lemma_sum_counts_pairs(s: Seq<PairV>)
    ensures
        crate::entity::language_report::spec_sum_counts(
            s.map_values(|p: PairV| pair_item(p)),
        ) == spec_sum_pairs(s),
    decreases s.len(),
{
    let m = s.map_values(|p: PairV| pair_item(p));
    if s.len() == 0 {
        assert(m.len() == 0);
    } else {
        lemma_sum_counts_pairs(s.drop_last());
        assert(m.drop_last() =~= s.drop_last().map_values(|p: PairV| pair_item(p)));
        assert(m.last() == pair_item(s.last()));
    }
}

/// LAW: for every directory name and file sequence, the sum of the report
/// items' file counts is exactly the number of classified files, and never
/// exceeds the report's total file count.
pub proof fn lemma_report_counts_bounded(dir: Seq<char>, files: Seq<FileV>)
    ensures
        crate::entity::language_report::spec_sum_counts(spec_analyze(dir, files).languages)
            == spec_classified_below(files, spec_registry().len() as int),
        crate::entity::language_report::spec_sum_counts(spec_analyze(dir, files).languages)
            <= spec_analyze(dir, files).total_file_count,
{
    let n = spec_registry().len() as int;
    lemma_sum_counts_pairs(spec_report_pairs(files));
    lemma_sum_sort_pairs(spec_pairs(files, n));
    lemma_sum_pairs_buckets(files, n);
    lemma_sum_buckets_classified(files, n);
    lemma_classified_below_le(files, n);
}

/// The strict order the report items obey: greater count first, and among
/// equal counts the smaller registry index first.
pub open spec fn pair_before(a: PairV, b: PairV) -> bool {
    a.1.len() > b.1.len() || (a.1.len() == b.1.len() && a.0 < b.0)
}

pub open spec fn pairs_ordered(s: Seq<PairV>) -> bool {
    forall|a: int, b: int| 0 <= a < b < s.len() ==> pair_before(#[trigger] s[a], #[trigger] s[b])
}

pub proof fn lemma_insert_desc_ordered(s: Seq<PairV>, p: PairV)
    requires
        pairs_ordered(s),
        forall|k: int| 0 <= k < s.len() ==> (#[trigger] s[k]).0 < p.0,
    ensures
        pairs_ordered(spec_insert_desc(s, p)),
        forall|k: int|
            0 <= k < spec_insert_desc(s, p).len() ==> (#[trigger] spec_insert_desc(s, p)[k]) == p
                || exists|j: int| 0 <= j < s.len() && spec_insert_desc(s, p)[k] == s[j],
{
    lemma_insert_desc_char(s, p);
    let r = spec_insert_desc(s, p);
    let pos = spec_insert_pos(s, p.1.len());
    assert forall|k: int| 0 <= k < r.len() implies (#[trigger] r[k]) == p || exists|j: int|
        0 <= j < s.len() && r[k] == s[j] by {
        if k < pos {
            assert(r[k] == s[k]);
        } else if k > pos {
            assert(r[k] == s[k - 1]);
        }
    }
    assert forall|a: int, b: int| 0 <= a < b < r.len() implies pair_before(
        #[trigger] r[a],
        #[trigger] r[b],
    ) by {
        if b < pos {
            assert(r[a] == s[a] && r[b] == s[b]);
        } else if b == pos {
            assert(r[b] == p);
            assert(r[a] == s[a]);
            assert(s[pos - 1].1.len() >= p.1.len());
            if a < pos - 1 {
                assert(pair_before(s[a], s[pos - 1]));
            }
        } else {
            assert(r[b] == s[b - 1]);
            assert(s[b - 1].1.len() < p.1.len());
            if a < pos {
                assert(r[a] == s[a]);
                if a == b - 1 {
                } else {
                    assert(pair_before(s[a], s[b - 1]));
                }
            } else if a == pos {
                assert(r[a] == p);
            } else {
                assert(r[a] == s[a - 1]);
                assert(pair_before(s[a - 1], s[b - 1]));
            }
        }
    }
}

pub proof fn lemma_sort_pairs_ordered(s: Seq<PairV>)
    requires
        forall|a: int, b: int| 0 <= a < b < s.len() ==> (#[trigger] s[a]).0 < (#[trigger] s[b]).0,
    ensures
        pairs_ordered(spec_sort_pairs(s)),
        forall|k: int|
            0 <= k < spec_sort_pairs(s).len() ==> exists|j: int|
                0 <= j < s.len() && (#[trigger] spec_sort_pairs(s)[k]) == s[j],
    decreases s.len(),
{
    if s.len() > 0 {
        let dl = s.drop_last();
        assert forall|a: int, b: int| 0 <= a < b < dl.len() implies (#[trigger] dl[a]).0
            < (#[trigger] dl[b]).0 by {
            assert(dl[a] == s[a] && dl[b] == s[b]);
        }
        lemma_sort_pairs_ordered(dl);
        let sorted = spec_sort_pairs(dl);
        assert forall|k: int| 0 <= k < sorted.len() implies (#[trigger] sorted[k]).0
            < s.last().0 by {
            let j = choose|j: int| 0 <= j < dl.len() && sorted[k] == dl[j];
            assert(dl[j] == s[j]);
            assert(s[j].0 < s[s.len() - 1].0);
        }
        lemma_insert_desc_ordered(sorted, s.last());
        assert forall|k: int| 0 <= k < spec_sort_pairs(s).len() implies exists|j: int|
            0 <= j < s.len() && (#[trigger] spec_sort_pairs(s)[k]) == s[j] by {
            let r = spec_sort_pairs(s);
            if r[k] == s.last() {
                assert(r[k] == s[s.len() - 1]);
            } else {
                let j0 = choose|j0: int| 0 <= j0 < sorted.len() && r[k] == sorted[j0];
                let j1 = choose|j1: int| 0 <= j1 < dl.len() && sorted[j0] == dl[j1];
                assert(r[k] == s[j1]);
            }
        }
    }
}

pub proof fn lemma_pairs_ascending(files: Seq<FileV>, n: int)
    ensures
        forall|a: int, b: int|
            0 <= a < b < spec_pairs(files, n).len() ==> (#[trigger] spec_pairs(files, n)[a]).0
                < (#[trigger] spec_pairs(files, n)[b]).0,
        forall|k: int|
            0 <= k < spec_pairs(files, n).len() ==> 0 <= (#[trigger] spec_pairs(files, n)[k]).0
                < n,
        forall|k: int|
            0 <= k < spec_pairs(files, n).len() ==> (#[trigger] spec_pairs(files, n)[k]).1
                == spec_bucket(files, spec_pairs(files, n)[k].0) && spec_pairs(
                files,
                n,
            )[k].1.len() > 0,
    decreases n,
{
    if n > 0 {
        lemma_pairs_ascending(files, n - 1);
        let prev = spec_pairs(files, n - 1);
        let cur = spec_pairs(files, n);
        assert forall|k: int| 0 <= k < prev.len() implies cur[k] == prev[k] by {}
    }
}

/// LAW: the report's items are strictly ordered: by file count
/// descending, and among equal counts by ascending registry index; in
/// particular the item sequence is sorted by count descending.
pub proof fn lemma_report_items_ordered(dir: Seq<char>, files: Seq<FileV>)
    ensures
        pairs_ordered(spec_report_pairs(files)),
        forall|a: int, b: int|
            0 <= a < b < spec_analyze(dir, files).languages.len() ==> (#[trigger] spec_analyze(
                dir,
                files,
            ).languages[a]).file_count >= (#[trigger] spec_analyze(dir, files).languages[b]).file_count,
{
    let n = spec_registry().len() as int;
    lemma_pairs_ascending(files, n);
    lemma_sort_pairs_ordered(spec_pairs(files, n));
    let ps = spec_report_pairs(files);
    let items = spec_analyze(dir, files).languages;
    assert forall|a: int, b: int| 0 <= a < b < items.len() implies (#[trigger] items[a]).file_count
        >= (#[trigger] items[b]).file_count by {
        assert(items[a] == pair_item(ps[a]));
        assert(items[b] == pair_item(ps[b]));
        assert(pair_before(ps[a], ps[b]));
    }
}

/// LAW: aggregation is a function of the directory name and the file
/// sequence alone: two reports built from the same inputs are equal.
pub proof fn lemma_analyze_deterministic(
    dir: Seq<char>,
    files: Seq<FileV>,
    r1: ReportV,
    r2: ReportV,
)
    requires
        r1 == spec_analyze(dir, files),
        r2 == spec_analyze(dir, files),
    ensures
        r1 == r2,
{
}

pub proof fn lemma_bucket_remove(files: Seq<FileV>, k: int, i: int)
    requires
        0 <= k < files.len(),
        spec_classify(files[k]) is None,
    ensures
        spec_bucket(files.remove(k), i) == spec_bucket(files, i),
    decreases files.len(),
{
    let r = files.remove(k);
    if k == files.len() - 1 {
        assert(r =~= files.drop_last());
    } else {
        let dl = files.drop_last();
        assert(r.drop_last() =~= dl.remove(k));
        assert(r.last() == files.last());
        assert(dl[k] == files[k]);
        lemma_bucket_remove(dl, k, i);
    }
}

pub proof fn lemma_pairs_remove(files: Seq<FileV>, k: int, n: int)
    requires
        0 <= k < files.len(),
        spec_classify(files[k]) is None,
    ensures
        spec_pairs(files.remove(k), n) == spec_pairs(files, n),
    decreases n,
{
    if n > 0 {
        lemma_pairs_remove(files, k, n - 1);
        lemma_bucket_remove(files, k, n - 1);
        assert(spec_pairs(files.remove(k), n) =~= spec_pairs(files, n));
    }
}

/// LAW: a file without an extension is counted in the total but appears
/// in no language item: removing it leaves every item untouched and
/// lowers the total by exactly one.
pub proof fn lemma_unclassified_file_invisible(dir: Seq<char>, files: Seq<FileV>, k: int)
    requires
        0 <= k < files.len(),
        files[k].ext is None,
    ensures
        spec_analyze(dir, files).languages == spec_analyze(dir, files.remove(k)).languages,
        spec_analyze(dir, files).total_file_count == spec_analyze(
            dir,
            files.remove(k),
        ).total_file_count + 1,
{
    assert(spec_classify(files[k]) is None);
    lemma_pairs_remove(files, k, spec_registry().len() as int);
}

/// A runtime classifier: the registry index a file classifies to.
pub fn classify_index(langs: &Vec<crate::entity::language::Language>, f: &File) -> (r: Option<
    usize,
>)
    requires
        is_registry(langs@),
    ensures
        match r {
            Some(i) => spec_classify(f@) == Some(i as int) && i < spec_registry().len(),
            None => spec_classify(f@) is None,
        },
{
    match &f.ext {
        None => None,
        Some(e) => {
            let r = classify_file(langs, e.as_str());
            proof {
                if r is Some {
                    lemma_first_match_props(
                        spec_registry(),
                        crate::text::lower_of(e@),
                    );
                }
            }
            r
        },
    }
}

/// Groups the files by language and returns the report items, sorted by
/// file count descending with ties in registry order.
pub fn aggregate_items(files: &Vec<File>) -> (r: Vec<LanguageReportItem>)
    ensures
        items_view(r@) == spec_report_pairs(file_views(files@)).map_values(
            |p: PairV| pair_item(p),
        ),
{
    let ghost fv = file_views(files@);
    let langs = supported_languages();
    let mut items: Vec<LanguageReportItem> = Vec::new();
    let ghost mut pairs: Seq<PairV> = Seq::empty();
    let mut idx: usize = 0;
    proof {
        assert(items_view(items@) =~= pairs.map_values(|p: PairV| pair_item(p)));
    }
    while idx < langs.len()
        invariant
            is_registry(langs@),
            fv == file_views(files@),
            idx <= langs.len(),
            pairs == spec_sort_pairs(spec_pairs(fv, idx as int)),
            items_view(items@) == pairs.map_values(|p: PairV| pair_item(p)),
        decreases langs.len() - idx,
    {
        let mut paths: Vec<String> = Vec::new();
        let mut j: usize = 0;
        while j < files.len()
            invariant
                is_registry(langs@),
                fv == file_views(files@),
                idx < spec_registry().len(),
                j <= files.len(),
                paths.deep_view() == spec_bucket(fv.take(j as int), idx as int),
            decreases files.len() - j,
        {
            proof {
                assert(fv.take(j as int + 1).drop_last() =~= fv.take(j as int));
                assert(fv.take(j as int + 1).last() == fv[j as int]);
            }
            match classify_index(&langs, &files[j]) {
                Some(i) => {
                    if i == idx {
                        paths.push(files[j].path.clone());
                        proof {
                            assert(paths.deep_view() =~= spec_bucket(
                                fv.take(j as int + 1),
                                idx as int,
                            ));
                        }
                    }
                },
                None => {},
            }
            j = j + 1;
        }
        proof {
            assert(fv.take(files@.len() as int) =~= fv);
        }
        let ghost bucket = spec_bucket(fv, idx as int);
        let ghost next_pairs = spec_pairs(fv, idx as int + 1);
        proof {
            if bucket.len() > 0 {
                assert((spec_pairs(fv, idx as int) + seq![(idx as int, bucket)]).drop_last()
                    =~= spec_pairs(fv, idx as int));
                assert(next_pairs == spec_pairs(fv, idx as int) + seq![(idx as int, bucket)]);
                assert(spec_sort_pairs(next_pairs) == spec_insert_desc(
                    spec_sort_pairs(spec_pairs(fv, idx as int)),
                    (idx as int, bucket),
                ));
            } else {
                assert(next_pairs =~= spec_pairs(fv, idx as int));
            }
        }
        if paths.len() > 0 {
            let count = paths.len() as u64;
            let item = LanguageReportItem {
                language: langs[idx].clone(),
                file_count: count,
                file_paths: paths,
            };
            let ghost p: PairV = (idx as int, bucket);
            proof {
                assert(item@ == pair_item(p));
            }
            let mut pos: usize = items.len();
            while pos > 0 && items[pos - 1].file_count < count
                invariant
                    pos <= items@.len(),
                    count == bucket.len(),
                    items_view(items@) == pairs.map_values(|q: PairV| pair_item(q)),
                    forall|k: int|
                        pos <= k < items@.len() ==> (#[trigger] items@[k])@.file_count
                            < count as int,
                decreases pos,
            {
                pos = pos - 1;
            }
            proof {
                assert(items_view(items@).len() == items@.len());
                assert(pairs.map_values(|q: PairV| pair_item(q)).len() == pairs.len());
                assert(pairs.len() == items@.len());
                assert forall|k: int| pos <= k < pairs.len() implies (#[trigger] pairs[k]).1.len()
                    < p.1.len() by {
                    assert(items_view(items@)[k] == items@[k]@);
                    assert(pairs.map_values(|q: PairV| pair_item(q))[k] == pair_item(pairs[k]));
                    assert(items@[k]@ == pair_item(pairs[k]));
                    assert(items@[k]@.file_count < count as int);
                }
                if pos > 0 {
                    assert(items_view(items@)[pos - 1] == items@[pos - 1]@);
                    assert(pairs.map_values(|q: PairV| pair_item(q))[pos - 1] == pair_item(
                        pairs[pos - 1],
                    ));
                    assert(pairs[pos - 1].1.len() >= p.1.len());
                }
                lemma_insert_pos_unique(pairs, p.1.len(), pos as int);
                lemma_insert_desc_char(pairs, p);
            }
            let ghost items_before = items@;
            let ghost pairs_before = pairs;
            items.insert(pos, item);
            proof {
                pairs = spec_insert_desc(pairs_before, p);
                assert(pairs == pairs_before.take(pos as int) + seq![p] + pairs_before.skip(
                    pos as int,
                ));
                assert(items@ == items_before.insert(pos as int, item));
                assert(pairs.len() == items@.len());
                assert forall|k: int| 0 <= k < items@.len() implies items_view(items@)[k]
                    == pairs.map_values(|q: PairV| pair_item(q))[k] by {
                    assert(items_view(items@)[k] == items@[k]@);
                    assert(pairs.map_values(|q: PairV| pair_item(q))[k] == pair_item(pairs[k]));
                    if k < pos {
                        assert(items@[k] == items_before[k]);
                        assert(pairs[k] == pairs_before[k]);
                        assert(items_view(items_before)[k] == items_before[k]@);
                        assert(pairs_before.map_values(|q: PairV| pair_item(q))[k] == pair_item(
                            pairs_before[k],
                        ));
                    } else if k == pos {
                        assert(items@[k] == item);
                        assert(pairs[k] == p);
                    } else {
                        assert(items@[k] == items_before[k - 1]);
                        assert(pairs[k] == pairs_before[k - 1]);
                        assert(items_view(items_before)[k - 1] == items_before[k - 1]@);
                        assert(pairs_before.map_values(|q: PairV| pair_item(q))[k - 1]
                            == pair_item(pairs_before[k - 1]));
                    }
                }
                assert(items_view(items@) =~= pairs.map_values(|q: PairV| pair_item(q)));
            }
        }
        idx = idx + 1;
    }
    proof {
        assert(langs@.len() == spec_registry().len());
    }
    items
}

} // verus!
