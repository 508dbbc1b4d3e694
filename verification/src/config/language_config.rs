//! The registry of recognized languages and the extension classifier.
//! The registry is a fixed table; lookups return the first entry whose
//! extension list contains the (already normalized) extension.

use crate::entity::file::FileV;
use crate::entity::language::{Language, LanguageV};
use crate::text::{lower_of, lowercase};
use vstd::prelude::*;

verus! {

/// The fixed table of recognized languages, in registry order.
pub open spec fn spec_registry() -> Seq<LanguageV> {
    seq![
        LanguageV { name: "Astro"@, exts: seq!["astro"@] },
        LanguageV { name: "C"@, exts: seq!["c"@] },
        LanguageV { name: "C++"@, exts: seq!["cpp"@, "cc"@, "cxx"@] },
        LanguageV { name: "C#"@, exts: seq!["cs"@] },
        LanguageV { name: "COBOL"@, exts: seq!["cbl"@, "cob"@, "cobol"@] },
        LanguageV { name: "CSS"@, exts: seq!["css"@] },
        LanguageV { name: "Dart"@, exts: seq!["dart"@] },
        LanguageV { name: "Elixir"@, exts: seq!["ex"@, "exs"@] },
        LanguageV { name: "Go"@, exts: seq!["go"@] },
        LanguageV { name: "Haskell"@, exts: seq!["hs"@] },
        LanguageV { name: "HTML"@, exts: seq!["html"@, "htm"@] },
        LanguageV { name: "Java"@, exts: seq!["java"@] },
        LanguageV { name: "JavaScript"@, exts: seq!["js"@, "mjs"@, "cjs"@, "jsx"@] },
        LanguageV { name: "Kotlin"@, exts: seq!["kt"@, "kts"@] },
        LanguageV { name: "Lua"@, exts: seq!["lua"@] },
        LanguageV { name: "Objective-C"@, exts: seq!["m"@, "mm"@] },
        LanguageV { name: "Perl"@, exts: seq!["pl"@, "pm"@] },
        LanguageV { name: "PHP"@, exts: seq!["php"@] },
        LanguageV { name: "Python"@, exts: seq!["py"@] },
        LanguageV { name: "R"@, exts: seq!["r"@, "R"@] },
        LanguageV { name: "Ruby"@, exts: seq!["rb"@] },
        LanguageV { name: "Rust"@, exts: seq!["rs"@] },
        LanguageV { name: "Scala"@, exts: seq!["scala"@, "sc"@] },
        LanguageV { name: "SCSS"@, exts: seq!["scss"@, "sass"@] },
        LanguageV { name: "Shell"@, exts: seq!["sh"@] },
        LanguageV { name: "Svelte"@, exts: seq!["svelte"@] },
        LanguageV { name: "Swift"@, exts: seq!["swift"@] },
        LanguageV { name: "TypeScript"@, exts: seq!["ts"@, "mts"@, "cts"@, "tsx"@] },
        LanguageV { name: "Vue"@, exts: seq!["vue"@] },
    ]
}

pub open spec fn lang_has_ext(l: LanguageV, ext: Seq<char>) -> bool {
    exists|j: int| 0 <= j < l.exts.len() && l.exts[j] == ext
}

/// The position of the first language in `langs` that lists `ext`.
pub open spec fn spec_first_match(langs: Seq<LanguageV>, ext: Seq<char>) -> Option<int>
    decreases langs.len(),
{
    if langs.len() == 0 {
        None
    } else if lang_has_ext(langs[0], ext) {
        Some(0int)
    } else {
        match spec_first_match(langs.skip(1), ext) {
            Some(i) => Some(i + 1),
            None => None,
        }
    }
}

/// The position of the first language in `langs` with the given name.
pub open spec fn spec_first_name(langs: Seq<LanguageV>, name: Seq<char>) -> Option<int>
    decreases langs.len(),
{
    if langs.len() == 0 {
        None
    } else if langs[0].name == name {
        Some(0int)
    } else {
        match spec_first_name(langs.skip(1), name) {
            Some(i) => Some(i + 1),
            None => None,
        }
    }
}

/// The language an (exact, already lowercased) extension maps to.
pub open spec fn spec_detect_language(ext: Seq<char>) -> Option<LanguageV> {
    match spec_first_match(spec_registry(), ext) {
        Some(i) => Some(spec_registry()[i]),
        None => None,
    }
}

pub open spec fn spec_language_by_name(name: Seq<char>) -> Option<LanguageV> {
    match spec_first_name(spec_registry(), name) {
        Some(i) => Some(spec_registry()[i]),
        None => None,
    }
}

/// The registry index a discovered file classifies to: its extension is
/// lowercased and looked up; files without an extension classify to none.
pub open spec fn spec_classify(f: FileV) -> Option<int> {
    match f.ext {
        Some(e) => spec_first_match(spec_registry(), lower_of(e)),
        None => None,
    }
}

pub proof fn lemma_first_match_props(langs: Seq<LanguageV>, ext: Seq<char>)
    ensures
        match spec_first_match(langs, ext) {
            Some(i) => 0 <= i < langs.len() && lang_has_ext(langs[i], ext) && forall|k: int|
                0 <= k < i ==> !lang_has_ext(#[trigger] langs[k], ext),
            None => forall|k: int| 0 <= k < langs.len() ==> !lang_has_ext(#[trigger] langs[k], ext),
        },
    decreases langs.len(),
{
    if langs.len() > 0 && !lang_has_ext(langs[0], ext) {
        lemma_first_match_props(langs.skip(1), ext);
        match spec_first_match(langs.skip(1), ext) {
            Some(i) => {
                assert(langs.skip(1)[i] == langs[i + 1]);
                assert forall|k: int| 0 <= k < i + 1 implies !lang_has_ext(
                    #[trigger] langs[k],
                    ext,
                ) by {
                    if k > 0 {
                        assert(langs.skip(1)[k - 1] == langs[k]);
                    }
                }
            },
            None => {
                assert forall|k: int| 0 <= k < langs.len() implies !lang_has_ext(
                    #[trigger] langs[k],
                    ext,
                ) by {
                    if k > 0 {
                        assert(langs.skip(1)[k - 1] == langs[k]);
                    }
                }
            },
        }
    }
}

/// The first match is exactly the index before which nothing matches.
pub proof fn lemma_first_match_at(langs: Seq<LanguageV>, ext: Seq<char>, i: int)
    requires
        0 <= i < langs.len(),
        lang_has_ext(langs[i], ext),
        forall|k: int| 0 <= k < i ==> !lang_has_ext(#[trigger] langs[k], ext),
    ensures
        spec_first_match(langs, ext) == Some(i),
    decreases langs.len(),
{
    if i > 0 {
        assert forall|k: int| 0 <= k < i - 1 implies !lang_has_ext(
            #[trigger] langs.skip(1)[k],
            ext,
        ) by {
            assert(langs.skip(1)[k] == langs[k + 1]);
        }
        assert(langs.skip(1)[i - 1] == langs[i]);
        lemma_first_match_at(langs.skip(1), ext, i - 1);
    }
}

pub proof fn lemma_first_name_props(langs: Seq<LanguageV>, name: Seq<char>)
    ensures
        match spec_first_name(langs, name) {
            Some(i) => 0 <= i < langs.len() && langs[i].name == name,
            None => forall|k: int| 0 <= k < langs.len() ==> (#[trigger] langs[k]).name != name,
        },
    decreases langs.len(),
{
    if langs.len() > 0 && langs[0].name != name {
        lemma_first_name_props(langs.skip(1), name);
        match spec_first_name(langs.skip(1), name) {
            Some(i) => {
                assert(langs.skip(1)[i] == langs[i + 1]);
            },
            None => {
                assert forall|k: int| 0 <= k < langs.len() implies (#[trigger] langs[k]).name
                    != name by {
                    if k > 0 {
                        assert(langs.skip(1)[k - 1] == langs[k]);
                    }
                }
            },
        }
    }
}

pub proof fn lemma_first_name_at(langs: Seq<LanguageV>, name: Seq<char>, i: int)
    requires
        0 <= i < langs.len(),
        langs[i].name == name,
        forall|k: int| 0 <= k < i ==> (#[trigger] langs[k]).name != name,
    ensures
        spec_first_name(langs, name) == Some(i),
    decreases langs.len(),
{
    if i > 0 {
        assert forall|k: int| 0 <= k < i - 1 implies (#[trigger] langs.skip(1)[k]).name != name by {
            assert(langs.skip(1)[k] == langs[k + 1]);
        }
        assert(langs.skip(1)[i - 1] == langs[i]);
        lemma_first_name_at(langs.skip(1), name, i - 1);
    }
}

/// A runtime language table that matches the fixed registry, entry by entry.
pub open spec fn is_registry(langs: Seq<Language>) -> bool {
    &&& langs.len() == spec_registry().len()
    &&& forall|i: int| 0 <= i < langs.len() ==> (#[trigger] langs[i])@ == spec_registry()[i]
}

fn strs1(a: &str) -> (r: Vec<String>)
    ensures
        r.deep_view() == seq![a@],
{
    let mut v: Vec<String> = Vec::new();
    v.push(String::from_str(a));
    proof {
        assert(v.deep_view() =~= seq![a@]);
    }
    v
}

fn strs2(a: &str, b: &str) -> (r: Vec<String>)
    ensures
        r.deep_view() == seq![a@, b@],
{
    let mut v: Vec<String> = Vec::new();
    v.push(String::from_str(a));
    v.push(String::from_str(b));
    proof {
        assert(v.deep_view() =~= seq![a@, b@]);
    }
    v
}

fn strs3(a: &str, b: &str, c: &str) -> (r: Vec<String>)
    ensures
        r.deep_view() == seq![a@, b@, c@],
{
    let mut v: Vec<String> = Vec::new();
    v.push(String::from_str(a));
    v.push(String::from_str(b));
    v.push(String::from_str(c));
    proof {
        assert(v.deep_view() =~= seq![a@, b@, c@]);
    }
    v
}

fn strs4(a: &str, b: &str, c: &str, d: &str) -> (r: Vec<String>)
    ensures
        r.deep_view() == seq![a@, b@, c@, d@],
{
    let mut v: Vec<String> = Vec::new();
    v.push(String::from_str(a));
    v.push(String::from_str(b));
    v.push(String::from_str(c));
    v.push(String::from_str(d));
    proof {
        assert(v.deep_view() =~= seq![a@, b@, c@, d@]);
    }
    v
}

fn mk_lang(name: &str, exts: Vec<String>) -> (r: Language)
    ensures
        r@ == (LanguageV { name: name@, exts: exts.deep_view() }),
{
    Language { name: String::from_str(name), exts }
}

/// Builds the runtime registry; it matches `spec_registry` exactly.
pub fn supported_languages() -> (r: Vec<Language>)
    ensures
        is_registry(r@),
{
    let mut v: Vec<Language> = Vec::new();
    v.push(mk_lang("Astro", strs1("astro")));
    v.push(mk_lang("C", strs1("c")));
    v.push(mk_lang("C++", strs3("cpp", "cc", "cxx")));
    v.push(mk_lang("C#", strs1("cs")));
    v.push(mk_lang("COBOL", strs3("cbl", "cob", "cobol")));
    v.push(mk_lang("CSS", strs1("css")));
    v.push(mk_lang("Dart", strs1("dart")));
    v.push(mk_lang("Elixir", strs2("ex", "exs")));
    v.push(mk_lang("Go", strs1("go")));
    v.push(mk_lang("Haskell", strs1("hs")));
    v.push(mk_lang("HTML", strs2("html", "htm")));
    v.push(mk_lang("Java", strs1("java")));
    v.push(mk_lang("JavaScript", strs4("js", "mjs", "cjs", "jsx")));
    v.push(mk_lang("Kotlin", strs2("kt", "kts")));
    v.push(mk_lang("Lua", strs1("lua")));
    v.push(mk_lang("Objective-C", strs2("m", "mm")));
    v.push(mk_lang("Perl", strs2("pl", "pm")));
    v.push(mk_lang("PHP", strs1("php")));
    v.push(mk_lang("Python", strs1("py")));
    v.push(mk_lang("R", strs2("r", "R")));
    v.push(mk_lang("Ruby", strs1("rb")));
    v.push(mk_lang("Rust", strs1("rs")));
    v.push(mk_lang("Scala", strs2("scala", "sc")));
    v.push(mk_lang("SCSS", strs2("scss", "sass")));
    v.push(mk_lang("Shell", strs1("sh")));
    v.push(mk_lang("Svelte", strs1("svelte")));
    v.push(mk_lang("Swift", strs1("swift")));
    v.push(mk_lang("TypeScript", strs4("ts", "mts", "cts", "tsx")));
    v.push(mk_lang("Vue", strs1("vue")));
    proof {
        assert forall|i: int| 0 <= i < v@.len() implies (#[trigger] v@[i])@ == spec_registry()[i]
        by {}
    }
    v
}

/// Whether one of the strings equals `ext`, at the level of values.
fn contains_string(exts: &Vec<String>, ext: &String) -> (r: bool)
    ensures
        r == exists|j: int| 0 <= j < exts.deep_view().len() && exts.deep_view()[j] == ext@,
{
    let mut j: usize = 0;
    while j < exts.len()
        invariant
            j <= exts.len(),
            forall|k: int| 0 <= k < j ==> exts.deep_view()[k] != ext@,
        decreases exts.len() - j,
    {
        if exts[j].eq(ext) {
            proof {
                assert(exts.deep_view()[j as int] == ext@);
            }
            return true;
        }
        j = j + 1;
    }
    false
}

/// The index in `langs` of the first language listing `ext`, as
/// `spec_first_match` gives it.
pub fn detect_index(langs: &Vec<Language>, ext: &String) -> (r: Option<usize>)
    requires
        is_registry(langs@),
    ensures
        match r {
            Some(i) => spec_first_match(spec_registry(), ext@) == Some(i as int),
            None => spec_first_match(spec_registry(), ext@) is None,
        },
{
    let mut i: usize = 0;
    while i < langs.len()
        invariant
            is_registry(langs@),
            i <= langs.len(),
            forall|k: int| 0 <= k < i ==> !lang_has_ext(#[trigger] spec_registry()[k], ext@),
        decreases langs.len() - i,
    {
        if contains_string(&langs[i].exts, ext) {
            proof {
                assert(langs@[i as int]@.exts == spec_registry()[i as int].exts);
                assert(lang_has_ext(spec_registry()[i as int], ext@));
                lemma_first_match_at(spec_registry(), ext@, i as int);
            }
            return Some(i);
        }
        proof {
            assert(langs@[i as int]@.exts == spec_registry()[i as int].exts);
        }
        i = i + 1;
    }
    proof {
        lemma_first_match_props(spec_registry(), ext@);
    }
    None
}

/// Lowercases an extension and finds the registry index it maps to.
pub fn classify_file(langs: &Vec<Language>, ext: &str) -> (r: Option<usize>)
    requires
        is_registry(langs@),
    ensures
        match r {
            Some(i) => spec_first_match(spec_registry(), lower_of(ext@)) == Some(i as int),
            None => spec_first_match(spec_registry(), lower_of(ext@)) is None,
        },
{
    let low = lowercase(ext);
    detect_index(langs, &low)
}

pub struct LanguageConfig;

impl LanguageConfig {
    /// Looks an extension up in the registry; the first entry listing the
    /// exact extension wins, and unknown extensions map to nothing.
    pub fn detect_language(ext: &str) -> (r: Option<Language>)
        ensures
            match r {
                Some(l) => spec_detect_language(ext@) == Some(l@),
                None => spec_detect_language(ext@) is None,
            },
    {
        let langs = supported_languages();
        let e = ext.to_owned();
        match detect_index(&langs, &e) {
            Some(i) => {
                proof {
                    lemma_first_match_props(spec_registry(), e@);
                }
                Some(langs[i].clone())
            },
            None => None,
        }
    }

    /// Looks a language up by its display name.
    pub fn get_language_by_name(name: &str) -> (r: Option<Language>)
        ensures
            match r {
                Some(l) => spec_language_by_name(name@) == Some(l@),
                None => spec_language_by_name(name@) is None,
            },
    {
        let langs = supported_languages();
        let n = name.to_owned();
        let mut i: usize = 0;
        while i < langs.len()
            invariant
                is_registry(langs@),
                n@ == name@,
                i <= langs.len(),
                forall|k: int| 0 <= k < i ==> (#[trigger] spec_registry()[k]).name != name@,
            decreases langs.len() - i,
        {
            if langs[i].name.eq(&n) {
                proof {
                    assert(langs@[i as int]@.name == spec_registry()[i as int].name);
                    lemma_first_name_at(spec_registry(), name@, i as int);
                }
                return Some(langs[i].clone());
            }
            proof {
                assert(langs@[i as int]@.name == spec_registry()[i as int].name);
            }
            i = i + 1;
        }
        proof {
            lemma_first_name_props(spec_registry(), name@);
        }
        None
    }
}

} // verus!
