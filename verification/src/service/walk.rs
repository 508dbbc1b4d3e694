//! Trusted boundary to the filesystem walker of the `ignore` crate: the
//! override patterns, the recursive walk honoring ignore files, and the
//! existence check on the root path. Everything read from disk comes
//! back as plain values.

use vstd::prelude::*;

verus! {

#[verifier::external_type_specification]
#[verifier::external_body]
pub struct ExOverrideBuilder(ignore::overrides::OverrideBuilder);

#[verifier::external_type_specification]
#[verifier::external_body]
pub struct ExOverride(ignore::overrides::Override);

#[verifier::external_type_specification]
#[verifier::external_body]
pub struct ExWalk(ignore::Walk);

#[verifier::external_type_specification]
#[verifier::external_body]
pub struct ExDirEntry(ignore::DirEntry);

#[verifier::external_type_specification]
#[verifier::external_body]
pub struct ExIgnoreError(ignore::Error);

/// The number of entries a walk has still to yield. The walk visits the
/// filesystem tree as it was at call time, which is finite, so every
/// yielded entry lowers this measure.
pub uninterp spec fn walk_pending(w: ignore::Walk) -> nat;

/// The globs an override builder holds, in the order they were added.
pub uninterp spec fn globs_of(b: ignore::overrides::OverrideBuilder) -> Seq<Seq<char>>;

/// What parsing one override glob (with a leading `!`) yields: the
/// rendered parse-error message, or nothing when the glob is well
/// formed. With the override builder's fixed options the outcome
/// depends on the glob text alone.
pub uninterp spec fn glob_err(glob: Seq<char>) -> Option<Seq<char>>;

/// What compiling a set of well-formed override globs yields: the
/// rendered error message, or nothing on success; it depends on the
/// collected globs alone.
pub uninterp spec fn build_err(globs: Seq<Seq<char>>) -> Option<Seq<char>>;

/// Relies on `std::path::Path::exists`: whether the path points at an
/// existing entity on disk. The answer depends on the disk, so nothing
/// more is promised.
#[verifier::external_body]
pub(crate) fn path_exists(path: &str) -> bool {
    std::path::Path::new(path).exists()
}

/// Relies on `OverrideBuilder::new` of the `ignore` crate: a fresh
/// override builder rooted at `dir`, holding no globs yet, with the
/// builder's fixed options (case-sensitive, unclosed character classes
/// refused).
#[verifier::external_body]
pub(crate) fn override_builder_new(dir: &str) -> (b: ignore::overrides::OverrideBuilder)
    ensures
        globs_of(b) == Seq::<Seq<char>>::empty(),
{
    ignore::overrides::OverrideBuilder::new(dir)
}

/// Relies on `OverrideBuilder::add` of the `ignore` crate: parses one
/// glob, whose leading `!` makes it an exclusion. For a non-empty glob
/// that starts with `!` the source shows: a malformed glob is refused
/// with a message depending on the glob text alone and the builder is
/// left unchanged; a well-formed one is appended to the held globs.
#[verifier::external_body]
pub(crate) fn override_builder_add(
    b: &mut ignore::overrides::OverrideBuilder,
    glob: &str,
) -> (r: Result<(), String>)
    requires
        glob@.len() > 0,
        glob@[0] == '!',
    ensures
        r is Ok <==> glob_err(glob@) is None,
        r is Ok ==> globs_of(*final(b)) == globs_of(*old(b)).push(glob@),
        r matches Err(e) ==> globs_of(*final(b)) == globs_of(*old(b)) && glob_err(glob@)
            == Some(e@),
{
    match b.add(glob) {
        Ok(_) => Ok(()),
        Err(e) => Err(e.to_string()),
    }
}

/// Relies on `OverrideBuilder::build` of the `ignore` crate, which
/// compiles the collected globs into an override matcher; failure and
/// its message depend on the collected globs alone.
#[verifier::external_body]
pub(crate) fn override_builder_build(
    b: &ignore::overrides::OverrideBuilder,
) -> (r: Result<ignore::overrides::Override, String>)
    ensures
        r is Ok <==> build_err(globs_of(*b)) is None,
        r matches Err(e) ==> build_err(globs_of(*b)) == Some(e@),
{
    match b.build() {
        Ok(o) => Ok(o),
        Err(e) => Err(e.to_string()),
    }
}

/// Relies on `WalkBuilder` of the `ignore` crate: a recursive walk of
/// `dir` that honors `.gitignore` files, does not skip hidden entries,
/// applies the override matcher, and does not follow symbolic links
/// (the crate's default).
#[verifier::external_body]
pub(crate) fn walk_new(dir: &str, overrides: ignore::overrides::Override) -> ignore::Walk {
    ignore::WalkBuilder::new(dir).git_ignore(true).hidden(false).overrides(overrides).build()
}

/// Relies on `<Walk as Iterator>::next` of the `ignore` crate: the next
/// entry, as its path and whether it is a regular file, or the error the
/// walker reports for it. What comes back depends on the disk; only that
/// the finite walk advances is promised.
#[verifier::external_body]
pub(crate) fn walk_next(w: &mut ignore::Walk) -> (r: Option<Result<(String, bool), String>>)
    ensures
        r is Some ==> walk_pending(*final(w)) < walk_pending(*old(w)),
{
    match w.next() {
        None => None,
        Some(Err(e)) => Some(Err(e.to_string())),
        Some(Ok(entry)) => {
            let is_file = entry.file_type().map_or(false, |t| t.is_file());
            Some(Ok((entry.path().to_string_lossy().into_owned(), is_file)))
        },
    }
}

} // verus!
