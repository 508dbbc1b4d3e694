//! A file discovered by the walker, together with the exact model of how
//! its extension is taken from its path.

use crate::text::{last_index_of, lemma_last_index_of_bounds, spec_last_index_of};
use vstd::prelude::*;

verus! {

/// A regular file found under the scanned root. `ext` is the suffix of the
/// final path component after its last `.`, or absent when that component
/// has no `.` or only a leading one (hidden files such as `.gitignore`).
#[derive(Debug)]
pub struct File {
    pub path: String,
    pub ext: Option<String>,
}

pub ghost struct FileV {
    pub path: Seq<char>,
    pub ext: Option<Seq<char>>,
}

/// The final component of a path: everything after the last `/`.
pub open spec fn spec_file_name_start(path: Seq<char>) -> int {
    spec_last_index_of(path, '/') + 1
}

pub open spec fn spec_file_name(path: Seq<char>) -> Seq<char> {
    path.subrange(spec_file_name_start(path), path.len() as int)
}

/// The extension of a path: the part of the file name after its last `.`,
/// absent when the file name contains no `.` past its first character.
pub open spec fn spec_ext_of(path: Seq<char>) -> Option<Seq<char>> {
    let name = spec_file_name(path);
    let dot = spec_last_index_of(name, '.');
    if dot <= 0 {
        None
    } else {
        Some(name.subrange(dot + 1, name.len() as int))
    }
}

pub open spec fn spec_file_of(path: Seq<char>) -> FileV {
    FileV { path: path, ext: spec_ext_of(path) }
}

/// A `File` is well formed when its extension is the one its path yields.
pub open spec fn file_wf(f: FileV) -> bool {
    f.ext == spec_ext_of(f.path)
}

impl View for File {
    type V = FileV;

    open spec fn view(&self) -> FileV {
        FileV {
            path: self.path@,
            ext: match self.ext {
                Some(s) => Some(s@),
                None => None,
            },
        }
    }
}

impl File {
    /// Builds the `File` for a path, extracting the extension from the
    /// final path component.
    pub fn from_path(path: &str) -> (f: File)
        ensures
            f@ == spec_file_of(path@),
            file_wf(f@),
    {
        let n = path.unicode_len();
        let start: usize = match last_index_of(path, '/') {
            Some(i) => {
                proof {
                    lemma_last_index_of_bounds(path@, '/');
                }
                i + 1
            },
            None => 0,
        };
        proof {
            lemma_last_index_of_bounds(path@, '/');
        }
        let name = path.substring_char(start, n);
        let name_len = name.unicode_len();
        let ext: Option<String> = match last_index_of(name, '.') {
            Some(k) if k > 0 => {
                proof {
                    lemma_last_index_of_bounds(name@, '.');
                }
                Some(String::from_str(name.substring_char(k + 1, name_len)))
            },
            _ => None,
        };
        File { path: String::from_str(path), ext }
    }
}

} // verus!
