//! Options accepted by the scanners: user-supplied exclude patterns.

use vstd::prelude::*;

verus! {

#[derive(Debug)]
pub struct LanguageScannerOptions {
    pub exclude: Vec<String>,
}

impl Default for LanguageScannerOptions {
    fn default() -> (r: Self)
        ensures
            r.exclude@.len() == 0,
    {
        LanguageScannerOptions { exclude: Vec::new() }
    }
}

#[derive(Debug)]
pub struct ScannerOptions {
    pub exclude: Vec<String>,
}

impl Default for ScannerOptions {
    fn default() -> (r: Self)
        ensures
            r.exclude@.len() == 0,
    {
        ScannerOptions { exclude: Vec::new() }
    }
}

} // verus!
