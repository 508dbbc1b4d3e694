//! The resolved application configuration: exclude patterns and the
//! reporter format, each optional.

use vstd::prelude::*;

verus! {

pub struct AppConfig {
    pub exclude: Option<Vec<String>>,
    pub reporter: Option<String>,
}

impl Default for AppConfig {
    fn default() -> (r: Self)
        ensures
            r.exclude is None,
            r.reporter is None,
    {
        AppConfig { exclude: None, reporter: None }
    }
}

} // verus!
