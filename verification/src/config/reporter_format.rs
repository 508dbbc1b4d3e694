//! The tokens naming the two supported report formats.

use vstd::prelude::*;

verus! {

pub const REPORTER_FORMAT_JSON: &'static str = "json";

pub const REPORTER_FORMAT_TABLE: &'static str = "table";

} // verus!
