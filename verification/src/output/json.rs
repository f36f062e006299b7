//! The report as JSON.

use vstd::prelude::*;

verus! {

/// Renders a report as JSON.
pub struct JsonGenerator;

impl JsonGenerator {
    /// The extension of a JSON report.
    pub fn file_extension(&self) -> (r: &'static str)
        ensures
            r@ == "json"@,
    {
        "json"
    }
}

} // verus!
