//! The report as an HTML page.

use vstd::prelude::*;
use crate::ranking::{rank, ranking, ranking_is_sorted};
use crate::stats::ProjectStats;
use crate::tally::{amount_of, amounts};
use crate::text::owned;

verus! {

/// Renders a report as an HTML page.
pub struct HtmlGenerator;

impl HtmlGenerator {
    /// The extension of an HTML report.
    pub fn file_extension(&self) -> (r: &'static str)
        ensures
            r@ == "html"@,
    {
        "html"
    }
}

/// One extension in the table of file types.
pub struct ExtensionRow {
    /// The extension.
    pub extension: String,
    /// The number of files with it.
    pub count: u64,
    /// The number of lines in them.
    pub lines: u64,
}

/// The table of file types: one row per extension, the extension with the
/// most files first; extensions with equally many files stand in the order
/// in which they were first met. Each row holds the number of files and
/// the number of lines counted for its extension.
pub fn prepare_extensions_data(stats: &ProjectStats) -> (rows: Vec<ExtensionRow>)
    requires
        stats.wf(),
    ensures
        rows@.len() == stats@.files_by_extension.len(),
        forall|k: int|
            0 <= k < rows@.len() ==> {
                let at = ranking(amounts(stats@.files_by_extension))[k] as int;
                &&& 0 <= at < stats@.files_by_extension.len()
                &&& (#[trigger] rows@[k]).extension@ == stats@.files_by_extension[at].0
                &&& rows@[k].count == stats@.files_by_extension[at].1
                &&& rows@[k].lines == amount_of(
                    stats@.lines_by_extension,
                    stats@.files_by_extension[at].0,
                )
            },
{
    let files = stats.files_by_extension();
    let lines = stats.lines_by_extension();
    let counts = files.all_amounts();
    let order = rank(&counts);
    proof {
        ranking_is_sorted(counts@);
    }
    let mut rows: Vec<ExtensionRow> = Vec::new();
    let mut k: usize = 0;
    while k < order.len()
        invariant
            k <= order@.len(),
            order@ == ranking(amounts(files@)),
            order@.len() == files@.len(),
            forall|j: int| 0 <= j < order@.len() ==> 0 <= #[trigger] order@[j] < files@.len(),
            files@ == stats@.files_by_extension,
            lines@ == stats@.lines_by_extension,
            lines.wf(),
            rows@.len() == k,
            forall|j: int|
                0 <= j < k ==> {
                    let at = order@[j] as int;
                    &&& (#[trigger] rows@[j]).extension@ == files@[at].0
                    &&& rows@[j].count == files@[at].1
                    &&& rows@[j].lines == amount_of(lines@, files@[at].0)
                },
        decreases order@.len() - k,
    {
        let at = order[k];
        let extension = files.extension_at(at);
        rows.push(
            ExtensionRow {
                extension: owned(extension),
                count: files.amount_at(at),
                lines: lines.get(extension),
            },
        );
        k += 1;
    }
    rows
}

} // verus!
