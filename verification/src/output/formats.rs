//! The report as plain text.

use vstd::prelude::*;
use crate::output::{FileInfo, ProjectReport, RenderError};
use crate::stats::stats_text;
use crate::text::{decimal, push_decimal, push_text};

verus! {

/// Renders a report as plain text.
pub struct TextGenerator;

/// The entry of the file at place `place` of the report, counted from one:
/// its number and path, and then its text, or a note that the text is
/// protected or could not be read.
pub open spec fn file_entry(place: nat, f: FileInfo) -> Seq<char> {
    decimal(place) + ". "@ + f.relative_path@ + "\n"@ + (if f.is_sensitive {
        "   [SENSITIVE FILE - Content Protected]\n\n"@
    } else {
        match f.content {
            Some(text) => "\n"@ + text@ + "\n"@,
            None => "   [Unable to read file content]\n"@,
        }
    }) + "\n"@
}

/// The entries of the first `count` files.
pub open spec fn file_entries(files: Seq<FileInfo>, count: nat) -> Seq<char>
    decreases count,
{
    if count == 0 {
        Seq::empty()
    } else {
        file_entries(files, (count - 1) as nat) + file_entry(count, files[count - 1])
    }
}

/// The head of the report: the title, the moment, the project summary and
/// the tree.
pub open spec fn head_text(report: ProjectReport, stamp: Seq<char>) -> Seq<char> {
    "CODETREE PROJECT ANALYSIS\n"@ + "========================\n\n"@ + "Generated: "@ + stamp
        + "\n\n"@ + report.project_info@ + "\n"@ + "Project File Tree:\n"@
        + "==================\n"@ + report.file_tree@ + "\n"@
}

/// The report as plain text, with `stamp` for the moment at which it was
/// made.
pub open spec fn text_report(report: ProjectReport, stamp: Seq<char>) -> Seq<char> {
    head_text(report, stamp) + stats_text(report.statistics@) + "\n"@ + "Project Files:\n"@
        + "==============\n\n"@ + file_entries(report.files@, report.files@.len())
}

/// Appends the entry of one file.
fn push_file_entry(out: &mut String, place: usize, f: &FileInfo)
    ensures
        final(out)@ == old(out)@ + file_entry(place as nat, *f),
{
    push_decimal(out, place as u64);
    push_text(out, ". ");
    push_text(out, f.relative_path.as_str());
    push_text(out, "\n");
    if f.is_sensitive {
        push_text(out, "   [SENSITIVE FILE - Content Protected]\n\n");
    } else {
        match &f.content {
            Some(text) => {
                push_text(out, "\n");
                push_text(out, text.as_str());
                push_text(out, "\n");
            },
            None => {
                push_text(out, "   [Unable to read file content]\n");
            },
        }
    }
    push_text(out, "\n");
    assert(out@ =~= old(out)@ + file_entry(place as nat, *f));
}

impl TextGenerator {
    /// The extension of a plain-text report.
    pub fn file_extension(&self) -> (r: &'static str)
        ensures
            r@ == "txt"@,
    {
        "txt"
    }

    /// Renders the report as plain text, with `stamp` for the moment at
    /// which it was made.
    pub fn render(&self, report: &ProjectReport, stamp: &str) -> (r: String)
        requires
            report.statistics.wf(),
        ensures
            r@ == text_report(*report, stamp@),
    {
        let mut out = String::new();
        push_text(&mut out, "CODETREE PROJECT ANALYSIS\n");
        push_text(&mut out, "========================\n\n");
        push_text(&mut out, "Generated: ");
        push_text(&mut out, stamp);
        push_text(&mut out, "\n\n");
        push_text(&mut out, report.project_info.as_str());
        push_text(&mut out, "\n");
        push_text(&mut out, "Project File Tree:\n");
        push_text(&mut out, "==================\n");
        push_text(&mut out, report.file_tree.as_str());
        push_text(&mut out, "\n");
        assert(out@ =~= head_text(*report, stamp@));
        let stats = report.statistics.format_stats();
        push_text(&mut out, stats.as_str());
        push_text(&mut out, "\n");
        push_text(&mut out, "Project Files:\n");
        push_text(&mut out, "==============\n\n");
        let ghost start = out@;
        let mut i: usize = 0;
        while i < report.files.len()
            invariant
                i <= report.files@.len(),
                out@ == start + file_entries(report.files@, i as nat),
            decreases report.files@.len() - i,
        {
            push_file_entry(&mut out, i + 1, &report.files[i]);
            i += 1;
            assert(out@ =~= start + file_entries(report.files@, i as nat));
        }
        assert(out@ =~= text_report(*report, stamp@));
        out
    }

    /// Renders the report as plain text. The moment of the report is
    /// written as date and time; a report whose moment cannot be written
    /// so is refused.
    pub fn generate(&self, report: &ProjectReport) -> (r: Result<String, RenderError>)
        requires
            report.statistics.wf(),
        ensures
            match r {
                Ok(text) => report.generated_at.date_time() matches Some(stamp) && text@
                    == text_report(*report, stamp),
                Err(e) => report.generated_at.date_time() is None,
            },
    {
        match report.generated_at.format_date_time() {
            Some(stamp) => Ok(self.render(report, stamp.as_str())),
            None => Err(RenderError::Timestamp),
        }
    }
}

} // verus!
