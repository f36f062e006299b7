//! The finished report and what the renderers share.

pub mod formats;
pub mod html;
pub mod json;
pub mod markdown;

use vstd::prelude::*;
use crate::exclusion::{might_contain_sensitive_info, sensitive_name};
use crate::lines::{count_lines, lines, CommentStyle};
use crate::size::{
    nearest_double, push_two_decimals, round_half_even, rounded_quotient, to_nearest_double,
    two_decimals,
};
use crate::snapshot::FileProbe;
use crate::stats::ProjectStats;
use crate::text::{
    chars_of, decimal, is_text, lowercase, owned, push_decimal, push_text, string_of, to_lowercase,
};

verus! {

/// The format in which a report is written.
#[derive(Clone, Copy, PartialEq, Eq, Structural, Debug)]
pub enum OutputFormat {
    Text,
    Json,
    Markdown,
    Html,
}

/// The format that a name in lower case stands for.
pub open spec fn format_named(lower: Seq<char>) -> Option<OutputFormat> {
    if lower == "text"@ || lower == "txt"@ {
        Some(OutputFormat::Text)
    } else if lower == "json"@ {
        Some(OutputFormat::Json)
    } else if lower == "markdown"@ || lower == "md"@ {
        Some(OutputFormat::Markdown)
    } else if lower == "html"@ {
        Some(OutputFormat::Html)
    } else {
        None
    }
}

/// What parsing the name `s` gives, where `lower` is the name in lower
/// case: the format that `lower` stands for, or a message that holds `s`.
pub open spec fn parsed_format(s: Seq<char>, lower: Seq<char>) -> Result<OutputFormat, Seq<char>> {
    match format_named(lower) {
        Some(f) => Ok(f),
        None => Err("Unknown output format: "@ + s),
    }
}

/// A parse result with the message as characters.
pub open spec fn parse_view(r: Result<OutputFormat, String>) -> Result<OutputFormat, Seq<char>> {
    match r {
        Ok(f) => Ok(f),
        Err(e) => Err(e@),
    }
}

impl OutputFormat {
    /// The extension of a report file in this format.
    pub open spec fn extension(self) -> Seq<char> {
        match self {
            OutputFormat::Text => "txt"@,
            OutputFormat::Json => "json"@,
            OutputFormat::Markdown => "md"@,
            OutputFormat::Html => "html"@,
        }
    }

    /// Parses a format name that is already in lower case; `s` is the name
    /// as it was given, for the message.
    pub fn from_lowercase(s: &str, lower: &str) -> (r: Result<OutputFormat, String>)
        ensures
            parse_view(r) == parsed_format(s@, lower@),
    {
        let chars = chars_of(lower);
        let l = chars.as_slice();
        if is_text(l, "text") || is_text(l, "txt") {
            Ok(OutputFormat::Text)
        } else if is_text(l, "json") {
            Ok(OutputFormat::Json)
        } else if is_text(l, "markdown") || is_text(l, "md") {
            Ok(OutputFormat::Markdown)
        } else if is_text(l, "html") {
            Ok(OutputFormat::Html)
        } else {
            let mut message = owned("Unknown output format: ");
            push_text(&mut message, s);
            Err(message)
        }
    }

    /// Parses a format name, whatever its case: `text` or `txt`, `json`,
    /// `markdown` or `md`, `html`. Any other name is refused with a message
    /// that holds it.
    pub fn from_str(s: &str) -> (r: Result<OutputFormat, String>)
        ensures
            parse_view(r) == parsed_format(s@, lowercase(s@)),
    {
        let lower = to_lowercase(s);
        Self::from_lowercase(s, lower.as_str())
    }

    /// The extension of a report file in this format.
    pub fn file_extension(&self) -> (r: &'static str)
        ensures
            r@ == self.extension(),
    {
        match self {
            OutputFormat::Text => "txt",
            OutputFormat::Json => "json",
            OutputFormat::Markdown => "md",
            OutputFormat::Html => "html",
        }
    }
}

/// The name of the report file: the base name, a dot, and the extension of
/// the format.
pub fn output_file_name(base: &str, format: &OutputFormat) -> (r: String)
    ensures
        r@ == base@ + "."@ + format.extension(),
{
    let mut name = owned(base);
    push_text(&mut name, ".");
    push_text(&mut name, format.file_extension());
    name
}

/// One file of the report.
pub struct FileInfo {
    /// The file's full path.
    pub path: String,
    /// The file's path below the root of the walk.
    pub relative_path: String,
    /// The file's text; `None` for a sensitive file and for one without
    /// readable text.
    pub content: Option<String>,
    /// Whether the file is sensitive.
    pub is_sensitive: bool,
    /// The file's logical length, or zero where it is unknown.
    pub size_bytes: u64,
    /// The number of lines of the text that the report holds.
    pub line_count: usize,
}

/// The text of a file that the report may hold: none for a file that is
/// gone, for a sensitive file, and for a file without readable text.
pub open spec fn reported_text(probe: FileProbe) -> Option<Seq<char>> {
    if probe.exists && !sensitive_name(probe.name@) {
        match probe.content {
            Some(text) => Some(text@),
            None => None,
        }
    } else {
        None
    }
}

/// The length of a file in the report: its logical length, or zero for a
/// file that is gone or whose length is unknown.
pub open spec fn reported_size(probe: FileProbe) -> nat {
    if probe.exists {
        match probe.length {
            Some(n) => n as nat,
            None => 0,
        }
    } else {
        0
    }
}

/// The characters of an optional string.
pub open spec fn content_text(o: Option<String>) -> Option<Seq<char>> {
    match o {
        Some(s) => Some(s@),
        None => None,
    }
}

/// The entry of the report for one listed file. A file is sensitive by its
/// name alone, and the text of a sensitive file never enters the report.
pub fn file_info(probe: &FileProbe) -> (info: FileInfo)
    ensures
        info.path@ == probe.path@,
        info.relative_path@ == probe.relative_path@,
        info.is_sensitive == sensitive_name(probe.name@),
        content_text(info.content) == reported_text(*probe),
        info.is_sensitive ==> info.content is None,
        info.size_bytes == reported_size(*probe),
        info.line_count == match reported_text(*probe) {
            Some(text) => lines(text).len(),
            None => 0,
        },
{
    let is_sensitive = might_contain_sensitive_info(probe.name.as_str(), None);
    let mut content: Option<String> = None;
    let mut size_bytes: u64 = 0;
    let mut line_count: usize = 0;
    if probe.exists {
        if let Some(length) = probe.length {
            size_bytes = length;
        }
        if !is_sensitive {
            if let Some(text) = &probe.content {
                let chars = chars_of(text.as_str());
                line_count = count_lines(chars.as_slice(), CommentStyle::Unknown).total;
                content = Some(text.clone());
            }
        }
    }
    FileInfo {
        path: probe.path.clone(),
        relative_path: probe.relative_path.clone(),
        content,
        is_sensitive,
        size_bytes,
        line_count,
    }
}

/// The moment at which a report was made, in seconds and nanoseconds since
/// the start of 1970 in universal time.
#[derive(Clone, Copy, PartialEq, Eq, Structural, Debug)]
pub struct Timestamp {
    pub seconds: i64,
    pub nanos: u32,
}

/// Why a report could not be rendered.
#[derive(Clone, Copy, PartialEq, Eq, Structural, Debug)]
pub enum RenderError {
    /// The moment of the report cannot be written as a date.
    Timestamp,
}

/// What the `chrono` crate writes for the moment `seconds` and `nanos`
/// after the start of 1970 in universal time under the format `fmt`, with
/// `DateTime::from_timestamp` and `DateTime::format`: `None` where the
/// crate cannot hold the moment or refuses the format.
pub uninterp spec fn utc_text(seconds: int, nanos: int, fmt: Seq<char>) -> Option<Seq<char>>;

/// Makes the moment with `chrono::DateTime::from_timestamp` and writes it
/// with `DateTime::format` and `DelayedFormat::write_to`. The outcome is
/// named by [`utc_text`]; the contract claims only that it depends on the
/// three arguments alone, which holds since the moment is taken in
/// universal time and the crate is built without locales.
#[verifier::external_body]
pub(crate) fn format_utc(seconds: i64, nanos: u32, fmt: &str) -> (r: Option<String>)
    ensures
        content_text(r) == utc_text(seconds as int, nanos as int, fmt@),
{
    let moment = chrono::DateTime::from_timestamp(seconds, nanos)?;
    let mut text = String::new();
    match moment.format(fmt).write_to(&mut text) {
        Ok(()) => Some(text),
        Err(_) => None,
    }
}

impl Timestamp {
    /// The moment as date and time, as reports show it.
    pub open spec fn date_time(self) -> Option<Seq<char>> {
        utc_text(self.seconds as int, self.nanos as int, "%Y-%m-%d %H:%M:%S UTC"@)
    }

    /// The moment as date and time, as reports show it; `None` where the
    /// moment cannot be written as a date.
    pub fn format_date_time(&self) -> (r: Option<String>)
        ensures
            content_text(r) == self.date_time(),
    {
        format_utc(self.seconds, self.nanos, "%Y-%m-%d %H:%M:%S UTC")
    }
}

/// A finished report.
pub struct ProjectReport {
    /// The summary of project types, frameworks and excluded content.
    pub project_info: String,
    /// The tree text.
    pub file_tree: String,
    /// The statistics.
    pub statistics: ProjectStats,
    /// The listed files, in the order of the tree.
    pub files: Vec<FileInfo>,
    /// When the report was made.
    pub generated_at: Timestamp,
}

/// A size in words, as the renderers show it: below 1024 the number of
/// bytes; from there on the size in KB, MB or GB, as the double-precision
/// quotient rounded to two decimal places.
pub open spec fn byte_size_text(bytes: nat) -> Seq<char> {
    if bytes < 1024 {
        decimal(bytes) + " bytes"@
    } else if bytes < 1024 * 1024 {
        two_decimals(round_half_even(nearest_double(bytes) * 100, 1024)) + " KB"@
    } else if bytes < 1024 * 1024 * 1024 {
        two_decimals(round_half_even(nearest_double(bytes) * 100, 1024 * 1024)) + " MB"@
    } else {
        two_decimals(round_half_even(nearest_double(bytes) * 100, 1024 * 1024 * 1024)) + " GB"@
    }
}

/// Formats a size in bytes for a rendered report: `512 bytes`, `1.50 KB`,
/// `2.00 MB`.
pub fn format_size(bytes: u64) -> (r: String)
    ensures
        r@ == byte_size_text(bytes as nat),
{
    let mut out = String::new();
    if bytes < 1024 {
        push_decimal(&mut out, bytes);
        push_text(&mut out, " bytes");
        return out;
    }
    let value = to_nearest_double(bytes);
    let (unit, name): (u128, &str) = if bytes < 1024 * 1024 {
        (1024, " KB")
    } else if bytes < 1024 * 1024 * 1024 {
        (1024 * 1024, " MB")
    } else {
        (1024 * 1024 * 1024, " GB")
    };
    let hundredths = rounded_quotient(value * 100, unit);
    assert(hundredths <= 0xFFFF_FFFF_FFFF_FFFF) by {
        assert((value * 100) / (unit as int) <= value * 100 / 1024) by (nonlinear_arith)
            requires
                unit >= 1024,
                value >= 0,
        ;
    }
    push_two_decimals(&mut out, hundredths as u64);
    push_text(&mut out, name);
    out
}

/// What follows the last `sep` in `s`, or all of `s` where it has none.
pub open spec fn last_segment(s: Seq<char>, sep: char) -> Seq<char> {
    s.skip(last_index(s, sep) + 1)
}

/// The position of the last `sep` in `s`, or -1 if it has none.
pub open spec fn last_index(s: Seq<char>, sep: char) -> int
    decreases s.len(),
{
    if s.len() == 0 {
        -1
    } else if s.last() == sep {
        s.len() - 1
    } else {
        last_index(s.drop_last(), sep)
    }
}

/// What follows the last `sep` in `s`, or all of `s` where it has none.
pub fn segment_after_last(s: &[char], sep: char) -> (r: Vec<char>)
    ensures
        r@ == last_segment(s@, sep),
{
    let n = s.len();
    let mut i: usize = n;
    assert(s@.take(n as int) == s@);
    while i > 0 && s[i - 1] != sep
        invariant
            i <= n,
            n == s@.len(),
            last_index(s@, sep) == last_index(s@.take(i as int), sep),
        decreases i,
    {
        assert(s@.take(i as int).drop_last() == s@.take(i - 1));
        i -= 1;
    }
    proof {
        if i > 0 {
            assert(s@.take(i as int).last() == s@[i - 1]);
        }
        assert(last_index(s@, sep) == i - 1);
    }
    let mut r: Vec<char> = Vec::new();
    let mut k: usize = i;
    while k < n
        invariant
            i <= k <= n,
            n == s@.len(),
            r@ == s@.subrange(i as int, k as int),
        decreases n - k,
    {
        r.push(s[k]);
        k += 1;
    }
    assert(s@.subrange(i as int, n as int) == s@.skip(i as int));
    r
}

/// The name of the language of files with the extension `ext`, given in
/// lower case; empty where the extension is not known.
pub open spec fn language_named(ext: Seq<char>) -> Seq<char> {
    if ext == "rs"@ {
        "rust"@
    } else if ext == "js"@ || ext == "jsx"@ {
        "javascript"@
    } else if ext == "ts"@ || ext == "tsx"@ {
        "typescript"@
    } else if ext == "py"@ {
        "python"@
    } else if ext == "java"@ {
        "java"@
    } else if ext == "c"@ {
        "c"@
    } else if ext == "cpp"@ || ext == "cc"@ || ext == "cxx"@ {
        "cpp"@
    } else if ext == "h"@ || ext == "hpp"@ {
        "c"@
    } else if ext == "cs"@ {
        "csharp"@
    } else if ext == "go"@ {
        "go"@
    } else if ext == "rb"@ {
        "ruby"@
    } else if ext == "php"@ {
        "php"@
    } else if ext == "html"@ {
        "html"@
    } else if ext == "css"@ {
        "css"@
    } else if ext == "scss"@ || ext == "sass"@ {
        "scss"@
    } else if ext == "json"@ {
        "json"@
    } else if ext == "xml"@ {
        "xml"@
    } else if ext == "yml"@ || ext == "yaml"@ {
        "yaml"@
    } else if ext == "toml"@ {
        "toml"@
    } else if ext == "md"@ {
        "markdown"@
    } else if ext == "sh"@ || ext == "bash"@ {
        "bash"@
    } else if ext == "sql"@ {
        "sql"@
    } else {
        Seq::empty()
    }
}

/// The name of the language of files with the extension `ext`, given in
/// lower case.
pub fn language_of_extension(ext: &str) -> (r: &'static str)
    ensures
        r@ == language_named(ext@),
{
    let chars = chars_of(ext);
    let e = chars.as_slice();
    if is_text(e, "rs") {
        "rust"
    } else if is_text(e, "js") || is_text(e, "jsx") {
        "javascript"
    } else if is_text(e, "ts") || is_text(e, "tsx") {
        "typescript"
    } else if is_text(e, "py") {
        "python"
    } else if is_text(e, "java") {
        "java"
    } else if is_text(e, "c") {
        "c"
    } else if is_text(e, "cpp") || is_text(e, "cc") || is_text(e, "cxx") {
        "cpp"
    } else if is_text(e, "h") || is_text(e, "hpp") {
        "c"
    } else if is_text(e, "cs") {
        "csharp"
    } else if is_text(e, "go") {
        "go"
    } else if is_text(e, "rb") {
        "ruby"
    } else if is_text(e, "php") {
        "php"
    } else if is_text(e, "html") {
        "html"
    } else if is_text(e, "css") {
        "css"
    } else if is_text(e, "scss") || is_text(e, "sass") {
        "scss"
    } else if is_text(e, "json") {
        "json"
    } else if is_text(e, "xml") {
        "xml"
    } else if is_text(e, "yml") || is_text(e, "yaml") {
        "yaml"
    } else if is_text(e, "toml") {
        "toml"
    } else if is_text(e, "md") {
        "markdown"
    } else if is_text(e, "sh") || is_text(e, "bash") {
        "bash"
    } else if is_text(e, "sql") {
        "sql"
    } else {
        proof {
            reveal_strlit("");
        }
        ""
    }
}

/// The name of the language of a file by its path: what follows the last
/// dot of the path, in lower case, selects the language. A path without a
/// dot is taken whole.
pub fn detect_language(file_path: &str) -> (r: &'static str)
    ensures
        r@ == language_named(lowercase(last_segment(file_path@, '.'))),
{
    let chars = chars_of(file_path);
    let ext = segment_after_last(chars.as_slice(), '.');
    let ext_text = string_of(ext.as_slice());
    let lower = to_lowercase(ext_text.as_str());
    language_of_extension(lower.as_str())
}

} // verus!
