//! The report as Markdown.

use vstd::prelude::*;
use vstd::slice::slice_subrange;
use crate::lines::{blank_line, line_end, trim_bounds};
use crate::output::{
    byte_size_text, content_text, detect_language, format_size, format_utc, language_named,
    last_index, last_segment, segment_after_last, utc_text, FileInfo, ProjectReport, RenderError,
    Timestamp,
};
use crate::percent::{bar_cells, filled_cells, percent_text, push_percent};
use crate::ranking::{rank, ranking, ranking_is_sorted};
use crate::stats::{ProjectStats, StatsView};
use crate::tally::{amount_of, amounts};
use crate::text::{
    chars_of, decimal, is_text, lowercase, push_chars, push_decimal, push_text, same_text,
    string_of, text_before, text_le, to_lowercase,
};

verus! {

/// Renders a report as Markdown.
pub struct MarkdownGenerator;

impl MarkdownGenerator {
    /// The extension of a Markdown report.
    pub fn file_extension(&self) -> (r: &'static str)
        ensures
            r@ == "md"@,
    {
        "md"
    }
}

/// The sign shown for files with the extension `ext`, given in lower case.
pub open spec fn icon_named(ext: Seq<char>) -> Seq<char> {
    if ext == "rs"@ {
        "🦀"@
    } else if ext == "js"@ || ext == "jsx"@ {
        "🟨"@
    } else if ext == "ts"@ || ext == "tsx"@ {
        "🔷"@
    } else if ext == "py"@ {
        "🐍"@
    } else if ext == "java"@ {
        "☕"@
    } else if ext == "c"@ {
        "🔧"@
    } else if ext == "cpp"@ || ext == "cc"@ || ext == "cxx"@ {
        "⚙️"@
    } else if ext == "h"@ || ext == "hpp"@ {
        "📋"@
    } else if ext == "cs"@ {
        "🔷"@
    } else if ext == "go"@ {
        "🐹"@
    } else if ext == "rb"@ {
        "💎"@
    } else if ext == "php"@ {
        "🐘"@
    } else if ext == "html"@ {
        "🌐"@
    } else if ext == "css"@ {
        "🎨"@
    } else if ext == "scss"@ || ext == "sass"@ {
        "💅"@
    } else if ext == "json"@ {
        "📋"@
    } else if ext == "xml"@ {
        "📄"@
    } else if ext == "yml"@ || ext == "yaml"@ {
        "⚙️"@
    } else if ext == "toml"@ {
        "⚙️"@
    } else if ext == "md"@ {
        "📝"@
    } else if ext == "sh"@ || ext == "bash"@ {
        "🐚"@
    } else if ext == "sql"@ {
        "🗃️"@
    } else if ext == "dockerfile"@ {
        "🐳"@
    } else if ext == "gitignore"@ {
        "🚫"@
    } else if ext == "lock"@ {
        "🔒"@
    } else {
        "📄"@
    }
}

/// The sign shown for a file with a well-known name, given in lower case.
pub open spec fn special_icon(name: Seq<char>) -> Option<Seq<char>> {
    if name == "readme.md"@ || name == "readme.txt"@ || name == "readme"@ {
        Some("📖"@)
    } else if name == "license"@ || name == "license.txt"@ || name == "license.md"@ {
        Some("📜"@)
    } else if name == "changelog.md"@ || name == "changelog.txt"@ || name == "changelog"@ {
        Some("📋"@)
    } else if name == "dockerfile"@ {
        Some("🐳"@)
    } else if name == ".gitignore"@ {
        Some("🚫"@)
    } else if name == "cargo.toml"@ || name == "cargo.lock"@ {
        Some("📦"@)
    } else if name == "package.json"@ || name == "package-lock.json"@ {
        Some("📦"@)
    } else if name == "makefile"@ {
        Some("🔨"@)
    } else {
        None
    }
}

/// The sign shown for a file by its path: that of its name where the name
/// is well known, else that of what follows the last dot of the name.
pub open spec fn file_icon(path: Seq<char>) -> Seq<char> {
    let name = last_segment(path, '/');
    match special_icon(lowercase(name)) {
        Some(icon) => icon,
        None => icon_named(lowercase(last_segment(name, '.'))),
    }
}

/// The sign shown for files with the extension `ext`, given in lower case.
pub fn icon_for(ext: &str) -> (r: &'static str)
    ensures
        r@ == icon_named(ext@),
{
    let chars = chars_of(ext);
    let e = chars.as_slice();
    if is_text(e, "rs") {
        "🦀"
    } else if is_text(e, "js") || is_text(e, "jsx") {
        "🟨"
    } else if is_text(e, "ts") || is_text(e, "tsx") {
        "🔷"
    } else if is_text(e, "py") {
        "🐍"
    } else if is_text(e, "java") {
        "☕"
    } else if is_text(e, "c") {
        "🔧"
    } else if is_text(e, "cpp") || is_text(e, "cc") || is_text(e, "cxx") {
        "⚙️"
    } else if is_text(e, "h") || is_text(e, "hpp") {
        "📋"
    } else if is_text(e, "cs") {
        "🔷"
    } else if is_text(e, "go") {
        "🐹"
    } else if is_text(e, "rb") {
        "💎"
    } else if is_text(e, "php") {
        "🐘"
    } else if is_text(e, "html") {
        "🌐"
    } else if is_text(e, "css") {
        "🎨"
    } else if is_text(e, "scss") || is_text(e, "sass") {
        "💅"
    } else if is_text(e, "json") {
        "📋"
    } else if is_text(e, "xml") {
        "📄"
    } else if is_text(e, "yml") || is_text(e, "yaml") {
        "⚙️"
    } else if is_text(e, "toml") {
        "⚙️"
    } else if is_text(e, "md") {
        "📝"
    } else if is_text(e, "sh") || is_text(e, "bash") {
        "🐚"
    } else if is_text(e, "sql") {
        "🗃️"
    } else if is_text(e, "dockerfile") {
        "🐳"
    } else if is_text(e, "gitignore") {
        "🚫"
    } else if is_text(e, "lock") {
        "🔒"
    } else {
        "📄"
    }
}

/// The sign shown for files with the extension `ext`, whatever its case.
pub fn get_language_icon(ext: &str) -> (r: &'static str)
    ensures
        r@ == icon_named(lowercase(ext@)),
{
    let lower = to_lowercase(ext);
    icon_for(lower.as_str())
}

/// The sign shown for a file with the name `name`, given in lower case,
/// where the name is well known.
pub fn special_icon_for(name: &str) -> (r: Option<&'static str>)
    ensures
        match r {
            Some(icon) => special_icon(name@) == Some(icon@),
            None => special_icon(name@) is None,
        },
{
    let chars = chars_of(name);
    let n = chars.as_slice();
    if is_text(n, "readme.md") || is_text(n, "readme.txt") || is_text(n, "readme") {
        Some("📖")
    } else if is_text(n, "license") || is_text(n, "license.txt") || is_text(n, "license.md") {
        Some("📜")
    } else if is_text(n, "changelog.md") || is_text(n, "changelog.txt") || is_text(
        n,
        "changelog",
    ) {
        Some("📋")
    } else if is_text(n, "dockerfile") {
        Some("🐳")
    } else if is_text(n, ".gitignore") {
        Some("🚫")
    } else if is_text(n, "cargo.toml") || is_text(n, "cargo.lock") {
        Some("📦")
    } else if is_text(n, "package.json") || is_text(n, "package-lock.json") {
        Some("📦")
    } else if is_text(n, "makefile") {
        Some("🔨")
    } else {
        None
    }
}

/// The sign shown for a file by its path.
pub fn get_file_icon(file_path: &str) -> (r: &'static str)
    ensures
        r@ == file_icon(file_path@),
{
    let chars = chars_of(file_path);
    let name = segment_after_last(chars.as_slice(), '/');
    let name_text = string_of(name.as_slice());
    let lower = to_lowercase(name_text.as_str());
    match special_icon_for(lower.as_str()) {
        Some(icon) => icon,
        None => {
            let ext = segment_after_last(name.as_slice(), '.');
            let ext_text = string_of(ext.as_slice());
            get_language_icon(ext_text.as_str())
        },
    }
}

/// The text with every blank written as `%20`.
pub open spec fn spaces_escaped(s: Seq<char>) -> Seq<char>
    decreases s.len(),
{
    if s.len() == 0 {
        Seq::empty()
    } else if s.last() == ' ' {
        spaces_escaped(s.drop_last()) + "%20"@
    } else {
        spaces_escaped(s.drop_last()).push(s.last())
    }
}

/// The text with every blank written as `%20`.
pub fn escape_spaces(s: &str) -> (r: String)
    ensures
        r@ == spaces_escaped(s@),
{
    let chars = chars_of(s);
    let mut r = String::new();
    let mut i: usize = 0;
    assert(chars@.take(0) == Seq::<char>::empty());
    while i < chars.len()
        invariant
            i <= chars.len(),
            r@ == spaces_escaped(chars@.take(i as int)),
        decreases chars.len() - i,
    {
        assert(chars@.take(i + 1).drop_last() == chars@.take(i as int));
        assert(chars@.take(i + 1).last() == chars@[i as int]);
        if chars[i] == ' ' {
            push_text(&mut r, "%20");
        } else {
            r.push(chars[i]);
        }
        i += 1;
    }
    assert(chars@.take(chars@.len() as int) == chars@);
    r
}

/// The character `c`, `n` times.
pub open spec fn repeated(c: char, n: nat) -> Seq<char> {
    Seq::new(n, |i: int| c)
}

/// Appends the character `c`, `n` times.
fn push_repeated(out: &mut String, c: char, n: usize)
    ensures
        final(out)@ == old(out)@ + repeated(c, n as nat),
{
    let mut i: usize = 0;
    while i < n
        invariant
            i <= n,
            out@ == old(out)@ + repeated(c, i as nat),
        decreases n - i,
    {
        out.push(c);
        i += 1;
        assert(out@ =~= old(out)@ + repeated(c, i as nat));
    }
}

/// A bar of `width` cells for the share of `part` in `whole`, the filled
/// cells first, and the share in percent behind it.
pub open spec fn bar_text(part: nat, whole: nat, width: nat) -> Seq<char> {
    repeated('█', filled_cells(part, whole, width)) + repeated(
        '░',
        (width - filled_cells(part, whole, width)) as nat,
    ) + " "@ + percent_text(part, whole) + "%"@
}

/// A bar of `width` cells for the share of `part` in `whole`, with the
/// share in percent behind it. The filled cells are the whole part of the
/// share of the width, as double-precision arithmetic gives it, and never
/// more than the width.
pub fn create_progress_bar(part: u64, whole: u64, width: usize) -> (r: String)
    ensures
        r@ == bar_text(part as nat, whole as nat, width as nat),
{
    let filled = bar_cells(part, whole, width);
    let mut bar = String::new();
    push_repeated(&mut bar, '█', filled);
    push_repeated(&mut bar, '░', width - filled);
    push_text(&mut bar, " ");
    push_percent(&mut bar, part, whole);
    push_text(&mut bar, "%");
    assert(bar@ =~= bar_text(part as nat, whole as nat, width as nat));
    bar
}

/// The title and the badges.
pub open spec fn badges_text(v: StatsView, date: Seq<char>) -> Seq<char> {
    "# 🌳 Codetree Project Analysis\n\n"@ + "![Files](https://img.shields.io/badge/Files-"@
        + decimal(v.total_files) + "-blue) ![Lines](https://img.shields.io/badge/Lines-"@
        + decimal(v.total_lines) + "-green) ![Size](https://img.shields.io/badge/Size-"@
        + spaces_escaped(byte_size_text(v.total_size_bytes))
        + "-orange) ![Generated](https://img.shields.io/badge/Generated-"@ + date
        + "-lightgrey)\n\n"@
}

/// The table of contents.
pub open spec fn contents_table_text(v: StatsView) -> Seq<char> {
    "## 📋 Table of Contents\n\n"@ + "- [📊 Project Overview](#-project-overview)\n"@
        + "- [📈 Statistics Summary](#-statistics-summary)\n"@
        + (if v.files_by_extension.len() > 0 {
        "- [📁 File Type Analysis](#-file-type-analysis)\n"@
    } else {
        Seq::empty()
    }) + "- [🗂️ Project Structure](#️-project-structure)\n"@
        + "- [📄 File Contents](#-file-contents)\n"@ + "\n---\n\n"@
}

/// A line without the carriage return that stood before its line feed.
pub open spec fn without_return(line: Seq<char>) -> Seq<char> {
    if line.len() > 0 && line.last() == '\r' {
        line.drop_last()
    } else {
        line
    }
}

/// A line as the overview shows it: followed by a line feed, or nothing
/// where the line is blank.
pub open spec fn shown_line(line: Seq<char>) -> Seq<char> {
    if blank_line(line) {
        Seq::empty()
    } else {
        line + "\n"@
    }
}

/// The lines of `text` from position `from` on that are not blank, each
/// followed by a line feed. A line that ends in a line feed loses the
/// carriage return before it.
pub open spec fn shown_lines(text: Seq<char>, from: int) -> Seq<char>
    decreases text.len() - from,
{
    if from < 0 || from >= text.len() {
        Seq::empty()
    } else if from <= line_end(text, from) < text.len() {
        shown_line(without_return(text.subrange(from, line_end(text, from)))) + shown_lines(
            text,
            line_end(text, from) + 1,
        )
    } else {
        shown_line(text.subrange(from, text.len() as int))
    }
}

/// The overview: the moment of the report and the project summary.
pub open spec fn overview_text(info: Seq<char>, stamp: Seq<char>) -> Seq<char> {
    "## 📊 Project Overview\n\n"@ + "> **Analysis Generated:** "@ + stamp + "\n\n"@
        + (if blank_line(info) {
        Seq::empty()
    } else {
        "### Project Information\n\n"@ + shown_lines(info, 0) + "\n"@
    })
}

/// The head of the table of counts: the numbers of files and lines.
pub open spec fn summary_head_text(v: StatsView) -> Seq<char> {
    "## 📈 Statistics Summary\n\n"@ + "| Metric | Count | Percentage |\n"@
        + "|--------|-------|------------|\n"@ + "| 📁 **Total Files** | `"@ + decimal(
        v.total_files,
    ) + "` | - |\n"@ + "| 📏 **Total Lines** | `"@ + decimal(v.total_lines) + "` | 100.0% |\n"@
}

/// A row of the table of counts that shows a share.
pub open spec fn share_row(
    head: Seq<char>,
    middle: Seq<char>,
    tail: Seq<char>,
    count: nat,
    total: nat,
) -> Seq<char> {
    head + decimal(count) + middle + percent_text(count, total) + tail
}

/// The row of the table of counts that shows the total size.
pub open spec fn summary_size_text(v: StatsView) -> Seq<char> {
    "| 💾 **Total Size** | `"@ + byte_size_text(v.total_size_bytes) + "` | - |\n\n"@
}

/// The table of counts.
pub open spec fn summary_table_text(v: StatsView) -> Seq<char> {
    summary_head_text(v) + share_row(
        "| 💻 **Code Lines** | `"@,
        "` | "@,
        "% |\n"@,
        v.code_lines,
        v.total_lines,
    ) + share_row(
        "| 💬 **Comment Lines** | `"@,
        "` | "@,
        "% |\n"@,
        v.comment_lines,
        v.total_lines,
    ) + share_row(
        "| ⬜ **Blank Lines** | `"@,
        "` | "@,
        "% |\n"@,
        v.blank_lines,
        v.total_lines,
    ) + summary_size_text(v)
}

/// One share of the lines with its bar.
pub open spec fn composition_entry(label: Seq<char>, count: nat, total: nat) -> Seq<char> {
    label + percent_text(count, total) + "%\n"@ + "`"@ + bar_text(count, total, 30) + "`\n\n"@
}

/// The shares of code, comments and blank lines, each with its bar.
pub open spec fn composition_text(v: StatsView) -> Seq<char> {
    "### Code Composition\n\n"@
        + composition_entry("**Code Lines:** "@, v.code_lines, v.total_lines) + composition_entry(
        "**Comments:** "@,
        v.comment_lines,
        v.total_lines,
    ) + composition_entry("**Blank Lines:** "@, v.blank_lines, v.total_lines)
}

/// The row of the extension at place `at` of the file counts.
pub open spec fn type_row(v: StatsView, at: int) -> Seq<char> {
    let ext = v.files_by_extension[at].0;
    "| "@ + icon_named(lowercase(ext)) + " `."@ + ext + "` | `"@ + decimal(
        v.files_by_extension[at].1,
    ) + "` | `"@ + decimal(amount_of(v.lines_by_extension, ext)) + "` | "@ + percent_text(
        v.files_by_extension[at].1,
        v.total_files,
    ) + "% |\n"@
}

/// The rows of the first `count` extensions of the ranking.
pub open spec fn type_rows(v: StatsView, order: Seq<usize>, count: nat) -> Seq<char>
    decreases count,
{
    if count == 0 {
        Seq::empty()
    } else {
        type_rows(v, order, (count - 1) as nat) + type_row(v, order[count - 1] as int)
    }
}

/// The block of the extension at place `at` of the file counts.
pub open spec fn top_block(v: StatsView, at: int) -> Seq<char> {
    let ext = v.files_by_extension[at].0;
    let count = v.files_by_extension[at].1;
    "**"@ + icon_named(lowercase(ext)) + "** `."@ + ext + "`\n"@ + "- Files: "@ + decimal(
        count,
    ) + " ("@ + percent_text(count, v.total_files) + "%)\n"@ + "- Lines: "@ + decimal(
        amount_of(v.lines_by_extension, ext),
    ) + "\n"@ + "- Progress: `"@ + bar_text(count, v.total_files, 20) + "`\n\n"@
}

/// The blocks of the first `count` extensions of the ranking.
pub open spec fn top_blocks(v: StatsView, order: Seq<usize>, count: nat) -> Seq<char>
    decreases count,
{
    if count == 0 {
        Seq::empty()
    } else {
        top_blocks(v, order, (count - 1) as nat) + top_block(v, order[count - 1] as int)
    }
}

/// How many items a list of the top five shows.
pub open spec fn top_five(len: nat) -> nat {
    if len < 5 {
        len
    } else {
        5
    }
}

/// The analysis of file types: a table of all extensions, the one with the
/// most files first, and a block for each of the first five. Nothing where
/// no file was counted.
pub open spec fn types_text(v: StatsView) -> Seq<char> {
    if v.files_by_extension.len() == 0 {
        Seq::empty()
    } else {
        "## 📁 File Type Analysis\n\n"@ + "| Extension | Files | Lines | Percentage |\n"@
            + "|-----------|-------|-------|------------|\n"@ + type_rows(
            v,
            ranking(amounts(v.files_by_extension)),
            v.files_by_extension.len(),
        ) + "\n"@ + "### Top File Types\n\n"@ + top_blocks(
            v,
            ranking(amounts(v.files_by_extension)),
            top_five(v.files_by_extension.len()),
        )
    }
}

/// The tree, folded away.
pub open spec fn structure_text(tree: Seq<char>) -> Seq<char> {
    "## 🗂️ Project Structure\n\n"@ + "<details>\n"@
        + "<summary>Click to expand project structure</summary>\n\n"@ + "```\n"@ + tree + "```\n\n"@
        + "</details>\n\n"@
}

/// The directory of a file by its path: what stands before the last slash,
/// or a dot for a path without one.
pub open spec fn directory_of(path: Seq<char>) -> Seq<char> {
    if last_index(path, '/') < 0 {
        "."@
    } else {
        path.take(last_index(path, '/'))
    }
}

/// The language of a file by its path.
pub open spec fn language_of(path: Seq<char>) -> Seq<char> {
    language_named(lowercase(last_segment(path, '.')))
}

/// What the report shows of the text of a file.
pub open spec fn file_body(f: FileInfo) -> Seq<char> {
    if f.is_sensitive {
        "> ⚠️ **SENSITIVE FILE** - Content Protected\n\n"@
            + "```\n🔒 [SENSITIVE FILE - Content Protected]\n```\n\n"@
    } else {
        match f.content {
            Some(text) => (if f.line_count > 50 {
                "<details>\n"@ + "<summary>View file content ("@ + decimal(f.line_count as nat)
                    + " lines)</summary>\n\n"@
            } else {
                Seq::empty()
            }) + "```"@ + language_of(f.relative_path@) + "\n"@ + text@ + (if text@.len() > 0
                && text@.last() == '\n' {
                Seq::empty()
            } else {
                "\n"@
            }) + "```\n\n"@ + (if f.line_count > 50 {
                "</details>\n\n"@
            } else {
                Seq::empty()
            }),
            None => "```\n⚠️ [Unable to read file content]\n```\n\n"@,
        }
    }
}

/// The section of one file: its heading, its size, lines and language,
/// and its text or a note in its place.
pub open spec fn file_section(f: FileInfo) -> Seq<char> {
    "#### "@ + file_icon(f.relative_path@) + " `"@ + f.relative_path@ + "`\n\n"@ + "> **Size:** "@
        + byte_size_text(f.size_bytes as nat) + " | **Lines:** "@ + decimal(f.line_count as nat)
        + " | **Language:** "@
        + language_of(f.relative_path@) + "\n\n"@ + file_body(f)
}

/// The directories of the files, in their order.
pub open spec fn directories(files: Seq<FileInfo>) -> Seq<Seq<char>> {
    Seq::new(files.len(), |i: int| directory_of(files[i].relative_path@))
}

/// Where a file in directory `d` goes into the order: behind the last file
/// whose directory comes before `d` or equals it.
pub open spec fn group_slot(dirs: Seq<Seq<char>>, order: Seq<usize>, d: Seq<char>) -> int
    decreases order.len(),
{
    if order.len() == 0 {
        0
    } else if text_le(dirs[order.last() as int], d) {
        order.len() as int
    } else {
        group_slot(dirs, order.drop_last(), d)
    }
}

/// The order in which the first `n` files are shown: by directory, the
/// files of one directory in the order of the report.
pub open spec fn group_order(dirs: Seq<Seq<char>>, n: nat) -> Seq<usize>
    decreases n,
{
    if n == 0 || n > dirs.len() {
        Seq::empty()
    } else {
        group_order(dirs, (n - 1) as nat).insert(
            group_slot(dirs, group_order(dirs, (n - 1) as nat), dirs[n - 1]),
            (n - 1) as usize,
        )
    }
}

/// How many of the first `n` files lie in directory `d`.
pub open spec fn files_in(dirs: Seq<Seq<char>>, n: nat, d: Seq<char>) -> nat
    decreases n,
{
    if n == 0 || n > dirs.len() {
        0
    } else if dirs[n - 1] == d {
        files_in(dirs, (n - 1) as nat, d) + 1
    } else {
        files_in(dirs, (n - 1) as nat, d)
    }
}

/// The heading that opens the directory of the file at place `k` of the
/// order: shown before the first file of a directory that holds more than
/// one file.
pub open spec fn group_heading(dirs: Seq<Seq<char>>, order: Seq<usize>, k: int) -> Seq<char> {
    let d = dirs[order[k] as int];
    if (k == 0 || dirs[order[k - 1] as int] != d) && files_in(dirs, dirs.len(), d) > 1 {
        "### 📂 Directory: `"@ + d + "`\n\n"@
    } else {
        Seq::empty()
    }
}

/// The sections of the first `count` files of the order.
pub open spec fn file_sections(files: Seq<FileInfo>, order: Seq<usize>, count: nat) -> Seq<char>
    decreases count,
{
    if count == 0 {
        Seq::empty()
    } else {
        file_sections(files, order, (count - 1) as nat) + group_heading(
            directories(files),
            order,
            count - 1,
        ) + file_section(files[order[count - 1] as int])
    }
}

/// The line that closes the report.
pub open spec fn closing_line() -> Seq<char> {
    "*Generated by [Codetree](https://github.com/your-repo/codetree) - \
A powerful project analysis tool*\n"@
}

/// The contents of all files, directory by directory, and the closing
/// line.
pub open spec fn files_text(files: Seq<FileInfo>) -> Seq<char> {
    "## 📄 File Contents\n\n"@ + file_sections(
        files,
        group_order(directories(files), files.len()),
        files.len(),
    ) + "---\n\n"@ + closing_line()
}

/// The report as Markdown, with `stamp` for the moment at which it was
/// made and `date` for its day.
pub open spec fn markdown_report(report: ProjectReport, stamp: Seq<char>, date: Seq<char>) -> Seq<
    char,
> {
    badges_text(report.statistics@, date) + contents_table_text(report.statistics@)
        + overview_text(report.project_info@, stamp) + summary_table_text(report.statistics@)
        + composition_text(report.statistics@) + types_text(report.statistics@) + structure_text(
        report.file_tree@,
    ) + files_text(report.files@)
}

/// Appends the title and the badges.
fn push_badges(out: &mut String, stats: &ProjectStats, date: &str)
    ensures
        final(out)@ == old(out)@ + badges_text(stats@, date@),
{
    push_text(out, "# 🌳 Codetree Project Analysis\n\n");
    push_text(out, "![Files](https://img.shields.io/badge/Files-");
    push_decimal(out, stats.total_files() as u64);
    push_text(out, "-blue) ![Lines](https://img.shields.io/badge/Lines-");
    push_decimal(out, stats.total_lines() as u64);
    push_text(out, "-green) ![Size](https://img.shields.io/badge/Size-");
    let size = format_size(stats.total_size_bytes());
    let escaped = escape_spaces(size.as_str());
    push_text(out, escaped.as_str());
    push_text(out, "-orange) ![Generated](https://img.shields.io/badge/Generated-");
    push_text(out, date);
    push_text(out, "-lightgrey)\n\n");
    assert(out@ =~= old(out)@ + badges_text(stats@, date@));
}

/// Appends the table of contents.
fn push_contents_table(out: &mut String, stats: &ProjectStats)
    ensures
        final(out)@ == old(out)@ + contents_table_text(stats@),
{
    push_text(out, "## 📋 Table of Contents\n\n");
    push_text(out, "- [📊 Project Overview](#-project-overview)\n");
    push_text(out, "- [📈 Statistics Summary](#-statistics-summary)\n");
    if stats.files_by_extension().len() > 0 {
        push_text(out, "- [📁 File Type Analysis](#-file-type-analysis)\n");
    }
    push_text(out, "- [🗂️ Project Structure](#️-project-structure)\n");
    push_text(out, "- [📄 File Contents](#-file-contents)\n");
    push_text(out, "\n---\n\n");
    assert(out@ =~= old(out)@ + contents_table_text(stats@));
}

/// Appends a line as the overview shows it.
fn push_shown_line(out: &mut String, line: &[char])
    ensures
        final(out)@ == old(out)@ + shown_line(line@),
{
    let (a, b) = trim_bounds(line);
    if a < b {
        push_chars(out, line);
        push_text(out, "\n");
        assert(out@ =~= old(out)@ + shown_line(line@));
    }
}

/// Appends the lines of `text` that are not blank.
fn push_shown_lines(out: &mut String, text: &[char])
    ensures
        final(out)@ == old(out)@ + shown_lines(text@, 0),
{
    let n = text.len();
    let mut at: usize = 0;
    let ghost mut done: Seq<char> = Seq::empty();
    while at < n
        invariant
            at <= n,
            n == text@.len(),
            out@ == old(out)@ + done,
            shown_lines(text@, 0) == done + shown_lines(text@, at as int),
        decreases n - at,
    {
        let mut end: usize = at;
        while end < n && text[end] != '\n'
            invariant
                at <= end <= n,
                n == text@.len(),
                line_end(text@, at as int) == line_end(text@, end as int),
            decreases n - end,
        {
            end += 1;
        }
        assert(line_end(text@, at as int) == end);
        if end < n {
            let cut: usize = if end > at && text[end - 1] == '\r' {
                end - 1
            } else {
                end
            };
            let line = slice_subrange(text, at, cut);
            proof {
                let whole = text@.subrange(at as int, end as int);
                if end > at && text@[end - 1] == '\r' {
                    assert(whole.last() == '\r');
                    assert(whole.drop_last() == text@.subrange(at as int, cut as int));
                }
                assert(line@ == without_return(whole));
            }
            push_shown_line(out, line);
            proof {
                let next = done + shown_line(line@);
                assert(done + shown_lines(text@, at as int) =~= next + shown_lines(
                    text@,
                    end + 1,
                ));
                done = next;
                assert(out@ =~= old(out)@ + done);
            }
            at = end + 1;
        } else {
            let line = slice_subrange(text, at, n);
            push_shown_line(out, line);
            proof {
                let next = done + shown_line(line@);
                assert(shown_lines(text@, n as int) == Seq::<char>::empty());
                assert(done + shown_lines(text@, at as int) =~= next + shown_lines(
                    text@,
                    n as int,
                ));
                done = next;
                assert(out@ =~= old(out)@ + done);
            }
            at = n;
        }
    }
    proof {
        assert(shown_lines(text@, at as int) == Seq::<char>::empty());
        assert(done + Seq::<char>::empty() == done);
    }
}

/// Appends the overview.
fn push_overview(out: &mut String, info: &str, stamp: &str)
    ensures
        final(out)@ == old(out)@ + overview_text(info@, stamp@),
{
    push_text(out, "## 📊 Project Overview\n\n");
    push_text(out, "> **Analysis Generated:** ");
    push_text(out, stamp);
    push_text(out, "\n\n");
    let chars = chars_of(info);
    let (a, b) = trim_bounds(chars.as_slice());
    if a < b {
        push_text(out, "### Project Information\n\n");
        push_shown_lines(out, chars.as_slice());
        push_text(out, "\n");
    }
    assert(out@ =~= old(out)@ + overview_text(info@, stamp@));
}

/// Appends one row of the table of counts that shows a share.
fn push_share_row(
    out: &mut String,
    head: &str,
    middle: &str,
    tail: &str,
    count: usize,
    total: usize,
)
    ensures
        final(out)@ == old(out)@ + share_row(head@, middle@, tail@, count as nat, total as nat),
{
    push_text(out, head);
    push_decimal(out, count as u64);
    push_text(out, middle);
    push_percent(out, count as u64, total as u64);
    push_text(out, tail);
    assert(out@ =~= old(out)@ + share_row(head@, middle@, tail@, count as nat, total as nat));
}

/// Appends the head of the table of counts.
fn push_summary_head(out: &mut String, stats: &ProjectStats)
    ensures
        final(out)@ == old(out)@ + summary_head_text(stats@),
{
    push_text(out, "## 📈 Statistics Summary\n\n");
    push_text(out, "| Metric | Count | Percentage |\n");
    push_text(out, "|--------|-------|------------|\n");
    push_text(out, "| 📁 **Total Files** | `");
    push_decimal(out, stats.total_files() as u64);
    push_text(out, "` | - |\n");
    push_text(out, "| 📏 **Total Lines** | `");
    push_decimal(out, stats.total_lines() as u64);
    push_text(out, "` | 100.0% |\n");
    assert(out@ =~= old(out)@ + summary_head_text(stats@));
}

/// Appends the row of the table of counts that shows the total size.
fn push_summary_size(out: &mut String, stats: &ProjectStats)
    ensures
        final(out)@ == old(out)@ + summary_size_text(stats@),
{
    push_text(out, "| 💾 **Total Size** | `");
    let size = format_size(stats.total_size_bytes());
    push_text(out, size.as_str());
    push_text(out, "` | - |\n\n");
    assert(out@ =~= old(out)@ + summary_size_text(stats@));
}

/// Appends the table of counts.
fn push_summary_table(out: &mut String, stats: &ProjectStats)
    ensures
        final(out)@ == old(out)@ + summary_table_text(stats@),
{
    let total = stats.total_lines();
    push_summary_head(out, stats);
    push_share_row(out, "| 💻 **Code Lines** | `", "` | ", "% |\n", stats.code_lines(), total);
    push_share_row(
        out,
        "| 💬 **Comment Lines** | `",
        "` | ",
        "% |\n",
        stats.comment_lines(),
        total,
    );
    push_share_row(out, "| ⬜ **Blank Lines** | `", "` | ", "% |\n", stats.blank_lines(), total);
    push_summary_size(out, stats);
    assert(out@ =~= old(out)@ + summary_table_text(stats@));
}

/// Appends one share of the lines with its bar.
fn push_composition_entry(out: &mut String, label: &str, count: usize, total: usize)
    ensures
        final(out)@ == old(out)@ + composition_entry(label@, count as nat, total as nat),
{
    push_text(out, label);
    push_percent(out, count as u64, total as u64);
    push_text(out, "%\n");
    push_text(out, "`");
    let bar = create_progress_bar(count as u64, total as u64, 30);
    push_text(out, bar.as_str());
    push_text(out, "`\n\n");
    assert(out@ =~= old(out)@ + composition_entry(label@, count as nat, total as nat));
}

/// Appends the shares of code, comments and blank lines.
fn push_composition(out: &mut String, stats: &ProjectStats)
    ensures
        final(out)@ == old(out)@ + composition_text(stats@),
{
    let total = stats.total_lines();
    push_text(out, "### Code Composition\n\n");
    push_composition_entry(out, "**Code Lines:** ", stats.code_lines(), total);
    push_composition_entry(out, "**Comments:** ", stats.comment_lines(), total);
    push_composition_entry(out, "**Blank Lines:** ", stats.blank_lines(), total);
    assert(out@ =~= old(out)@ + composition_text(stats@));
}

/// Appends the row of the extension at place `at` of the file counts.
fn push_type_row(out: &mut String, stats: &ProjectStats, at: usize)
    requires
        stats.wf(),
        at < stats@.files_by_extension.len(),
    ensures
        final(out)@ == old(out)@ + type_row(stats@, at as int),
{
    let ext = stats.files_by_extension().extension_at(at);
    let count = stats.files_by_extension().amount_at(at);
    push_text(out, "| ");
    push_text(out, get_language_icon(ext));
    push_text(out, " `.");
    push_text(out, ext);
    push_text(out, "` | `");
    push_decimal(out, count);
    push_text(out, "` | `");
    push_decimal(out, stats.lines_by_extension().get(ext));
    push_text(out, "` | ");
    push_percent(out, count, stats.total_files() as u64);
    push_text(out, "% |\n");
    assert(out@ =~= old(out)@ + type_row(stats@, at as int));
}

/// Appends the block of the extension at place `at` of the file counts.
fn push_top_block(out: &mut String, stats: &ProjectStats, at: usize)
    requires
        stats.wf(),
        at < stats@.files_by_extension.len(),
    ensures
        final(out)@ == old(out)@ + top_block(stats@, at as int),
{
    let ext = stats.files_by_extension().extension_at(at);
    let count = stats.files_by_extension().amount_at(at);
    let total = stats.total_files() as u64;
    push_text(out, "**");
    push_text(out, get_language_icon(ext));
    push_text(out, "** `.");
    push_text(out, ext);
    push_text(out, "`\n");
    push_text(out, "- Files: ");
    push_decimal(out, count);
    push_text(out, " (");
    push_percent(out, count, total);
    push_text(out, "%)\n");
    push_text(out, "- Lines: ");
    push_decimal(out, stats.lines_by_extension().get(ext));
    push_text(out, "\n");
    push_text(out, "- Progress: `");
    let bar = create_progress_bar(count, total, 20);
    push_text(out, bar.as_str());
    push_text(out, "`\n\n");
    assert(out@ =~= old(out)@ + top_block(stats@, at as int));
}

/// Appends the analysis of file types.
fn push_types(out: &mut String, stats: &ProjectStats)
    requires
        stats.wf(),
    ensures
        final(out)@ == old(out)@ + types_text(stats@),
{
    let files = stats.files_by_extension();
    if files.len() == 0 {
        return;
    }
    push_text(out, "## 📁 File Type Analysis\n\n");
    push_text(out, "| Extension | Files | Lines | Percentage |\n");
    push_text(out, "|-----------|-------|-------|------------|\n");
    let counts = files.all_amounts();
    let order = rank(&counts);
    let types = counts.len();
    proof {
        ranking_is_sorted(counts@);
    }
    let ghost start = out@;
    let mut k: usize = 0;
    while k < order.len()
        invariant
            k <= order@.len(),
            stats.wf(),
            order@ == ranking(amounts(stats@.files_by_extension)),
            order@.len() == stats@.files_by_extension.len(),
            forall|i: int|
                0 <= i < order@.len() ==> 0 <= #[trigger] order@[i]
                    < stats@.files_by_extension.len(),
            out@ == start + type_rows(stats@, order@, k as nat),
        decreases order@.len() - k,
    {
        push_type_row(out, stats, order[k]);
        k += 1;
        assert(out@ =~= start + type_rows(stats@, order@, k as nat));
    }
    push_text(out, "\n");
    push_text(out, "### Top File Types\n\n");
    let count: usize = if order.len() < 5 {
        order.len()
    } else {
        5
    };
    let ghost middle = out@;
    let mut j: usize = 0;
    while j < count
        invariant
            j <= count <= order@.len(),
            stats.wf(),
            order@ == ranking(amounts(stats@.files_by_extension)),
            forall|i: int|
                0 <= i < order@.len() ==> 0 <= #[trigger] order@[i]
                    < stats@.files_by_extension.len(),
            out@ == middle + top_blocks(stats@, order@, j as nat),
        decreases count - j,
    {
        push_top_block(out, stats, order[j]);
        j += 1;
        assert(out@ =~= middle + top_blocks(stats@, order@, j as nat));
    }
    assert(out@ =~= old(out)@ + types_text(stats@));
}

/// Appends the tree, folded away.
fn push_structure(out: &mut String, tree: &str)
    ensures
        final(out)@ == old(out)@ + structure_text(tree@),
{
    push_text(out, "## 🗂️ Project Structure\n\n");
    push_text(out, "<details>\n");
    push_text(out, "<summary>Click to expand project structure</summary>\n\n");
    push_text(out, "```\n");
    push_text(out, tree);
    push_text(out, "```\n\n");
    push_text(out, "</details>\n\n");
    assert(out@ =~= old(out)@ + structure_text(tree@));
}

/// Appends what the report shows of the text of a file.
fn push_file_body(out: &mut String, f: &FileInfo)
    ensures
        final(out)@ == old(out)@ + file_body(*f),
{
    if f.is_sensitive {
        push_text(out, "> ⚠️ **SENSITIVE FILE** - Content Protected\n\n");
        push_text(out, "```\n🔒 [SENSITIVE FILE - Content Protected]\n```\n\n");
    } else {
        match &f.content {
            Some(text) => {
                if f.line_count > 50 {
                    push_text(out, "<details>\n");
                    push_text(out, "<summary>View file content (");
                    push_decimal(out, f.line_count as u64);
                    push_text(out, " lines)</summary>\n\n");
                }
                push_text(out, "```");
                push_text(out, detect_language(f.relative_path.as_str()));
                push_text(out, "\n");
                push_text(out, text.as_str());
                let chars = chars_of(text.as_str());
                if !(chars.len() > 0 && chars[chars.len() - 1] == '\n') {
                    push_text(out, "\n");
                }
                push_text(out, "```\n\n");
                if f.line_count > 50 {
                    push_text(out, "</details>\n\n");
                }
            },
            None => {
                push_text(out, "```\n⚠️ [Unable to read file content]\n```\n\n");
            },
        }
    }
    assert(out@ =~= old(out)@ + file_body(*f));
}

/// Appends the section of one file.
fn push_file_section(out: &mut String, f: &FileInfo)
    ensures
        final(out)@ == old(out)@ + file_section(*f),
{
    let path = f.relative_path.as_str();
    push_text(out, "#### ");
    push_text(out, get_file_icon(path));
    push_text(out, " `");
    push_text(out, path);
    push_text(out, "`\n\n");
    push_text(out, "> **Size:** ");
    let size = format_size(f.size_bytes);
    push_text(out, size.as_str());
    push_text(out, " | **Lines:** ");
    push_decimal(out, f.line_count as u64);
    push_text(out, " | **Language:** ");
    push_text(out, detect_language(path));
    push_text(out, "\n\n");
    let ghost before = out@;
    push_file_body(out, f);
    assert(out@ =~= old(out)@ + file_section(*f));
}

/// The directory of a file by its path.
pub fn directory_name(path: &str) -> (r: Vec<char>)
    ensures
        r@ == directory_of(path@),
{
    let chars = chars_of(path);
    let n = chars.len();
    let mut i: usize = n;
    assert(chars@.take(n as int) == chars@);
    while i > 0 && chars[i - 1] != '/'
        invariant
            i <= n,
            n == chars@.len(),
            last_index(chars@, '/') == last_index(chars@.take(i as int), '/'),
        decreases i,
    {
        assert(chars@.take(i as int).drop_last() == chars@.take(i - 1));
        i -= 1;
    }
    proof {
        if i > 0 {
            assert(chars@.take(i as int).last() == chars@[i - 1]);
        }
        assert(last_index(chars@, '/') == i - 1);
    }
    if i == 0 {
        chars_of(".")
    } else {
        let mut r: Vec<char> = Vec::new();
        let mut k: usize = 0;
        while k < i - 1
            invariant
                k <= i - 1 < n,
                n == chars@.len(),
                r@ == chars@.take(k as int),
            decreases i - 1 - k,
        {
            r.push(chars[k]);
            k += 1;
        }
        r
    }
}

/// The order in which the files are shown: by directory, the files of one
/// directory in the order of the report.
fn order_by_directory(dirs: &Vec<Vec<char>>) -> (order: Vec<usize>)
    ensures
        order@ == group_order(dirs@.map_values(|d: Vec<char>| d@), dirs@.len()),
        order@.len() == dirs@.len(),
        forall|k: int| 0 <= k < order@.len() ==> 0 <= #[trigger] order@[k] < dirs@.len(),
{
    let ghost keys = dirs@.map_values(|d: Vec<char>| d@);
    let mut order: Vec<usize> = Vec::new();
    let mut n: usize = 0;
    while n < dirs.len()
        invariant
            n <= dirs@.len(),
            keys == dirs@.map_values(|d: Vec<char>| d@),
            order@ == group_order(keys, n as nat),
            order@.len() == n,
            forall|k: int| 0 <= k < order@.len() ==> 0 <= #[trigger] order@[k] < n,
        decreases dirs@.len() - n,
    {
        let mut j: usize = order.len();
        assert(order@.take(j as int) == order@);
        while j > 0 && !text_before(dirs[order[j - 1]].as_slice(), dirs[n].as_slice())
            invariant
                j <= order@.len(),
                n < dirs@.len(),
                keys == dirs@.map_values(|d: Vec<char>| d@),
                forall|k: int| 0 <= k < order@.len() ==> 0 <= #[trigger] order@[k] < n,
                group_slot(keys, order@, keys[n as int]) == group_slot(
                    keys,
                    order@.take(j as int),
                    keys[n as int],
                ),
            decreases j,
        {
            assert(order@.take(j as int).last() == order@[j - 1]);
            assert(order@.take(j as int).drop_last() == order@.take(j - 1));
            j -= 1;
        }
        proof {
            if j > 0 {
                assert(order@.take(j as int).last() == order@[j - 1]);
            }
            assert(group_slot(keys, order@, keys[n as int]) == j);
        }
        order.insert(j, n);
        n += 1;
    }
    order
}

/// How many files lie in the directory `d`.
fn count_in_directory(dirs: &Vec<Vec<char>>, d: &[char]) -> (r: usize)
    ensures
        r == files_in(dirs@.map_values(|x: Vec<char>| x@), dirs@.len(), d@),
{
    let ghost keys = dirs@.map_values(|x: Vec<char>| x@);
    let mut r: usize = 0;
    let mut i: usize = 0;
    while i < dirs.len()
        invariant
            i <= dirs@.len(),
            keys == dirs@.map_values(|x: Vec<char>| x@),
            r == files_in(keys, i as nat, d@),
            r <= i,
        decreases dirs@.len() - i,
    {
        if same_text(dirs[i].as_slice(), d) {
            r += 1;
        }
        i += 1;
    }
    r
}

/// Appends the contents of all files and the closing line.
fn push_files(out: &mut String, files: &Vec<FileInfo>)
    ensures
        final(out)@ == old(out)@ + files_text(files@),
{
    push_text(out, "## 📄 File Contents\n\n");
    let mut dirs: Vec<Vec<char>> = Vec::new();
    let mut i: usize = 0;
    while i < files.len()
        invariant
            i <= files@.len(),
            dirs@.len() == i,
            forall|k: int| 0 <= k < i ==> (#[trigger] dirs@[k])@ == directory_of(
                files@[k].relative_path@,
            ),
        decreases files@.len() - i,
    {
        dirs.push(directory_name(files[i].relative_path.as_str()));
        i += 1;
    }
    let ghost keys = dirs@.map_values(|d: Vec<char>| d@);
    assert(keys =~= directories(files@));
    let order = order_by_directory(&dirs);
    let ghost start = out@;
    let mut k: usize = 0;
    while k < order.len()
        invariant
            k <= order@.len(),
            order@.len() == files@.len(),
            dirs@.len() == files@.len(),
            keys == dirs@.map_values(|d: Vec<char>| d@),
            keys == directories(files@),
            order@ == group_order(keys, files@.len()),
            forall|j: int| 0 <= j < order@.len() ==> 0 <= #[trigger] order@[j] < files@.len(),
            out@ == start + file_sections(files@, order@, k as nat),
        decreases order@.len() - k,
    {
        let at = order[k];
        let opens = k == 0 || !same_text(dirs[order[k - 1]].as_slice(), dirs[at].as_slice());
        if opens && count_in_directory(&dirs, dirs[at].as_slice()) > 1 {
            push_text(out, "### 📂 Directory: `");
            push_chars(out, dirs[at].as_slice());
            push_text(out, "`\n\n");
        }
        assert(out@ =~= start + file_sections(files@, order@, k as nat) + group_heading(
            keys,
            order@,
            k as int,
        ));
        push_file_section(out, &files[at]);
        k += 1;
        assert(out@ =~= start + file_sections(files@, order@, k as nat));
    }
    push_text(out, "---\n\n");
    push_text(
        out,
        "*Generated by [Codetree](https://github.com/your-repo/codetree) - \
A powerful project analysis tool*\n",
    );
    assert(out@ =~= old(out)@ + files_text(files@));
}

impl Timestamp {
    /// The moment as the day on a badge.
    pub open spec fn badge_date(self) -> Option<Seq<char>> {
        utc_text(self.seconds as int, self.nanos as int, "%Y--%m--%d"@)
    }

    /// The moment as the day on a badge; `None` where the moment cannot be
    /// written as a date.
    pub fn format_badge_date(&self) -> (r: Option<String>)
        ensures
            content_text(r) == self.badge_date(),
    {
        format_utc(self.seconds, self.nanos, "%Y--%m--%d")
    }
}

impl MarkdownGenerator {
    /// Renders the report as Markdown, with `stamp` for the moment at
    /// which it was made and `date` for its day.
    pub fn render(&self, report: &ProjectReport, stamp: &str, date: &str) -> (r: String)
        requires
            report.statistics.wf(),
        ensures
            r@ == markdown_report(*report, stamp@, date@),
    {
        let mut out = String::new();
        let stats = &report.statistics;
        push_badges(&mut out, stats, date);
        push_contents_table(&mut out, stats);
        push_overview(&mut out, report.project_info.as_str(), stamp);
        push_summary_table(&mut out, stats);
        push_composition(&mut out, stats);
        push_types(&mut out, stats);
        push_structure(&mut out, report.file_tree.as_str());
        push_files(&mut out, &report.files);
        assert(out@ =~= markdown_report(*report, stamp@, date@));
        out
    }

    /// Renders the report as Markdown. The moment of the report is written
    /// as date and time and as the day on a badge; a report whose moment
    /// cannot be written so is refused.
    pub fn generate(&self, report: &ProjectReport) -> (r: Result<String, RenderError>)
        requires
            report.statistics.wf(),
        ensures
            match r {
                Ok(text) => report.generated_at.date_time() matches Some(stamp)
                    && report.generated_at.badge_date() matches Some(date) && text@
                    == markdown_report(*report, stamp, date),
                Err(e) => report.generated_at.date_time() is None
                    || report.generated_at.badge_date() is None,
            },
    {
        match report.generated_at.format_date_time() {
            Some(stamp) => match report.generated_at.format_badge_date() {
                Some(date) => Ok(self.render(report, stamp.as_str(), date.as_str())),
                None => Err(RenderError::Timestamp),
            },
            None => Err(RenderError::Timestamp),
        }
    }
}

} // verus!

