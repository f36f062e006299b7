//! Project statistics: running totals over the files that were visited.

use vstd::prelude::*;
use vstd::utf8::encode_utf8;
use crate::exclusion::{might_contain_sensitive_info, sensitive_name};
use crate::lines::{
    blank_count, comment_count, comment_style, count_lines, counts_are_bounded, lines, style_of,
};
use crate::percent::{percent_text, push_percent};
use crate::ranking::{rank, ranking, ranking_is_sorted};
use crate::size::{
    format_size, get_real_file_size, is_directory_word, real_size, size_text, SizeReading,
    INVALID_FILE_SIZE,
};
use crate::snapshot::FileProbe;
use crate::tally::{
    amount_of, amounts, distinct_keys, tallied, tallied_total, tally_total, ExtensionTable,
};
use crate::text::{
    chars_of, decimal, extension, extension_of, lowercase, owned, push_decimal, push_text,
    string_of, to_lowercase,
};

verus! {

/// One of the largest files: its path, its name and the space it takes.
pub struct LargeFile {
    /// The file's path.
    pub path: String,
    /// The file's name, without its directory.
    pub name: String,
    /// The space it takes.
    pub size: u64,
}

/// One of the largest files as a value.
pub struct LargeRecord {
    pub path: Seq<char>,
    pub name: Seq<char>,
    pub size: nat,
}

impl View for LargeFile {
    type V = LargeRecord;

    open spec fn view(&self) -> LargeRecord {
        LargeRecord { path: self.path@, name: self.name@, size: self.size as nat }
    }
}

/// The statistics as values.
pub struct StatsView {
    pub total_lines: nat,
    pub code_lines: nat,
    pub blank_lines: nat,
    pub comment_lines: nat,
    pub total_files: nat,
    pub files_by_extension: Seq<(Seq<char>, nat)>,
    pub lines_by_extension: Seq<(Seq<char>, nat)>,
    pub total_size_bytes: nat,
    pub total_content_size_bytes: nat,
    pub size_by_extension: Seq<(Seq<char>, nat)>,
    pub sensitive_files_count: nat,
    pub largest_files: Seq<LargeRecord>,
    pub average_file_size: nat,
}

/// The key under which a file is counted: its extension in lower case, or
/// `no_extension` for a name without one.
pub open spec fn extension_key(name: Seq<char>) -> Seq<char> {
    match extension(name) {
        Some(ext) => lowercase(ext),
        None => "no_extension"@,
    }
}

/// The space a file is counted with: what the platform reported, or zero
/// where it reported nothing.
pub open spec fn counted_size(file: FileProbe) -> nat {
    match real_size(file.size) {
        Some(n) => n,
        None => 0,
    }
}

/// The number of bytes of a text in UTF-8.
pub open spec fn utf8_length(text: Seq<char>) -> nat {
    encode_utf8(text).len()
}

/// Where a file of size `size` goes into the list of the largest: behind
/// the last one that is at least as large.
pub open spec fn rank_place(list: Seq<LargeRecord>, size: nat) -> int
    decreases list.len(),
{
    if list.len() == 0 {
        0
    } else if list.last().size >= size {
        list.len() as int
    } else {
        rank_place(list.drop_last(), size)
    }
}

/// The list runs from the largest size to the smallest.
pub open spec fn descending(list: Seq<LargeRecord>) -> bool {
    forall|i: int, j: int| 0 <= i <= j < list.len() ==> list[i].size >= list[j].size
}

/// The list of the largest files after one more file: the file stands at
/// its place by size, and only the first ten stay.
pub open spec fn ranked_in(list: Seq<LargeRecord>, file: LargeRecord) -> Seq<LargeRecord> {
    let grown = list.insert(rank_place(list, file.size), file);
    if grown.len() > 10 {
        grown.take(10)
    } else {
        grown
    }
}

/// The place by size splits a descending list: what stands before it is at
/// least as large, what stands from it on is smaller.
pub proof fn rank_place_splits(list: Seq<LargeRecord>, size: nat)
    requires
        descending(list),
    ensures
        0 <= rank_place(list, size) <= list.len(),
        forall|i: int| 0 <= i < rank_place(list, size) ==> list[i].size >= size,
        forall|i: int| rank_place(list, size) <= i < list.len() ==> list[i].size < size,
    decreases list.len(),
{
    if list.len() > 0 {
        if list.last().size >= size {
            assert forall|i: int| 0 <= i < list.len() implies list[i].size >= size by {
                assert(list[i].size >= list[list.len() - 1].size);
            }
        } else {
            let front = list.drop_last();
            assert forall|i: int, j: int| 0 <= i <= j < front.len() implies front[i].size
                >= front[j].size by {
                assert(list[i].size >= list[j].size);
            }
            rank_place_splits(front, size);
            assert forall|i: int| rank_place(list, size) <= i < list.len() implies list[i].size
                < size by {
                if i < front.len() {
                    assert(front[i] == list[i]);
                }
            }
            assert forall|i: int| 0 <= i < rank_place(list, size) implies list[i].size
                >= size by {
                assert(front[i] == list[i]);
            }
        }
    }
}

/// The list of the largest files stays descending and within ten entries.
pub proof fn ranked_in_is_descending(list: Seq<LargeRecord>, file: LargeRecord)
    requires
        descending(list),
        list.len() <= 10,
    ensures
        descending(ranked_in(list, file)),
        ranked_in(list, file).len() <= 10,
{
    rank_place_splits(list, file.size);
    let at = rank_place(list, file.size);
    let grown = list.insert(at, file);
    assert forall|i: int, j: int| 0 <= i <= j < grown.len() implies grown[i].size
        >= grown[j].size by {
        let a = if i < at {
            i
        } else {
            i - 1
        };
        let b = if j < at {
            j
        } else {
            j - 1
        };
        if i != at && j != at {
            assert(list[a].size >= list[b].size);
        }
    }
}

/// What the text of a file adds to the line counts: nothing where the file
/// has no text.
pub open spec fn text_lines(file: FileProbe) -> Seq<Seq<char>> {
    match file.content {
        Some(text) => lines(text@),
        None => Seq::empty(),
    }
}

/// The number of bytes that the text of a file adds: nothing where the file
/// has no text.
pub open spec fn text_bytes(file: FileProbe) -> nat {
    match file.content {
        Some(text) => utf8_length(text@),
        None => 0,
    }
}

/// What the statistics hold about one visited file.
pub struct FileRecord {
    /// The file's path.
    pub path: String,
    /// The file's name, without its directory.
    pub name: String,
    /// The file's extension in lower case, or `no_extension`.
    pub extension: String,
    /// The space the file takes on disk; zero where it is unknown.
    pub size: u64,
    /// Whether the file could be read as text.
    pub has_text: bool,
    /// The number of bytes of the file's text.
    pub content_bytes: u64,
    /// The number of lines of the file's text.
    pub total_lines: usize,
    /// The number of blank lines among them.
    pub blank_lines: usize,
    /// The number of comment lines among them.
    pub comment_lines: usize,
    /// The number of lines that are neither blank nor comments.
    pub code_lines: usize,
    /// Whether the file is sensitive.
    pub is_sensitive: bool,
}

/// The record of a file as a value.
pub struct RecordView {
    pub path: Seq<char>,
    pub name: Seq<char>,
    pub extension: Seq<char>,
    pub size: nat,
    pub has_text: bool,
    pub content_bytes: nat,
    pub total_lines: nat,
    pub blank_lines: nat,
    pub comment_lines: nat,
    pub code_lines: nat,
    pub is_sensitive: bool,
}

impl View for FileRecord {
    type V = RecordView;

    open spec fn view(&self) -> RecordView {
        RecordView {
            path: self.path@,
            name: self.name@,
            extension: self.extension@,
            size: self.size as nat,
            has_text: self.has_text,
            content_bytes: self.content_bytes as nat,
            total_lines: self.total_lines as nat,
            blank_lines: self.blank_lines as nat,
            comment_lines: self.comment_lines as nat,
            code_lines: self.code_lines as nat,
            is_sensitive: self.is_sensitive,
        }
    }
}

/// The record of a visited file. The extension in lower case selects the
/// comment style by which the lines of the text are told apart; a file
/// without text has no lines. The name alone decides whether the file is
/// sensitive.
pub open spec fn record_of(file: FileProbe) -> RecordView {
    let key = extension_key(file.name@);
    let ls = text_lines(file);
    let blank = blank_count(ls);
    let comment = comment_count(ls, style_of(key));
    RecordView {
        path: file.path@,
        name: file.name@,
        extension: key,
        size: counted_size(file),
        has_text: file.content is Some,
        content_bytes: text_bytes(file),
        total_lines: ls.len(),
        blank_lines: blank,
        comment_lines: comment,
        code_lines: (ls.len() - blank - comment) as nat,
        is_sensitive: sensitive_name(file.name@),
    }
}

/// Every line of the file is code, a comment or blank.
pub open spec fn balanced(r: RecordView) -> bool {
    r.total_lines == r.code_lines + r.comment_lines + r.blank_lines
}

/// The statistics after one more record: the file counts as a file under
/// its extension, with its size on disk in the totals and among the
/// largest; a sensitive file counts as such; and a file with text adds its
/// bytes and its lines, each line as blank, comment or code.
pub open spec fn with_record(v: StatsView, r: RecordView) -> StatsView {
    StatsView {
        total_lines: v.total_lines + r.total_lines,
        code_lines: v.code_lines + r.code_lines,
        blank_lines: v.blank_lines + r.blank_lines,
        comment_lines: v.comment_lines + r.comment_lines,
        total_files: v.total_files + 1,
        files_by_extension: tallied(v.files_by_extension, r.extension, 1),
        lines_by_extension: if r.has_text {
            tallied(v.lines_by_extension, r.extension, r.total_lines)
        } else {
            v.lines_by_extension
        },
        total_size_bytes: v.total_size_bytes + r.size,
        total_content_size_bytes: v.total_content_size_bytes + r.content_bytes,
        size_by_extension: tallied(v.size_by_extension, r.extension, r.size),
        sensitive_files_count: if r.is_sensitive {
            v.sensitive_files_count + 1
        } else {
            v.sensitive_files_count
        },
        largest_files: ranked_in(
            v.largest_files,
            LargeRecord { path: r.path, name: r.name, size: r.size },
        ),
        average_file_size: v.average_file_size,
    }
}

/// The statistics after one more file: a file that is no longer there
/// changes nothing; any other file adds its record.
pub open spec fn added(v: StatsView, file: FileProbe) -> StatsView {
    if !file.exists {
        v
    } else {
        with_record(v, record_of(file))
    }
}

/// The statistics hold together: every line is code, comment or blank; the
/// counts per extension add up to the totals; no more files are sensitive
/// than there are files; and the largest files are at most ten, largest
/// first.
pub open spec fn consistent(v: StatsView) -> bool {
    &&& v.total_lines == v.code_lines + v.comment_lines + v.blank_lines
    &&& distinct_keys(v.files_by_extension)
    &&& distinct_keys(v.lines_by_extension)
    &&& distinct_keys(v.size_by_extension)
    &&& tally_total(v.files_by_extension) == v.total_files
    &&& tally_total(v.lines_by_extension) == v.total_lines
    &&& tally_total(v.size_by_extension) == v.total_size_bytes
    &&& v.sensitive_files_count <= v.total_files
    &&& descending(v.largest_files)
    &&& v.largest_files.len() <= 10
}

/// The totals are within the ranges of their counters.
pub open spec fn in_range(v: StatsView) -> bool {
    &&& v.total_files <= usize::MAX
    &&& v.total_lines <= usize::MAX
    &&& v.total_size_bytes <= u64::MAX
    &&& v.total_content_size_bytes <= u64::MAX
}

/// The record of a file is balanced, and a file without text has no lines.
pub proof fn record_is_balanced(file: FileProbe)
    ensures
        balanced(record_of(file)),
        !record_of(file).has_text ==> record_of(file).total_lines == 0,
{
    counts_are_bounded(text_lines(file), style_of(extension_key(file.name@)));
}

/// Adding a balanced record keeps the statistics consistent.
pub proof fn with_record_is_consistent(v: StatsView, r: RecordView)
    requires
        consistent(v),
        balanced(r),
        !r.has_text ==> r.total_lines == 0,
    ensures
        consistent(with_record(v, r)),
{
    tallied_total(v.files_by_extension, r.extension, 1);
    tallied_total(v.size_by_extension, r.extension, r.size);
    tallied_total(v.lines_by_extension, r.extension, r.total_lines);
    ranked_in_is_descending(
        v.largest_files,
        LargeRecord { path: r.path, name: r.name, size: r.size },
    );
}

/// Adding a file keeps the statistics consistent.
pub proof fn added_is_consistent(v: StatsView, file: FileProbe)
    requires
        consistent(v),
    ensures
        consistent(added(v, file)),
{
    if file.exists {
        record_is_balanced(file);
        with_record_is_consistent(v, record_of(file));
    }
}

/// A file whose compressed size on disk is below its logical length goes
/// into the total size with the compressed size, not with the length.
pub proof fn compressed_size_is_counted(
    v: StatsView,
    file: FileProbe,
    attributes: u32,
    low: u32,
    high: u32,
    length: u64,
)
    requires
        file.exists,
        file.size == (SizeReading::Compressed {
            attributes,
            low,
            high,
            fallback: Some(length),
        }),
        !is_directory_word(attributes),
        low != INVALID_FILE_SIZE,
        high * 0x1_0000_0000 + low < length,
    ensures
        added(v, file).total_size_bytes == v.total_size_bytes + high * 0x1_0000_0000 + low,
        added(v, file).total_size_bytes < v.total_size_bytes + length,
{
}

/// A file with text adds its lines to the totals: all of them to the lines,
/// the blank ones to the blank lines, those that look like a comment in the
/// style of its extension to the comment lines, and the rest to the code
/// lines; and it adds the bytes of its text to the content size.
pub proof fn text_file_adds_its_lines(v: StatsView, file: FileProbe, text: Seq<char>)
    requires
        file.exists,
        file.content matches Some(c) && c@ == text,
    ensures
        ({
            let ls = lines(text);
            let blank = blank_count(ls);
            let comment = comment_count(ls, style_of(extension_key(file.name@)));
            &&& blank + comment <= ls.len()
            &&& added(v, file).total_lines == v.total_lines + ls.len()
            &&& added(v, file).blank_lines == v.blank_lines + blank
            &&& added(v, file).comment_lines == v.comment_lines + comment
            &&& added(v, file).code_lines == v.code_lines + (ls.len() - blank - comment)
            &&& added(v, file).total_content_size_bytes == v.total_content_size_bytes
                + utf8_length(text)
        }),
{
    counts_are_bounded(lines(text), style_of(extension_key(file.name@)));
}

/// A file without text, and a file that is gone, add no lines.
pub proof fn other_files_add_no_lines(v: StatsView, file: FileProbe)
    requires
        !file.exists || file.content is None,
    ensures
        added(v, file).total_lines == v.total_lines,
        added(v, file).code_lines == v.code_lines,
        added(v, file).comment_lines == v.comment_lines,
        added(v, file).blank_lines == v.blank_lines,
        added(v, file).total_content_size_bytes == v.total_content_size_bytes,
{
}

/// The list of the largest files stays in descending order and within ten
/// entries: a file that is there makes it one longer, up to ten, and a file
/// that is gone leaves it as it is.
pub proof fn largest_stay_ranked(v: StatsView, file: FileProbe)
    requires
        descending(v.largest_files),
        v.largest_files.len() <= 10,
    ensures
        descending(added(v, file).largest_files),
        added(v, file).largest_files.len() <= 10,
        added(v, file).largest_files.len() == if !file.exists {
            v.largest_files.len()
        } else if v.largest_files.len() < 10 {
            v.largest_files.len() + 1
        } else {
            10
        },
{
    if file.exists {
        let r = record_of(file);
        let large = LargeRecord { path: r.path, name: r.name, size: r.size };
        ranked_in_is_descending(v.largest_files, large);
        rank_place_splits(v.largest_files, large.size);
    }
}

/// The number of sensitive files follows the names alone: a file that is
/// there adds one exactly when its name ends in a listed suffix, whatever
/// its text holds.
pub proof fn sensitive_count_follows_name(v: StatsView, file: FileProbe)
    requires
        file.exists,
    ensures
        added(v, file).sensitive_files_count == v.sensitive_files_count + if sensitive_name(
            file.name@,
        ) {
            1nat
        } else {
            0nat
        },
        forall|other: FileProbe|
            other.exists && other.name@ == file.name@ ==> #[trigger] added(
                v,
                other,
            ).sensitive_files_count == added(v, file).sensitive_files_count,
{
}

/// Every file that is there counts as one file, and a file that is gone
/// counts as none.
pub proof fn file_counts_once(v: StatsView, file: FileProbe)
    ensures
        added(v, file).total_files == v.total_files + if file.exists {
            1nat
        } else {
            0nat
        },
{
}

/// Where every line of the totals is code, a comment or blank, it stays so
/// after a file was added.
pub proof fn lines_add_up(v: StatsView, file: FileProbe)
    requires
        v.total_lines == v.code_lines + v.comment_lines + v.blank_lines,
    ensures
        added(v, file).total_lines == added(v, file).code_lines + added(v, file).comment_lines
            + added(v, file).blank_lines,
{
    record_is_balanced(file);
}

/// The record of a visited file.
pub fn file_record(file: &FileProbe) -> (r: FileRecord)
    ensures
        r@ == record_of(*file),
        balanced(r@),
        !r.has_text ==> r.total_lines == 0,
{
    proof {
        record_is_balanced(*file);
    }
    let name = chars_of(file.name.as_str());
    let extension: String = match extension_of(name.as_slice()) {
        Some(ext) => {
            let ext_text = string_of(ext.as_slice());
            to_lowercase(ext_text.as_str())
        },
        None => owned("no_extension"),
    };
    let size: u64 = match get_real_file_size(&file.size) {
        Some(n) => n,
        None => 0,
    };
    let is_sensitive = might_contain_sensitive_info(file.name.as_str(), None);
    match &file.content {
        Some(content) => {
            let text = chars_of(content.as_str());
            let counts = count_lines(text.as_slice(), comment_style(extension.as_str()));
            FileRecord {
                path: file.path.clone(),
                name: file.name.clone(),
                extension,
                size,
                has_text: true,
                content_bytes: content.as_str().as_bytes().len() as u64,
                total_lines: counts.total,
                blank_lines: counts.blank,
                comment_lines: counts.comment,
                code_lines: counts.total - counts.blank - counts.comment,
                is_sensitive,
            }
        },
        None => FileRecord {
            path: file.path.clone(),
            name: file.name.clone(),
            extension,
            size,
            has_text: false,
            content_bytes: 0,
            total_lines: 0,
            blank_lines: 0,
            comment_lines: 0,
            code_lines: 0,
            is_sensitive,
        },
    }
}

/// The line that tells how many lines are of one kind, and their share.
pub open spec fn share_line(label: Seq<char>, count: nat, total: nat) -> Seq<char> {
    "  - "@ + label + ": "@ + decimal(count) + " ("@ + percent_text(count, total) + "%)\n"@
}

/// The line for the extension at place `at` of the file counts.
pub open spec fn type_line(v: StatsView, at: int) -> Seq<char> {
    let ext = v.files_by_extension[at].0;
    "  ."@ + ext + ": "@ + decimal(v.files_by_extension[at].1) + " files, "@ + decimal(
        amount_of(v.lines_by_extension, ext),
    ) + " lines, "@ + size_text(amount_of(v.size_by_extension, ext)) + "\n"@
}

/// The lines for the first `count` extensions of the ranking.
pub open spec fn type_lines(v: StatsView, order: Seq<usize>, count: nat) -> Seq<char>
    decreases count,
{
    if count == 0 {
        Seq::empty()
    } else {
        type_lines(v, order, (count - 1) as nat) + type_line(v, order[count - 1] as int)
    }
}

/// The line for one of the largest files.
pub open spec fn largest_line(f: LargeRecord) -> Seq<char> {
    "  "@ + f.name + ": "@ + size_text(f.size) + "\n"@
}

/// The lines for the first `count` of the largest files.
pub open spec fn largest_lines(list: Seq<LargeRecord>, count: nat) -> Seq<char>
    decreases count,
{
    if count == 0 {
        Seq::empty()
    } else {
        largest_lines(list, (count - 1) as nat) + largest_line(list[count - 1])
    }
}

/// The head of the summary: the counts of files and lines.
pub open spec fn counts_text(v: StatsView) -> Seq<char> {
    "\nProject Statistics:\n"@ + "==================\n"@ + "Total Files: "@ + decimal(
        v.total_files,
    ) + "\n"@ + "Total Lines of Code: "@ + decimal(v.total_lines) + "\n"@ + share_line(
        "Code Lines"@,
        v.code_lines,
        v.total_lines,
    ) + share_line("Comment Lines"@, v.comment_lines, v.total_lines) + share_line(
        "Blank Lines"@,
        v.blank_lines,
        v.total_lines,
    )
}

/// The sizes of the summary, with the share of the text in the size on
/// disk where both are known.
pub open spec fn sizes_text(v: StatsView) -> Seq<char> {
    "Total File System Size: "@ + size_text(v.total_size_bytes) + "\n"@
        + "Total Content Size: "@ + size_text(v.total_content_size_bytes) + "\n"@
        + "Average File Size: "@ + size_text(v.average_file_size) + "\n"@ + (if v.total_size_bytes
        > 0 && v.total_content_size_bytes > 0 {
        "Content to File Size Ratio: "@ + percent_text(
            v.total_content_size_bytes,
            v.total_size_bytes,
        ) + "%\n"@
    } else {
        Seq::empty()
    })
}

/// The note on sensitive files, where there are any.
pub open spec fn sensitive_text(v: StatsView) -> Seq<char> {
    if v.sensitive_files_count > 0 {
        "\nDetected "@ + decimal(v.sensitive_files_count)
            + " potentially sensitive file(s) that have been protected.\n"@
    } else {
        Seq::empty()
    }
}

/// The table of file types, the extension with the most files first.
pub open spec fn types_text(v: StatsView) -> Seq<char> {
    "\nFiles by Type:\n"@ + type_lines(
        v,
        ranking(amounts(v.files_by_extension)),
        v.files_by_extension.len(),
    )
}

/// The five largest files, where there are any.
pub open spec fn largest_text(v: StatsView) -> Seq<char> {
    if v.largest_files.len() > 0 {
        "\nLargest Files:\n"@ + largest_lines(
            v.largest_files,
            if v.largest_files.len() < 5 {
                v.largest_files.len()
            } else {
                5
            },
        )
    } else {
        Seq::empty()
    }
}

/// The summary of the statistics for reading.
pub open spec fn stats_text(v: StatsView) -> Seq<char> {
    counts_text(v) + sizes_text(v) + sensitive_text(v) + types_text(v) + largest_text(v)
}

/// Appends the line that tells how many lines are of one kind.
fn push_share_line(out: &mut String, label: &str, count: usize, total: usize)
    ensures
        final(out)@ == old(out)@ + share_line(label@, count as nat, total as nat),
{
    push_text(out, "  - ");
    push_text(out, label);
    push_text(out, ": ");
    push_decimal(out, count as u64);
    push_text(out, " (");
    push_percent(out, count as u64, total as u64);
    push_text(out, "%)\n");
    assert(out@ =~= old(out)@ + share_line(label@, count as nat, total as nat));
}

/// Appends a label, a size in words and a line feed.
fn push_size_line(out: &mut String, label: &str, bytes: u64)
    ensures
        final(out)@ == old(out)@ + (label@ + size_text(bytes as nat) + "\n"@),
{
    push_text(out, label);
    let size = format_size(bytes);
    push_text(out, size.as_str());
    push_text(out, "\n");
    assert(out@ =~= old(out)@ + (label@ + size_text(bytes as nat) + "\n"@));
}

/// Statistics over the files of a project.
pub struct ProjectStats {
    total_lines: usize,
    code_lines: usize,
    blank_lines: usize,
    comment_lines: usize,
    total_files: usize,
    files_by_extension: ExtensionTable,
    lines_by_extension: ExtensionTable,
    total_size_bytes: u64,
    total_content_size_bytes: u64,
    size_by_extension: ExtensionTable,
    sensitive_files_count: usize,
    largest_files: Vec<LargeFile>,
    average_file_size: u64,
}

impl View for ProjectStats {
    type V = StatsView;

    closed spec fn view(&self) -> StatsView {
        StatsView {
            total_lines: self.total_lines as nat,
            code_lines: self.code_lines as nat,
            blank_lines: self.blank_lines as nat,
            comment_lines: self.comment_lines as nat,
            total_files: self.total_files as nat,
            files_by_extension: self.files_by_extension@,
            lines_by_extension: self.lines_by_extension@,
            total_size_bytes: self.total_size_bytes as nat,
            total_content_size_bytes: self.total_content_size_bytes as nat,
            size_by_extension: self.size_by_extension@,
            sensitive_files_count: self.sensitive_files_count as nat,
            largest_files: self.largest_files@.map_values(|f: LargeFile| f@),
            average_file_size: self.average_file_size as nat,
        }
    }
}

impl ProjectStats {
    /// The statistics hold together.
    pub open spec fn wf(&self) -> bool {
        consistent(self@)
    }

    /// Statistics over no files.
    pub fn new() -> (r: Self)
        ensures
            r.wf(),
            r@ == (StatsView {
                total_lines: 0,
                code_lines: 0,
                blank_lines: 0,
                comment_lines: 0,
                total_files: 0,
                files_by_extension: Seq::empty(),
                lines_by_extension: Seq::empty(),
                total_size_bytes: 0,
                total_content_size_bytes: 0,
                size_by_extension: Seq::empty(),
                sensitive_files_count: 0,
                largest_files: Seq::empty(),
                average_file_size: 0,
            }),
    {
        let r = ProjectStats {
            total_lines: 0,
            code_lines: 0,
            blank_lines: 0,
            comment_lines: 0,
            total_files: 0,
            files_by_extension: ExtensionTable::new(),
            lines_by_extension: ExtensionTable::new(),
            total_size_bytes: 0,
            total_content_size_bytes: 0,
            size_by_extension: ExtensionTable::new(),
            sensitive_files_count: 0,
            largest_files: Vec::new(),
            average_file_size: 0,
        };
        assert(r@.largest_files == Seq::<LargeRecord>::empty());
        r
    }

    /// Puts a file at its place among the largest and keeps the first ten.
    fn rank_file(&mut self, path: &str, name: &str, size: u64)
        requires
            old(self).wf(),
        ensures
            final(self)@ == (StatsView {
                largest_files: ranked_in(
                    old(self)@.largest_files,
                    (LargeRecord { path: path@, name: name@, size: size as nat }),
                ),
                ..old(self)@
            }),
    {
        let ghost list = self@.largest_files;
        let mut at: usize = self.largest_files.len();
        assert(list.take(at as int) == list);
        while at > 0 && self.largest_files[at - 1].size < size
            invariant
                at <= self.largest_files.len(),
                *self == *old(self),
                list == self@.largest_files,
                rank_place(list, size as nat) == rank_place(list.take(at as int), size as nat),
            decreases at,
        {
            assert(list.take(at as int).last() == list[at - 1]);
            assert(list.take(at as int).drop_last() == list.take(at - 1));
            at -= 1;
        }
        proof {
            if at > 0 {
                assert(list.take(at as int).last() == list[at - 1]);
            }
            assert(rank_place(list, size as nat) == at);
        }
        let ghost file = LargeRecord { path: path@, name: name@, size: size as nat };
        self.largest_files.insert(at, LargeFile { path: owned(path), name: owned(name), size });
        assert(self@.largest_files == list.insert(at as int, file));
        if self.largest_files.len() > 10 {
            self.largest_files.truncate(10);
            assert(self@.largest_files == list.insert(at as int, file).take(10));
        }
    }

    /// Takes the record of one file into the statistics.
    pub fn add_record(&mut self, record: &FileRecord)
        requires
            old(self).wf(),
            balanced(record@),
            !record.has_text ==> record.total_lines == 0,
            in_range(with_record(old(self)@, record@)),
        ensures
            final(self).wf(),
            final(self)@ == with_record(old(self)@, record@),
    {
        proof {
            with_record_is_consistent(self@, record@);
        }
        self.total_files += 1;
        if record.is_sensitive {
            self.sensitive_files_count += 1;
        }
        let key = record.extension.as_str();
        self.files_by_extension.add(key, 1);
        self.total_size_bytes += record.size;
        self.size_by_extension.add(key, record.size);
        self.total_content_size_bytes += record.content_bytes;
        self.total_lines += record.total_lines;
        if record.has_text {
            self.lines_by_extension.add(key, record.total_lines as u64);
        }
        self.blank_lines += record.blank_lines;
        self.comment_lines += record.comment_lines;
        self.code_lines += record.code_lines;
        self.rank_file(record.path.as_str(), record.name.as_str(), record.size);
    }

    /// Takes one visited file into the statistics. A file that is no longer
    /// there changes nothing.
    pub fn add_file(&mut self, file: &FileProbe)
        requires
            old(self).wf(),
            in_range(added(old(self)@, *file)),
        ensures
            final(self).wf(),
            final(self)@ == added(old(self)@, *file),
    {
        if !file.exists {
            return;
        }
        let record = file_record(file);
        self.add_record(&record);
    }

    /// The number of lines in all files with text.
    pub fn total_lines(&self) -> (r: usize)
        ensures
            r == self@.total_lines,
    {
        self.total_lines
    }

    /// The number of lines that are neither blank nor comments.
    pub fn code_lines(&self) -> (r: usize)
        ensures
            r == self@.code_lines,
    {
        self.code_lines
    }

    /// The number of blank lines.
    pub fn blank_lines(&self) -> (r: usize)
        ensures
            r == self@.blank_lines,
    {
        self.blank_lines
    }

    /// The number of comment lines.
    pub fn comment_lines(&self) -> (r: usize)
        ensures
            r == self@.comment_lines,
    {
        self.comment_lines
    }

    /// The number of files.
    pub fn total_files(&self) -> (r: usize)
        ensures
            r == self@.total_files,
    {
        self.total_files
    }

    /// The number of files per extension.
    pub fn files_by_extension(&self) -> (r: &ExtensionTable)
        ensures
            r@ == self@.files_by_extension,
            self.wf() ==> r.wf(),
    {
        &self.files_by_extension
    }

    /// The number of lines per extension.
    pub fn lines_by_extension(&self) -> (r: &ExtensionTable)
        ensures
            r@ == self@.lines_by_extension,
            self.wf() ==> r.wf(),
    {
        &self.lines_by_extension
    }

    /// The space taken on disk by all files.
    pub fn total_size_bytes(&self) -> (r: u64)
        ensures
            r == self@.total_size_bytes,
    {
        self.total_size_bytes
    }

    /// The number of bytes of all text.
    pub fn total_content_size_bytes(&self) -> (r: u64)
        ensures
            r == self@.total_content_size_bytes,
    {
        self.total_content_size_bytes
    }

    /// The space taken on disk per extension.
    pub fn size_by_extension(&self) -> (r: &ExtensionTable)
        ensures
            r@ == self@.size_by_extension,
            self.wf() ==> r.wf(),
    {
        &self.size_by_extension
    }

    /// The number of sensitive files.
    pub fn sensitive_files_count(&self) -> (r: usize)
        ensures
            r == self@.sensitive_files_count,
    {
        self.sensitive_files_count
    }

    /// The largest files, largest first, ten at most.
    pub fn largest_files(&self) -> (r: &Vec<LargeFile>)
        ensures
            r@.map_values(|f: LargeFile| f@) == self@.largest_files,
    {
        &self.largest_files
    }

    /// The average file size, as settled by `finalize`.
    pub fn average_file_size(&self) -> (r: u64)
        ensures
            r == self@.average_file_size,
    {
        self.average_file_size
    }

    /// Appends the head of the summary.
    fn push_counts(&self, out: &mut String)
        ensures
            final(out)@ == old(out)@ + counts_text(self@),
    {
        push_text(out, "\nProject Statistics:\n");
        push_text(out, "==================\n");
        push_text(out, "Total Files: ");
        push_decimal(out, self.total_files as u64);
        push_text(out, "\n");
        push_text(out, "Total Lines of Code: ");
        push_decimal(out, self.total_lines as u64);
        push_text(out, "\n");
        push_share_line(out, "Code Lines", self.code_lines, self.total_lines);
        push_share_line(out, "Comment Lines", self.comment_lines, self.total_lines);
        push_share_line(out, "Blank Lines", self.blank_lines, self.total_lines);
        assert(out@ =~= old(out)@ + counts_text(self@));
    }

    /// Appends the sizes of the summary.
    fn push_sizes(&self, out: &mut String)
        ensures
            final(out)@ == old(out)@ + sizes_text(self@),
    {
        push_size_line(out, "Total File System Size: ", self.total_size_bytes);
        push_size_line(out, "Total Content Size: ", self.total_content_size_bytes);
        push_size_line(out, "Average File Size: ", self.average_file_size);
        if self.total_size_bytes > 0 && self.total_content_size_bytes > 0 {
            push_text(out, "Content to File Size Ratio: ");
            push_percent(out, self.total_content_size_bytes, self.total_size_bytes);
            push_text(out, "%\n");
        }
        assert(out@ =~= old(out)@ + sizes_text(self@));
    }

    /// Appends the note on sensitive files.
    fn push_sensitive(&self, out: &mut String)
        ensures
            final(out)@ == old(out)@ + sensitive_text(self@),
    {
        if self.sensitive_files_count > 0 {
            push_text(out, "\nDetected ");
            push_decimal(out, self.sensitive_files_count as u64);
            push_text(out, " potentially sensitive file(s) that have been protected.\n");
            assert(out@ =~= old(out)@ + sensitive_text(self@));
        }
    }

    /// Appends the line for the extension at place `at` of the file counts.
    fn push_type_line(&self, out: &mut String, at: usize)
        requires
            self.wf(),
            at < self@.files_by_extension.len(),
        ensures
            final(out)@ == old(out)@ + type_line(self@, at as int),
    {
        let ext = self.files_by_extension.extension_at(at);
        push_text(out, "  .");
        push_text(out, ext);
        push_text(out, ": ");
        push_decimal(out, self.files_by_extension.amount_at(at));
        push_text(out, " files, ");
        push_decimal(out, self.lines_by_extension.get(ext));
        push_text(out, " lines, ");
        let size = format_size(self.size_by_extension.get(ext));
        push_text(out, size.as_str());
        push_text(out, "\n");
        assert(out@ =~= old(out)@ + type_line(self@, at as int));
    }

    /// Appends the table of file types.
    fn push_types(&self, out: &mut String)
        requires
            self.wf(),
        ensures
            final(out)@ == old(out)@ + types_text(self@),
    {
        push_text(out, "\nFiles by Type:\n");
        let counts = self.files_by_extension.all_amounts();
        let order = rank(&counts);
        let types = counts.len();
        proof {
            ranking_is_sorted(counts@);
        }
        let ghost start = out@;
        let mut k: usize = 0;
        while k < order.len()
            invariant
                k <= order@.len(),
                self.wf(),
                order@ == ranking(amounts(self@.files_by_extension)),
                order@.len() == self@.files_by_extension.len(),
                forall|i: int|
                    0 <= i < order@.len() ==> 0 <= #[trigger] order@[i]
                        < self@.files_by_extension.len(),
                out@ == start + type_lines(self@, order@, k as nat),
            decreases order@.len() - k,
        {
            self.push_type_line(out, order[k]);
            k += 1;
            assert(out@ =~= start + type_lines(self@, order@, k as nat));
        }
        assert(out@ =~= old(out)@ + types_text(self@));
    }

    /// Appends the largest files.
    fn push_largest(&self, out: &mut String)
        ensures
            final(out)@ == old(out)@ + largest_text(self@),
    {
        if self.largest_files.len() == 0 {
            return;
        }
        push_text(out, "\nLargest Files:\n");
        let count: usize = if self.largest_files.len() < 5 {
            self.largest_files.len()
        } else {
            5
        };
        let ghost start = out@;
        let mut i: usize = 0;
        while i < count
            invariant
                i <= count <= self.largest_files@.len(),
                out@ == start + largest_lines(self@.largest_files, i as nat),
            decreases count - i,
        {
            let f = &self.largest_files[i];
            push_text(out, "  ");
            push_text(out, f.name.as_str());
            push_text(out, ": ");
            let size = format_size(f.size);
            push_text(out, size.as_str());
            push_text(out, "\n");
            i += 1;
            assert(out@ =~= start + largest_lines(self@.largest_files, i as nat));
        }
        assert(out@ =~= old(out)@ + largest_text(self@));
    }

    /// The summary of the statistics for reading: the counts of files and
    /// lines with the share of code, comments and blank lines; the sizes;
    /// the number of sensitive files; the table of file types, the type
    /// with the most files first; and the five largest files.
    pub fn format_stats(&self) -> (r: String)
        requires
            self.wf(),
        ensures
            r@ == stats_text(self@),
    {
        let mut out = String::new();
        self.push_counts(&mut out);
        self.push_sizes(&mut out);
        self.push_sensitive(&mut out);
        self.push_types(&mut out);
        self.push_largest(&mut out);
        out
    }

    /// Settles the average file size: the total size divided by the number
    /// of files, rounded down; nothing changes where there are no files.
    pub fn finalize(&mut self)
        ensures
            final(self)@ == (StatsView {
                average_file_size: if old(self)@.total_files > 0 {
                    old(self)@.total_size_bytes / old(self)@.total_files
                } else {
                    old(self)@.average_file_size
                },
                ..old(self)@
            }),
            old(self).wf() ==> final(self).wf(),
    {
        if self.total_files > 0 {
            self.average_file_size = self.total_size_bytes / (self.total_files as u64);
        }
    }
}

} // verus!
