//! Lines of text: splitting, trimming, and telling comments from code.

use vstd::prelude::*;
use vstd::slice::slice_subrange;
use crate::text::{
    chars_of, contains_str, contains_text, extension, extension_of, is_text, lowercase,
    starts_with_str, string_of, to_lowercase,
};

verus! {

/// Whether `c` is white space: one of the characters with the Unicode
/// property White_Space.
pub open spec fn white_space(c: char) -> bool {
    let v = c as u32;
    ||| 0x09 <= v <= 0x0D
    ||| v == 0x20
    ||| v == 0x85
    ||| v == 0xA0
    ||| v == 0x1680
    ||| 0x2000 <= v <= 0x200A
    ||| v == 0x2028
    ||| v == 0x2029
    ||| v == 0x202F
    ||| v == 0x205F
    ||| v == 0x3000
}

/// Whether `c` is white space.
pub fn is_white_space(c: char) -> (r: bool)
    ensures
        r == white_space(c),
{
    let v: u32 = c as u32;
    (0x09 <= v && v <= 0x0D) || v == 0x20 || v == 0x85 || v == 0xA0 || v == 0x1680 || (0x2000 <= v
        && v <= 0x200A) || v == 0x2028 || v == 0x2029 || v == 0x202F || v == 0x205F || v
        == 0x3000
}

/// Where the text of `s` begins once leading white space is dropped: the
/// position of the first character at or after `from` that is not white
/// space, or the length of `s`.
pub open spec fn lead_from(s: Seq<char>, from: int) -> int
    decreases s.len() - from,
{
    if from < 0 || from >= s.len() {
        s.len() as int
    } else if !white_space(s[from]) {
        from
    } else {
        lead_from(s, from + 1)
    }
}

/// The text begins at or behind the place from which it is looked for, and
/// within the string.
pub proof fn lead_from_bounds(s: Seq<char>, from: int)
    requires
        0 <= from <= s.len(),
    ensures
        from <= lead_from(s, from) <= s.len(),
    decreases s.len() - from,
{
    if from < s.len() && white_space(s[from]) {
        lead_from_bounds(s, from + 1);
    }
}

/// Where the text of `s` ends once trailing white space is dropped: the
/// position behind the last character that is not white space, or zero.
pub open spec fn trail(s: Seq<char>) -> int
    decreases s.len(),
{
    if s.len() == 0 {
        0
    } else if !white_space(s.last()) {
        s.len() as int
    } else {
        trail(s.drop_last())
    }
}

/// The text without leading and trailing white space.
pub open spec fn trimmed(s: Seq<char>) -> Seq<char> {
    if lead_from(s, 0) >= trail(s) {
        Seq::empty()
    } else {
        s.subrange(lead_from(s, 0), trail(s))
    }
}

/// Where the line that begins at `from` ends: the position of the next line
/// feed, or the end of the text.
pub open spec fn line_end(text: Seq<char>, from: int) -> int
    decreases text.len() - from,
{
    if from < 0 || from >= text.len() {
        text.len() as int
    } else if text[from] == '\n' {
        from
    } else {
        line_end(text, from + 1)
    }
}

/// The lines of the text from position `from` on.
pub open spec fn lines_from(text: Seq<char>, from: int) -> Seq<Seq<char>>
    decreases text.len() - from,
{
    if from < 0 || from >= text.len() {
        Seq::empty()
    } else if from <= line_end(text, from) < text.len() {
        seq![text.subrange(from, line_end(text, from))] + lines_from(
            text,
            line_end(text, from) + 1,
        )
    } else {
        seq![text.subrange(from, text.len() as int)]
    }
}

/// The lines of the text: what stands between line feeds. A line feed at
/// the very end closes the last line and opens no further one. A carriage
/// return before a line feed belongs to its line, where it counts as
/// trailing white space.
pub open spec fn lines(text: Seq<char>) -> Seq<Seq<char>> {
    lines_from(text, 0)
}

/// The end of a line is at or behind its start and within the text.
pub proof fn line_end_bounds(text: Seq<char>, from: int)
    requires
        0 <= from <= text.len(),
    ensures
        from <= line_end(text, from) <= text.len(),
        line_end(text, from) < text.len() ==> text[line_end(text, from)] == '\n',
        forall|k: int| from <= k < line_end(text, from) ==> text[k] != '\n',
    decreases text.len() - from,
{
    if from < text.len() && text[from] != '\n' {
        line_end_bounds(text, from + 1);
    }
}

/// How comments are written in a kind of file.
#[derive(Clone, Copy, PartialEq, Eq, Structural, Debug)]
pub enum CommentStyle {
    /// `//`, `/*`, `*` and `*/` open a comment line.
    Slashes,
    /// `#` opens a comment line.
    Hash,
    /// `<!--` opens a comment line, and `-->` anywhere in a line marks one.
    Markup,
    /// `/*`, `*/`, `*` and `//` open a comment line.
    StyleSheet,
    /// The kind of file has no comments that are recognised.
    Unknown,
}

/// The comment style of files with the extension `ext`, given in lower
/// case.
pub open spec fn style_of(ext: Seq<char>) -> CommentStyle {
    if ext == "rs"@ || ext == "c"@ || ext == "cpp"@ || ext == "h"@ || ext == "hpp"@ || ext
        == "js"@ || ext == "jsx"@ || ext == "ts"@ || ext == "tsx"@ || ext == "java"@ || ext
        == "cs"@ || ext == "go"@ || ext == "swift"@ {
        CommentStyle::Slashes
    } else if ext == "py"@ || ext == "rb"@ || ext == "sh"@ || ext == "bash"@ || ext == "yml"@
        || ext == "yaml"@ {
        CommentStyle::Hash
    } else if ext == "html"@ || ext == "xml"@ || ext == "svg"@ {
        CommentStyle::Markup
    } else if ext == "css"@ || ext == "scss"@ || ext == "sass"@ {
        CommentStyle::StyleSheet
    } else {
        CommentStyle::Unknown
    }
}

/// The comment style of a file by its name: that of its extension in lower
/// case; a name without an extension has no recognised comments.
pub open spec fn style_of_name(name: Seq<char>) -> CommentStyle {
    match extension(name) {
        Some(ext) => style_of(lowercase(ext)),
        None => CommentStyle::Unknown,
    }
}

/// Whether `line` looks like a comment in the given style. The line is
/// taken as it is; a caller that wants leading blanks ignored trims it
/// first.
pub open spec fn comment_line(style: CommentStyle, line: Seq<char>) -> bool {
    match style {
        CommentStyle::Slashes | CommentStyle::StyleSheet => {
            ||| "//"@.is_prefix_of(line)
            ||| "/*"@.is_prefix_of(line)
            ||| "*"@.is_prefix_of(line)
            ||| "*/"@.is_prefix_of(line)
        },
        CommentStyle::Hash => "#"@.is_prefix_of(line),
        CommentStyle::Markup => "<!--"@.is_prefix_of(line) || contains_text(line, "-->"@),
        CommentStyle::Unknown => false,
    }
}

/// The comment style of files with the extension `ext`, given in lower
/// case.
pub fn comment_style(ext: &str) -> (r: CommentStyle)
    ensures
        r == style_of(ext@),
{
    let chars = chars_of(ext);
    let e = chars.as_slice();
    if is_text(e, "rs") || is_text(e, "c") || is_text(e, "cpp") || is_text(e, "h") || is_text(
        e,
        "hpp",
    ) || is_text(e, "js") || is_text(e, "jsx") || is_text(e, "ts") || is_text(e, "tsx")
        || is_text(e, "java") || is_text(e, "cs") || is_text(e, "go") || is_text(e, "swift") {
        CommentStyle::Slashes
    } else if is_text(e, "py") || is_text(e, "rb") || is_text(e, "sh") || is_text(e, "bash")
        || is_text(e, "yml") || is_text(e, "yaml") {
        CommentStyle::Hash
    } else if is_text(e, "html") || is_text(e, "xml") || is_text(e, "svg") {
        CommentStyle::Markup
    } else if is_text(e, "css") || is_text(e, "scss") || is_text(e, "sass") {
        CommentStyle::StyleSheet
    } else {
        CommentStyle::Unknown
    }
}

/// The comment style of a file by its name.
pub fn comment_style_of_name(name: &str) -> (r: CommentStyle)
    ensures
        r == style_of_name(name@),
{
    let chars = chars_of(name);
    match extension_of(chars.as_slice()) {
        Some(ext) => {
            let ext_text = string_of(ext.as_slice());
            let lower = to_lowercase(ext_text.as_str());
            comment_style(lower.as_str())
        },
        None => CommentStyle::Unknown,
    }
}

/// Whether `line` looks like a comment in the given style.
pub fn is_comment_in(style: CommentStyle, line: &[char]) -> (r: bool)
    ensures
        r == comment_line(style, line@),
{
    match style {
        CommentStyle::Slashes | CommentStyle::StyleSheet => {
            starts_with_str(line, "//") || starts_with_str(line, "/*") || starts_with_str(
                line,
                "*",
            ) || starts_with_str(line, "*/")
        },
        CommentStyle::Hash => starts_with_str(line, "#"),
        CommentStyle::Markup => starts_with_str(line, "<!--") || contains_str(line, "-->"),
        CommentStyle::Unknown => false,
    }
}

/// Whether `line` is likely a comment in a file named `name`: the file's
/// extension, in lower case, selects the comment style, and the line is
/// held against it as it is.
pub fn is_likely_comment(line: &str, name: &str) -> (r: bool)
    ensures
        r == comment_line(style_of_name(name@), line@),
{
    let style = comment_style_of_name(name);
    let chars = chars_of(line);
    is_comment_in(style, chars.as_slice())
}

/// The bounds of `line` without leading and trailing white space.
pub fn trim_bounds(line: &[char]) -> (r: (usize, usize))
    ensures
        r.0 <= r.1 <= line@.len(),
        line@.subrange(r.0 as int, r.1 as int) == trimmed(line@),
{
    let n = line.len();
    let mut end: usize = n;
    assert(line@.take(n as int) == line@);
    while end > 0 && is_white_space(line[end - 1])
        invariant
            end <= n,
            n == line@.len(),
            trail(line@) == trail(line@.take(end as int)),
        decreases end,
    {
        assert(line@.take(end as int).drop_last() == line@.take(end - 1));
        end -= 1;
    }
    assert(trail(line@) == end) by {
        if end > 0 {
            assert(line@.take(end as int).last() == line@[end - 1]);
        }
    }
    let mut start: usize = 0;
    while start < n && is_white_space(line[start])
        invariant
            start <= n,
            n == line@.len(),
            lead_from(line@, 0) == lead_from(line@, start as int),
        decreases n - start,
    {
        start += 1;
    }
    if start >= end {
        assert(line@.subrange(end as int, end as int) == Seq::<char>::empty());
        (end, end)
    } else {
        (start, end)
    }
}

/// What was counted in a text: its lines, and how many of them are blank
/// or comments.
#[derive(Clone, Copy, PartialEq, Eq, Structural, Debug)]
pub struct LineCounts {
    /// All lines.
    pub total: usize,
    /// The lines that hold nothing but white space.
    pub blank: usize,
    /// The lines that are not blank and look like a comment.
    pub comment: usize,
}

/// Whether a line holds nothing but white space.
pub open spec fn blank_line(line: Seq<char>) -> bool {
    trimmed(line).len() == 0
}

/// The number of blank lines among `ls`.
pub open spec fn blank_count(ls: Seq<Seq<char>>) -> nat
    decreases ls.len(),
{
    if ls.len() == 0 {
        0
    } else if blank_line(ls.last()) {
        blank_count(ls.drop_last()) + 1
    } else {
        blank_count(ls.drop_last())
    }
}

/// The number of lines among `ls` that are not blank and, once trimmed,
/// look like a comment in the given style.
pub open spec fn comment_count(ls: Seq<Seq<char>>, style: CommentStyle) -> nat
    decreases ls.len(),
{
    if ls.len() == 0 {
        0
    } else if !blank_line(ls.last()) && comment_line(style, trimmed(ls.last())) {
        comment_count(ls.drop_last(), style) + 1
    } else {
        comment_count(ls.drop_last(), style)
    }
}

/// Blank lines and comment lines together are no more than all lines.
pub proof fn counts_are_bounded(ls: Seq<Seq<char>>, style: CommentStyle)
    ensures
        blank_count(ls) + comment_count(ls, style) <= ls.len(),
    decreases ls.len(),
{
    if ls.len() > 0 {
        counts_are_bounded(ls.drop_last(), style);
    }
}

/// Counts the lines of `text`, and among them the blank lines and the
/// lines that look like comments in the given style.
pub fn count_lines(text: &[char], style: CommentStyle) -> (r: LineCounts)
    ensures
        r.total == lines(text@).len(),
        r.blank == blank_count(lines(text@)),
        r.comment == comment_count(lines(text@), style),
        r.blank + r.comment <= r.total,
{
    let n = text.len();
    let mut total: usize = 0;
    let mut blank: usize = 0;
    let mut comment: usize = 0;
    let mut at: usize = 0;
    let ghost mut done: Seq<Seq<char>> = Seq::empty();
    while at < n
        invariant
            at <= n,
            n == text@.len(),
            lines(text@) == done + lines_from(text@, at as int),
            total == done.len(),
            total <= at,
            blank == blank_count(done),
            comment == comment_count(done, style),
        decreases n - at,
    {
        let mut end: usize = at;
        while end < n && text[end] != '\n'
            invariant
                at <= end <= n,
                n == text@.len(),
                line_end(text@, at as int) == line_end(text@, end as int),
            decreases n - end,
        {
            end += 1;
        }
        let line = slice_subrange(text, at, end);
        proof {
            assert(line_end(text@, at as int) == end);
            assert(line@ == text@.subrange(at as int, end as int));
            counts_are_bounded(done, style);
        }
        let (a, b) = trim_bounds(line);
        let ghost next = done.push(line@);
        proof {
            assert(next.drop_last() == done);
            assert(next.last() == line@);
            assert(done + lines_from(text@, at as int) == next + lines_from(text@, end + 1));
            assert(lines_from(text@, n + 1) == lines_from(text@, n as int));
        }
        if a == b {
            blank += 1;
        } else {
            let body = slice_subrange(line, a, b);
            if is_comment_in(style, body) {
                comment += 1;
            }
        }
        total += 1;
        proof {
            done = next;
        }
        if end == n {
            at = n;
        } else {
            at = end + 1;
        }
    }
    proof {
        assert(lines_from(text@, at as int) == Seq::<Seq<char>>::empty());
        assert(done + Seq::<Seq<char>>::empty() == done);
        counts_are_bounded(done, style);
    }
    LineCounts { total, blank, comment }
}

} // verus!
