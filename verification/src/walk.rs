//! The walk over a directory tree: what is left out, in which order the
//! rest is visited, and what the visit adds to the tree text, the list of
//! file paths, the statistics and the report of excluded content.

use vstd::prelude::*;
use crate::exclusion::{
    base_excluded_dir, excluded_file_name, file_exclusion_reason, get_file_exclusion_reason,
    is_excluded_file, ExcludedDirectoryRecord, ExcludedFileRecord,
};
use crate::project::{dir_exclusion_reason, get_exclusion_reason, ProjectDetector};
use crate::size::{get_real_file_size, real_size};
use crate::snapshot::{DirListing, Entry, FileProbe};
use crate::stats::{
    added, added_is_consistent, consistent, counted_size, in_range, ProjectStats, StatsView,
};
use crate::text::{
    chars_of, is_text, owned, push_text, text_before, text_le, text_order_carries_over,
    text_order_is_strict, text_order_is_total,
};

verus! {

/// What an entry adds to the size of the tree above it: a regular file its
/// size on disk, a directory the size of its tree, anything else nothing.
pub open spec fn entry_size(e: Entry) -> nat
    decreases e, 0nat,
{
    match e {
        Entry::File(f) => if f.regular {
            counted_size(f)
        } else {
            0
        },
        Entry::Dir(d) => tree_size(d),
    }
}

/// The space taken by the regular files among the first `n` entries and
/// below them.
pub open spec fn entries_size(entries: Seq<Entry>, n: nat) -> nat
    decreases entries, n,
{
    if n == 0 || n > entries.len() {
        0
    } else {
        entries_size(entries, (n - 1) as nat) + entry_size(entries[n - 1])
    }
}

/// The space taken by all regular files below the directory, at any depth.
pub open spec fn tree_size(dir: DirListing) -> nat
    decreases dir, 1nat,
{
    entries_size(dir.entries@, dir.entries@.len())
}

/// What an entry adds to the number of files of the tree above it.
pub open spec fn entry_files(e: Entry) -> nat
    decreases e, 0nat,
{
    match e {
        Entry::File(f) => if f.regular {
            1
        } else {
            0
        },
        Entry::Dir(d) => tree_files(d),
    }
}

/// The number of regular files among the first `n` entries and below them.
pub open spec fn entries_files(entries: Seq<Entry>, n: nat) -> nat
    decreases entries, n,
{
    if n == 0 || n > entries.len() {
        0
    } else {
        entries_files(entries, (n - 1) as nat) + entry_files(entries[n - 1])
    }
}

/// The number of regular files below the directory, at any depth.
pub open spec fn tree_files(dir: DirListing) -> nat
    decreases dir, 1nat,
{
    entries_files(dir.entries@, dir.entries@.len())
}

/// The sums over the first entries are no more than the sums over all.
pub proof fn prefix_sums_grow(entries: Seq<Entry>, n: nat, m: nat)
    requires
        n <= m <= entries.len(),
    ensures
        entries_size(entries, n) <= entries_size(entries, m),
        entries_files(entries, n) <= entries_files(entries, m),
    decreases m,
{
    if n < m {
        prefix_sums_grow(entries, n, (m - 1) as nat);
    }
}

/// The space taken by all regular files below the directory, and their
/// number. The directory is searched to any depth; nothing is excluded.
pub fn calculate_directory_size(dir: &DirListing) -> (r: (u64, usize))
    requires
        tree_size(*dir) <= u64::MAX,
        tree_files(*dir) <= usize::MAX,
    ensures
        r.0 == tree_size(*dir),
        r.1 == tree_files(*dir),
    decreases dir,
{
    let entries = &dir.entries;
    let mut total_size: u64 = 0;
    let mut file_count: usize = 0;
    let mut i: usize = 0;
    while i < entries.len()
        invariant
            i <= entries.len(),
            entries == &dir.entries,
            total_size == entries_size(entries@, i as nat),
            file_count == entries_files(entries@, i as nat),
            entries_size(entries@, entries@.len()) <= u64::MAX,
            entries_files(entries@, entries@.len()) <= usize::MAX,
        decreases entries.len() - i,
    {
        proof {
            prefix_sums_grow(entries@, (i + 1) as nat, entries@.len());
            assert(entries_size(entries@, (i + 1) as nat) == entries_size(entries@, i as nat)
                + entry_size(entries@[i as int]));
            assert(entries_files(entries@, (i + 1) as nat) == entries_files(entries@, i as nat)
                + entry_files(entries@[i as int]));
        }
        match &entries[i] {
            Entry::File(f) => {
                if f.regular {
                    file_count += 1;
                    if let Some(size) = get_real_file_size(&f.size) {
                        total_size += size;
                    }
                }
            },
            Entry::Dir(d) => {
                let (size, count) = calculate_directory_size(d);
                total_size += size;
                file_count += count;
            },
        }
        i += 1;
    }
    (total_size, file_count)
}

/// Whether entry `a` is listed before entry `b` or at the same rank:
/// directories come before everything else, and within each kind the names
/// decide.
pub open spec fn listed_before(a: Entry, b: Entry) -> bool {
    if (a is Dir) != (b is Dir) {
        a is Dir
    } else {
        text_le(a.name(), b.name())
    }
}

/// The names that decide what the walk leaves out and skips.
pub struct WalkRules {
    /// The names of the excluded directories.
    pub dirs: Seq<Seq<char>>,
    /// The name under which the running program was called.
    pub script_name: Seq<char>,
    /// The name of the file that the report is written to.
    pub output_file_name: Seq<char>,
}

/// Whether the walk keeps the entry: it is neither an excluded directory
/// nor named like an excluded file.
pub open spec fn entry_kept(e: Entry, dirs: Seq<Seq<char>>) -> bool {
    !(e is Dir && dirs.contains(e.name())) && !excluded_file_name(e.name())
}

/// Whether the entry is passed over without a word: it is named like the
/// running program or like the report.
pub open spec fn skipped(e: Entry, rules: WalkRules) -> bool {
    e.name() == rules.script_name || e.name() == rules.output_file_name
}

/// Whether the entry gets a row in the tree: the walk keeps it and does not
/// pass it over.
pub open spec fn entry_listed(e: Entry, rules: WalkRules) -> bool {
    entry_kept(e, rules.dirs) && !skipped(e, rules)
}

/// Where the entry `e` goes into the visiting order `order`: behind the
/// last entry that is listed before it or at the same rank.
pub open spec fn sort_slot(entries: Seq<Entry>, order: Seq<usize>, e: Entry) -> int
    decreases order.len(),
{
    if order.len() == 0 {
        0
    } else if listed_before(entries[order.last() as int], e) {
        order.len() as int
    } else {
        sort_slot(entries, order.drop_last(), e)
    }
}

/// The order in which the entries among the first `n` that get a row are
/// visited: their positions, directories first, each kind by name; entries
/// of equal rank keep the order of the listing.
pub open spec fn visit_order(entries: Seq<Entry>, n: nat, rules: WalkRules) -> Seq<usize>
    decreases n,
{
    if n == 0 || n > entries.len() {
        Seq::empty()
    } else if entry_listed(entries[n - 1], rules) {
        let rest = visit_order(entries, (n - 1) as nat, rules);
        rest.insert(sort_slot(entries, rest, entries[n - 1]), (n - 1) as usize)
    } else {
        visit_order(entries, (n - 1) as nat, rules)
    }
}

/// The slot lies within the order.
pub proof fn sort_slot_bounds(entries: Seq<Entry>, order: Seq<usize>, e: Entry)
    ensures
        0 <= sort_slot(entries, order, e) <= order.len(),
    decreases order.len(),
{
    if order.len() > 0 && !listed_before(entries[order.last() as int], e) {
        sort_slot_bounds(entries, order.drop_last(), e);
    }
}

/// The visiting order holds positions of kept entries among the first `n`,
/// each at most once.
pub proof fn visit_order_holds_kept(entries: Seq<Entry>, n: nat, rules: WalkRules)
    requires
        n <= entries.len(),
        entries.len() <= usize::MAX,
    ensures
        visit_order(entries, n, rules).len() <= n,
        forall|k: int|
            0 <= k < visit_order(entries, n, rules).len() ==> {
                &&& 0 <= (#[trigger] visit_order(entries, n, rules)[k]) < n
                &&& entry_listed(entries[visit_order(entries, n, rules)[k] as int], rules)
            },
        forall|i: int, j: int|
            0 <= i < j < visit_order(entries, n, rules).len() ==> visit_order(entries, n, rules)[i]
                != visit_order(entries, n, rules)[j],
    decreases n,
{
    if n > 0 {
        visit_order_holds_kept(entries, (n - 1) as nat, rules);
        if entry_listed(entries[n - 1], rules) {
            let rest = visit_order(entries, (n - 1) as nat, rules);
            let at = sort_slot(entries, rest, entries[n - 1]);
            sort_slot_bounds(entries, rest, entries[n - 1]);
            let r = visit_order(entries, n, rules);
            assert(r == rest.insert(at, (n - 1) as usize));
            assert forall|k: int| 0 <= k < r.len() implies {
                &&& 0 <= (#[trigger] r[k]) < n
                &&& entry_listed(entries[r[k] as int], rules)
            } by {
                if k < at {
                    assert(r[k] == rest[k]);
                } else if k > at {
                    assert(r[k] == rest[k - 1]);
                }
            }
            assert forall|i: int, j: int| 0 <= i < j < r.len() implies r[i] != r[j] by {
                let a = if i < at {
                    i
                } else {
                    i - 1
                };
                let b = if j < at {
                    j
                } else {
                    j - 1
                };
                if i != at && j != at {
                    assert(rest[a] != rest[b]);
                }
                if i == at {
                    assert(r[j] == rest[b]);
                }
                if j == at {
                    assert(r[i] == rest[a]);
                }
            }
        }
    }
}

/// One step of the walk.
pub enum Visit {
    /// An entry was listed in the tree, `depth` levels below the root;
    /// `last` tells whether it closes its directory.
    Listed { depth: nat, last: bool, entry: Entry },
    /// A directory was left out and recorded.
    LeftOutDirectory(ExcludedDirectoryRecord),
    /// A file was left out and recorded.
    LeftOutFile(ExcludedFileRecord),
}

/// What leaving out the entry `e` records: an excluded directory with the
/// size and the number of the files below it; an entry named like an
/// excluded file with its size, if that is known; nothing for a kept entry.
pub open spec fn left_out_one(e: Entry, dirs: Seq<Seq<char>>) -> Seq<Visit> {
    match e {
        Entry::Dir(d) if dirs.contains(d.name@) => seq![
            Visit::LeftOutDirectory(
                ExcludedDirectoryRecord {
                    path: d.path@,
                    size: tree_size(d),
                    file_count: tree_files(d),
                    reason: dir_exclusion_reason(d.name@, dirs),
                },
            ),
        ],
        _ => if excluded_file_name(e.name()) {
            match real_size(e.reading()) {
                Some(n) => seq![
                    Visit::LeftOutFile(
                        ExcludedFileRecord {
                            path: e.path(),
                            size: n,
                            reason: file_exclusion_reason(e.name()),
                        },
                    ),
                ],
                None => Seq::empty(),
            }
        } else {
            Seq::empty()
        },
    }
}

/// What is recorded as left out among the first `n` entries, in the order
/// of the listing.
pub open spec fn left_out(entries: Seq<Entry>, n: nat, dirs: Seq<Seq<char>>) -> Seq<Visit>
    decreases n,
{
    if n == 0 || n > entries.len() {
        Seq::empty()
    } else {
        left_out(entries, (n - 1) as nat, dirs) + left_out_one(entries[n - 1], dirs)
    }
}

/// The visit of one entry: its row in the tree, and for a directory the
/// walk through it one level deeper.
pub open spec fn visit(e: Entry, depth: nat, last: bool, rules: WalkRules) -> Seq<Visit>
    decreases e, 0nat,
{
    match e {
        Entry::File(_) => seq![Visit::Listed { depth, last, entry: e }],
        Entry::Dir(d) => seq![Visit::Listed { depth, last, entry: e }] + trace(
            d,
            depth + 1,
            rules,
        ),
    }
}

/// The visits of the first `k` entries of the visiting order. The order
/// holds the entries that get a row and no others, so the entry that stands
/// last in it is the last row of the directory and closes it.
pub open spec fn rows(
    entries: Seq<Entry>,
    order: Seq<usize>,
    k: nat,
    depth: nat,
    rules: WalkRules,
) -> Seq<Visit>
    decreases entries, k,
{
    if k == 0 || k > order.len() {
        Seq::empty()
    } else if order[k - 1] < entries.len() {
        rows(entries, order, (k - 1) as nat, depth, rules) + visit(
            entries[order[k - 1] as int],
            depth,
            k == order.len(),
            rules,
        )
    } else {
        rows(entries, order, (k - 1) as nat, depth, rules)
    }
}

/// The walk through a directory: first what is left out of it is recorded,
/// in the order of the listing; then the kept entries are visited,
/// directories first and each kind by name, but for those named like the
/// running program or like the report, which are passed over.
pub open spec fn trace(dir: DirListing, depth: nat, rules: WalkRules) -> Seq<Visit>
    decreases dir, 1nat,
{
    left_out(dir.entries@, dir.entries@.len(), rules.dirs) + rows(
        dir.entries@,
        visit_order(dir.entries@, dir.entries@.len(), rules),
        visit_order(dir.entries@, dir.entries@.len(), rules).len(),
        depth,
        rules,
    )
}

/// The indentation of a row `depth` levels below the root.
pub open spec fn indent(depth: nat) -> Seq<char>
    decreases depth,
{
    if depth == 0 {
        Seq::empty()
    } else {
        indent((depth - 1) as nat) + "│   "@
    }
}

/// The line that one step adds to the tree text: for a listed entry its
/// indentation, the branch sign, its name, and a slash behind a directory.
pub open spec fn visit_line(v: Visit) -> Seq<char> {
    match v {
        Visit::Listed { depth, last, entry } => indent(depth) + (if last {
            "└── "@
        } else {
            "├── "@
        }) + entry.name() + (if entry is Dir {
            "/\n"@
        } else {
            "\n"@
        }),
        _ => Seq::empty(),
    }
}

/// The tree text of a walk.
pub open spec fn tree_text(t: Seq<Visit>) -> Seq<char>
    decreases t.len(),
{
    if t.len() == 0 {
        Seq::empty()
    } else {
        tree_text(t.drop_last()) + visit_line(t.last())
    }
}

/// The files listed by a walk, in the order of their rows.
pub open spec fn listed_files(t: Seq<Visit>) -> Seq<FileProbe>
    decreases t.len(),
{
    if t.len() == 0 {
        Seq::empty()
    } else {
        match t.last() {
            Visit::Listed { entry: Entry::File(f), .. } => listed_files(t.drop_last()).push(f),
            _ => listed_files(t.drop_last()),
        }
    }
}

/// The paths of the files, in their order.
pub open spec fn paths_of(files: Seq<FileProbe>) -> Seq<Seq<char>> {
    files.map_values(|f: FileProbe| f.path@)
}

/// The statistics after the files were added one by one.
pub open spec fn added_all(v: StatsView, files: Seq<FileProbe>) -> StatsView
    decreases files.len(),
{
    if files.len() == 0 {
        v
    } else {
        added(added_all(v, files.drop_last()), files.last())
    }
}

/// The directories recorded as left out by a walk, in their order.
pub open spec fn left_out_directories(t: Seq<Visit>) -> Seq<ExcludedDirectoryRecord>
    decreases t.len(),
{
    if t.len() == 0 {
        Seq::empty()
    } else {
        match t.last() {
            Visit::LeftOutDirectory(d) => left_out_directories(t.drop_last()).push(d),
            _ => left_out_directories(t.drop_last()),
        }
    }
}

/// The files recorded as left out by a walk, in their order.
pub open spec fn left_out_files(t: Seq<Visit>) -> Seq<ExcludedFileRecord>
    decreases t.len(),
{
    if t.len() == 0 {
        Seq::empty()
    } else {
        match t.last() {
            Visit::LeftOutFile(f) => left_out_files(t.drop_last()).push(f),
            _ => left_out_files(t.drop_last()),
        }
    }
}

/// The sum of the sizes recorded as left out by a walk.
pub open spec fn left_out_total(t: Seq<Visit>) -> nat
    decreases t.len(),
{
    if t.len() == 0 {
        0
    } else {
        left_out_total(t.drop_last()) + match t.last() {
            Visit::LeftOutDirectory(d) => d.size,
            Visit::LeftOutFile(f) => f.size,
            _ => 0,
        }
    }
}

/// The largest number of files recorded for one left-out directory.
pub open spec fn left_out_count(t: Seq<Visit>) -> nat
    decreases t.len(),
{
    if t.len() == 0 {
        0
    } else {
        let rest = left_out_count(t.drop_last());
        match t.last() {
            Visit::LeftOutDirectory(d) => if d.file_count > rest {
                d.file_count
            } else {
                rest
            },
            _ => rest,
        }
    }
}

/// How many levels of directories lie below an entry, the entry included.
pub open spec fn entry_height(e: Entry) -> nat
    decreases e, 0nat,
{
    match e {
        Entry::File(_) => 0,
        Entry::Dir(d) => 1 + tree_height(d),
    }
}

/// The largest height among the first `n` entries.
pub open spec fn entries_height(entries: Seq<Entry>, n: nat) -> nat
    decreases entries, n,
{
    if n == 0 || n > entries.len() {
        0
    } else if entry_height(entries[n - 1]) > entries_height(entries, (n - 1) as nat) {
        entry_height(entries[n - 1])
    } else {
        entries_height(entries, (n - 1) as nat)
    }
}

/// How many levels of directories lie below the directory.
pub open spec fn tree_height(dir: DirListing) -> nat
    decreases dir, 1nat,
{
    entries_height(dir.entries@, dir.entries@.len())
}

/// The walk stays within the ranges of the counters: the statistics and
/// the total of the report after it, the number of files of each left-out
/// directory, and the depth of the deepest row.
pub open spec fn walk_fits(
    stats: StatsView,
    report_total: nat,
    dir: DirListing,
    depth: nat,
    rules: WalkRules,
) -> bool {
    let t = trace(dir, depth, rules);
    &&& in_range(added_all(stats, listed_files(t)))
    &&& report_total + left_out_total(t) <= u64::MAX
    &&& left_out_count(t) <= usize::MAX
    &&& depth + tree_height(dir) <= usize::MAX
}

/// What a walk made of two parts adds is what the first part adds and then
/// the second.
pub proof fn walk_splits(a: Seq<Visit>, b: Seq<Visit>)
    ensures
        tree_text(a + b) == tree_text(a) + tree_text(b),
        listed_files(a + b) == listed_files(a) + listed_files(b),
        left_out_directories(a + b) == left_out_directories(a) + left_out_directories(b),
        left_out_files(a + b) == left_out_files(a) + left_out_files(b),
        left_out_total(a + b) == left_out_total(a) + left_out_total(b),
        left_out_count(a + b) >= left_out_count(a),
        left_out_count(a + b) >= left_out_count(b),
    decreases b.len(),
{
    if b.len() == 0 {
        assert(a + b == a);
    } else {
        assert((a + b).drop_last() == a + b.drop_last());
        assert((a + b).last() == b.last());
        walk_splits(a, b.drop_last());
    }
}

/// Adding files in two runs is adding them in one.
pub proof fn added_all_splits(v: StatsView, a: Seq<FileProbe>, b: Seq<FileProbe>)
    ensures
        added_all(v, a + b) == added_all(added_all(v, a), b),
    decreases b.len(),
{
    if b.len() == 0 {
        assert(a + b == a);
    } else {
        assert((a + b).drop_last() == a + b.drop_last());
        assert((a + b).last() == b.last());
        added_all_splits(v, a, b.drop_last());
    }
}

/// Adding files never lowers a total, and keeps the statistics consistent.
pub proof fn added_all_grows(v: StatsView, files: Seq<FileProbe>)
    requires
        consistent(v),
    ensures
        consistent(added_all(v, files)),
        v.total_files <= added_all(v, files).total_files,
        v.total_lines <= added_all(v, files).total_lines,
        v.total_size_bytes <= added_all(v, files).total_size_bytes,
        v.total_content_size_bytes <= added_all(v, files).total_content_size_bytes,
    decreases files.len(),
{
    if files.len() > 0 {
        added_all_grows(v, files.drop_last());
        added_is_consistent(added_all(v, files.drop_last()), files.last());
    }
}

/// What is left out among the first entries is part of what is left out
/// among all.
pub proof fn left_out_grows(entries: Seq<Entry>, n: nat, m: nat, dirs: Seq<Seq<char>>)
    requires
        n <= m <= entries.len(),
    ensures
        left_out_total(left_out(entries, n, dirs)) <= left_out_total(left_out(entries, m, dirs)),
        left_out_count(left_out(entries, n, dirs)) <= left_out_count(left_out(entries, m, dirs)),
    decreases m,
{
    if n < m {
        left_out_grows(entries, n, (m - 1) as nat, dirs);
        walk_splits(left_out(entries, (m - 1) as nat, dirs), left_out_one(entries[m - 1], dirs));
    }
}

/// What a walk of a single step adds.
pub proof fn walk_of_one(v: Visit)
    ensures
        tree_text(seq![v]) == visit_line(v),
        listed_files(seq![v]) == match v {
            Visit::Listed { entry: Entry::File(f), .. } => seq![f],
            _ => Seq::empty(),
        },
        left_out_directories(seq![v]) == match v {
            Visit::LeftOutDirectory(d) => seq![d],
            _ => Seq::empty(),
        },
        left_out_files(seq![v]) == match v {
            Visit::LeftOutFile(f) => seq![f],
            _ => Seq::empty(),
        },
        left_out_total(seq![v]) == match v {
            Visit::LeftOutDirectory(d) => d.size,
            Visit::LeftOutFile(f) => f.size,
            _ => 0,
        },
        left_out_count(seq![v]) == match v {
            Visit::LeftOutDirectory(d) => d.file_count,
            _ => 0,
        },
{
    let t = seq![v];
    assert(t.drop_last() == Seq::<Visit>::empty());
    assert(t.last() == v);
    assert(tree_text(t) == tree_text(t.drop_last()) + visit_line(v));
    assert(tree_text(t) =~= visit_line(v));
    assert(listed_files(t.drop_last()) == Seq::<FileProbe>::empty());
    assert(left_out_directories(t.drop_last()) == Seq::<ExcludedDirectoryRecord>::empty());
    assert(left_out_files(t.drop_last()) == Seq::<ExcludedFileRecord>::empty());
    assert(left_out_total(t.drop_last()) == 0);
    assert(left_out_count(t.drop_last()) == 0);
}

/// Leaving entries out adds no row to the tree and lists no file.
pub proof fn left_out_lists_nothing(entries: Seq<Entry>, n: nat, dirs: Seq<Seq<char>>)
    ensures
        tree_text(left_out(entries, n, dirs)) == Seq::<char>::empty(),
        listed_files(left_out(entries, n, dirs)) == Seq::<FileProbe>::empty(),
    decreases n,
{
    if n > 0 && n <= entries.len() {
        left_out_lists_nothing(entries, (n - 1) as nat, dirs);
        let one = left_out_one(entries[n - 1], dirs);
        walk_splits(left_out(entries, (n - 1) as nat, dirs), one);
        if one.len() > 0 {
            walk_of_one(one[0]);
            assert(one == seq![one[0]]);
        }
    }
}

/// Whether the walk leaves the entry out as an excluded directory.
pub fn is_excluded(entry: &Entry, project_detector: &ProjectDetector) -> (r: bool)
    ensures
        r == (entry is Dir && project_detector.excludes(entry.name())),
{
    match entry {
        Entry::Dir(d) => project_detector.is_excluded_dir(d.name.as_str()),
        Entry::File(_) => false,
    }
}

/// Whether entry `a` is listed before entry `b` or at the same rank.
fn entry_before(a: &Entry, a_name: &[char], b: &Entry, b_name: &[char]) -> (r: bool)
    requires
        a_name@ == a.name(),
        b_name@ == b.name(),
    ensures
        r == listed_before(*a, *b),
{
    if a.is_dir() != b.is_dir() {
        a.is_dir()
    } else {
        text_before(a_name, b_name)
    }
}

/// Records the entry in the report if the walk leaves it out, and tells
/// whether the walk keeps it.
fn record_left_out(entry: &Entry, project_detector: &mut ProjectDetector) -> (kept: bool)
    requires
        old(project_detector).wf(),
        old(project_detector).report().total() + left_out_total(
            left_out_one(*entry, old(project_detector).dirs()),
        ) <= u64::MAX,
        left_out_count(left_out_one(*entry, old(project_detector).dirs())) <= usize::MAX,
    ensures
        final(project_detector).wf(),
        final(project_detector).dirs() == old(project_detector).dirs(),
        final(project_detector).types() == old(project_detector).types(),
        final(project_detector).frameworks() == old(project_detector).frameworks(),
        kept == entry_kept(*entry, old(project_detector).dirs()),
        final(project_detector).report().directories() == old(
            project_detector,
        ).report().directories() + left_out_directories(
            left_out_one(*entry, old(project_detector).dirs()),
        ),
        final(project_detector).report().files() == old(project_detector).report().files()
            + left_out_files(left_out_one(*entry, old(project_detector).dirs())),
        final(project_detector).report().total() == old(project_detector).report().total()
            + left_out_total(left_out_one(*entry, old(project_detector).dirs())),
{
    let ghost one = left_out_one(*entry, project_detector.dirs());
    proof {
        if one.len() > 0 {
            walk_of_one(one[0]);
            assert(one == seq![one[0]]);
        }
    }
    if is_excluded(entry, project_detector) {
        match entry {
            Entry::Dir(d) => {
                let reason = get_exclusion_reason(d.name.as_str(), project_detector);
                let (size, file_count) = calculate_directory_size(d);
                project_detector.add_excluded_directory(
                    d.path.as_str(),
                    size,
                    file_count,
                    reason.as_str(),
                );
            },
            Entry::File(_) => {},
        }
        false
    } else if is_excluded_file(entry.file_name()) {
        let reason = get_file_exclusion_reason(entry.file_name());
        if let Some(size) = get_real_file_size(entry.size_reading()) {
            project_detector.add_excluded_file(entry.full_path(), size, reason.as_str());
        }
        false
    } else {
        true
    }
}

/// Puts the position `n` at its place in the visiting order.
fn place_entry(
    entries: &Vec<Entry>,
    names: &Vec<Vec<char>>,
    name: &Vec<char>,
    order: &mut Vec<usize>,
    n: usize,
)
    requires
        n < entries@.len(),
        names@.len() == n,
        name@ == entries@[n as int].name(),
        forall|i: int| 0 <= i < n ==> (#[trigger] names@[i])@ == entries@[i].name(),
        forall|k: int| 0 <= k < old(order)@.len() ==> 0 <= #[trigger] old(order)@[k] < n,
    ensures
        final(order)@ == old(order)@.insert(
            sort_slot(entries@, old(order)@, entries@[n as int]),
            n,
        ),
        0 <= sort_slot(entries@, old(order)@, entries@[n as int]) <= old(order)@.len(),
{
    let entry = &entries[n];
    let mut j: usize = order.len();
    assert(order@.take(j as int) == order@);
    while j > 0 && !entry_before(
        &entries[order[j - 1]],
        names[order[j - 1]].as_slice(),
        entry,
        name.as_slice(),
    )
        invariant
            j <= order@.len(),
            n < entries@.len(),
            *order == *old(order),
            *entry == entries@[n as int],
            name@ == entry.name(),
            names@.len() == n,
            forall|i: int| 0 <= i < n ==> (#[trigger] names@[i])@ == entries@[i].name(),
            forall|k: int| 0 <= k < order@.len() ==> 0 <= #[trigger] order@[k] < n,
            sort_slot(entries@, order@, *entry) == sort_slot(
                entries@,
                order@.take(j as int),
                *entry,
            ),
        decreases j,
    {
        assert(order@.take(j as int).last() == order@[j - 1]);
        assert(order@.take(j as int).drop_last() == order@.take(j - 1));
        j -= 1;
    }
    proof {
        if j > 0 {
            assert(order@.take(j as int).last() == order@[j - 1]);
        }
        assert(sort_slot(entries@, order@, *entry) == j);
    }
    order.insert(j, n);
}

/// Records what is left out of the directory, in the order of the listing,
/// and gives the order in which the entries that get a row are visited.
fn sift_entries(
    dir: &DirListing,
    script_name: &str,
    output_file_name: &str,
    project_detector: &mut ProjectDetector,
) -> (order: Vec<usize>)
    requires
        old(project_detector).wf(),
        old(project_detector).report().total() + left_out_total(
            left_out(dir.entries@, dir.entries@.len(), old(project_detector).dirs()),
        ) <= u64::MAX,
        left_out_count(left_out(dir.entries@, dir.entries@.len(), old(project_detector).dirs()))
            <= usize::MAX,
    ensures
        final(project_detector).wf(),
        final(project_detector).dirs() == old(project_detector).dirs(),
        final(project_detector).types() == old(project_detector).types(),
        final(project_detector).frameworks() == old(project_detector).frameworks(),
        order@ == visit_order(
            dir.entries@,
            dir.entries@.len(),
            (WalkRules {
                dirs: old(project_detector).dirs(),
                script_name: script_name@,
                output_file_name: output_file_name@,
            }),
        ),
        final(project_detector).report().directories() == old(
            project_detector,
        ).report().directories() + left_out_directories(
            left_out(dir.entries@, dir.entries@.len(), old(project_detector).dirs()),
        ),
        final(project_detector).report().files() == old(project_detector).report().files()
            + left_out_files(
            left_out(dir.entries@, dir.entries@.len(), old(project_detector).dirs()),
        ),
        final(project_detector).report().total() == old(project_detector).report().total()
            + left_out_total(
            left_out(dir.entries@, dir.entries@.len(), old(project_detector).dirs()),
        ),
{
    let entries = &dir.entries;
    let ghost dirs = project_detector.dirs();
    let ghost rules = WalkRules {
        dirs,
        script_name: script_name@,
        output_file_name: output_file_name@,
    };
    let ghost dirs0 = project_detector.report().directories();
    let ghost files0 = project_detector.report().files();
    let ghost total0 = project_detector.report().total();
    let mut names: Vec<Vec<char>> = Vec::new();
    let mut order: Vec<usize> = Vec::new();
    let mut n: usize = 0;
    while n < entries.len()
        invariant
            n <= entries.len(),
            entries == &dir.entries,
            project_detector.wf(),
            project_detector.dirs() == dirs,
            project_detector.types() == old(project_detector).types(),
            project_detector.frameworks() == old(project_detector).frameworks(),
            names@.len() == n,
            forall|i: int| 0 <= i < n ==> (#[trigger] names@[i])@ == entries@[i].name(),
            rules == (WalkRules {
                dirs,
                script_name: script_name@,
                output_file_name: output_file_name@,
            }),
            order@ == visit_order(entries@, n as nat, rules),
            forall|k: int| 0 <= k < order@.len() ==> 0 <= #[trigger] order@[k] < n,
            project_detector.report().directories() == dirs0 + left_out_directories(
                left_out(entries@, n as nat, dirs),
            ),
            project_detector.report().files() == files0 + left_out_files(
                left_out(entries@, n as nat, dirs),
            ),
            project_detector.report().total() == total0 + left_out_total(
                left_out(entries@, n as nat, dirs),
            ),
            total0 + left_out_total(left_out(entries@, entries@.len(), dirs)) <= u64::MAX,
            left_out_count(left_out(entries@, entries@.len(), dirs)) <= usize::MAX,
        decreases entries.len() - n,
    {
        let entry = &entries[n];
        let name = chars_of(entry.file_name());
        let ghost before = left_out(entries@, n as nat, dirs);
        let ghost one = left_out_one(*entry, dirs);
        proof {
            left_out_grows(entries@, (n + 1) as nat, entries@.len(), dirs);
            walk_splits(before, one);
            assert(left_out(entries@, (n + 1) as nat, dirs) == before + one);
        }
        let kept = record_left_out(entry, project_detector);
        proof {
            assert(project_detector.report().directories() =~= dirs0 + left_out_directories(
                before + one,
            ));
            assert(project_detector.report().files() =~= files0 + left_out_files(before + one));
        }
        let passed_over = is_text(name.as_slice(), script_name) || is_text(
            name.as_slice(),
            output_file_name,
        );
        if kept && !passed_over {
            place_entry(entries, &names, &name, &mut order, n);
        }
        names.push(name);
        n += 1;
    }
    order
}

/// Appends the indentation of a row `depth` levels below the root.
fn push_indent(out: &mut String, depth: usize)
    ensures
        final(out)@ == old(out)@ + indent(depth as nat),
{
    let mut i: usize = 0;
    while i < depth
        invariant
            i <= depth,
            out@ == old(out)@ + indent(i as nat),
        decreases depth - i,
    {
        push_text(out, "│   ");
        i += 1;
        assert(out@ =~= old(out)@ + indent(i as nat));
    }
}

/// Appends the row of a listed entry.
fn push_row(out: &mut String, depth: usize, last: bool, entry: &Entry)
    ensures
        final(out)@ == old(out)@ + visit_line(
            Visit::Listed { depth: depth as nat, last, entry: *entry },
        ),
{
    push_indent(out, depth);
    if last {
        push_text(out, "└── ");
    } else {
        push_text(out, "├── ");
    }
    push_text(out, entry.file_name());
    if entry.is_dir() {
        push_text(out, "/\n");
    } else {
        push_text(out, "\n");
    }
    assert(out@ =~= old(out)@ + visit_line(
        Visit::Listed { depth: depth as nat, last, entry: *entry },
    ));
}

/// The texts of the strings, in their order.
pub open spec fn texts(v: Seq<String>) -> Seq<Seq<char>> {
    v.map_values(|s: String| s@)
}

/// A walk that stays within the ranges of the counters does so at every
/// point on its way.
pub proof fn prefix_fits(stats: StatsView, total: nat, a: Seq<Visit>, b: Seq<Visit>)
    requires
        consistent(stats),
        in_range(added_all(stats, listed_files(a + b))),
        total + left_out_total(a + b) <= u64::MAX,
        left_out_count(a + b) <= usize::MAX,
    ensures
        in_range(added_all(stats, listed_files(a))),
        consistent(added_all(stats, listed_files(a))),
        total + left_out_total(a) <= u64::MAX,
        left_out_count(a) <= usize::MAX,
        left_out_count(b) <= usize::MAX,
{
    walk_splits(a, b);
    added_all_splits(stats, listed_files(a), listed_files(b));
    added_all_grows(stats, listed_files(a));
    added_all_grows(added_all(stats, listed_files(a)), listed_files(b));
}

/// The visits of the first entries of the order are the beginning of the
/// visits of all.
pub proof fn rows_extend(
    entries: Seq<Entry>,
    order: Seq<usize>,
    k: nat,
    depth: nat,
    rules: WalkRules,
) -> (rest: Seq<Visit>)
    requires
        k <= order.len(),
    ensures
        rows(entries, order, order.len(), depth, rules) == rows(entries, order, k, depth, rules)
            + rest,
    decreases order.len() - k,
{
    if k == order.len() {
        let rest = Seq::<Visit>::empty();
        assert(rows(entries, order, k, depth, rules) + rest == rows(
            entries,
            order,
            k,
            depth,
            rules,
        ));
        rest
    } else {
        let later = rows_extend(entries, order, k + 1, depth, rules);
        let here = if order[k as int] < entries.len() {
            visit(entries[order[k as int] as int], depth, k + 1 == order.len(), rules)
        } else {
            Seq::<Visit>::empty()
        };
        assert(rows(entries, order, k + 1, depth, rules) == rows(entries, order, k, depth, rules)
            + here);
        let rest = here + later;
        assert(rows(entries, order, k, depth, rules) + rest == (rows(
            entries,
            order,
            k,
            depth,
            rules,
        ) + here) + later);
        rest
    }
}

/// No entry among the first `n` is higher than the largest height among
/// them.
pub proof fn height_covers(entries: Seq<Entry>, i: int, n: nat)
    requires
        0 <= i < n <= entries.len(),
    ensures
        entry_height(entries[i]) <= entries_height(entries, n),
    decreases n,
{
    if i < n - 1 {
        height_covers(entries, i, (n - 1) as nat);
    }
}

/// Visits one entry: its row goes into the tree text; a file is listed and
/// taken into the statistics; a directory is walked through one level
/// deeper.
fn visit_entry(
    entry: &Entry,
    depth: usize,
    last: bool,
    file_paths: &mut Vec<String>,
    output: &mut String,
    script_name: &str,
    output_file_name: &str,
    stats: &mut ProjectStats,
    project_detector: &mut ProjectDetector,
)
    requires
        old(stats).wf(),
        old(project_detector).wf(),
        ({
            let rules = WalkRules {
                dirs: old(project_detector).dirs(),
                script_name: script_name@,
                output_file_name: output_file_name@,
            };
            let t = visit(*entry, depth as nat, last, rules);
            &&& in_range(added_all(old(stats)@, listed_files(t)))
            &&& old(project_detector).report().total() + left_out_total(t) <= u64::MAX
            &&& left_out_count(t) <= usize::MAX
            &&& depth + entry_height(*entry) <= usize::MAX
        }),
    ensures
        final(stats).wf(),
        final(project_detector).wf(),
        final(project_detector).dirs() == old(project_detector).dirs(),
        final(project_detector).types() == old(project_detector).types(),
        final(project_detector).frameworks() == old(project_detector).frameworks(),
        ({
            let rules = WalkRules {
                dirs: old(project_detector).dirs(),
                script_name: script_name@,
                output_file_name: output_file_name@,
            };
            let t = visit(*entry, depth as nat, last, rules);
            &&& final(output)@ == old(output)@ + tree_text(t)
            &&& texts(final(file_paths)@) == texts(old(file_paths)@) + paths_of(listed_files(t))
            &&& final(stats)@ == added_all(old(stats)@, listed_files(t))
            &&& final(project_detector).report().directories() == old(
                project_detector,
            ).report().directories() + left_out_directories(t)
            &&& final(project_detector).report().files() == old(
                project_detector,
            ).report().files() + left_out_files(t)
            &&& final(project_detector).report().total() == old(
                project_detector,
            ).report().total() + left_out_total(t)
        }),
    decreases entry, 0nat,
{
    let ghost rules = WalkRules {
        dirs: project_detector.dirs(),
        script_name: script_name@,
        output_file_name: output_file_name@,
    };
    let ghost t = visit(*entry, depth as nat, last, rules);
    let ghost row = Visit::Listed { depth: depth as nat, last, entry: *entry };
    proof {
        walk_of_one(row);
    }
    push_row(output, depth, last, entry);
    match entry {
        Entry::Dir(d) => {
            let ghost below = trace(*d, (depth + 1) as nat, rules);
            proof {
                assert(t == seq![row] + below);
                walk_splits(seq![row], below);
                assert(listed_files(t) == listed_files(below));
                assert(left_out_total(t) == left_out_total(below));
                assert(left_out_directories(t) == left_out_directories(below));
                assert(left_out_files(t) == left_out_files(below));
            }
            get_file_tree_and_contents(
                d,
                depth + 1,
                file_paths,
                output,
                script_name,
                output_file_name,
                stats,
                project_detector,
            );
            assert(output@ =~= old(output)@ + tree_text(t));
        },
        Entry::File(f) => {
            proof {
                assert(t == seq![row]);
                assert(listed_files(t) == seq![*f]);
                assert(seq![*f].drop_last() == Seq::<FileProbe>::empty());
                assert(seq![*f].last() == *f);
                assert(added_all(stats@, Seq::<FileProbe>::empty()) == stats@);
                assert(added_all(stats@, seq![*f]) == added(
                    added_all(stats@, seq![*f].drop_last()),
                    seq![*f].last(),
                ));
                assert(added_all(stats@, listed_files(t)) == added(stats@, *f));
                assert(paths_of(seq![*f]) == seq![f.path@]);
            }
            file_paths.push(owned(f.path.as_str()));
            stats.add_file(f);
            assert(texts(file_paths@) == texts(old(file_paths)@) + seq![f.path@]);
            assert(project_detector.report().directories() + Seq::<ExcludedDirectoryRecord>::empty()
                == project_detector.report().directories());
            assert(project_detector.report().files() + Seq::<ExcludedFileRecord>::empty()
                == project_detector.report().files());
        },
    }
}

/// Walks through a directory. What is left out of it is recorded in the
/// report of the detector, with a reason. Of the kept entries, those named
/// like the running program or like the report are passed over; the others
/// are visited, directories first and each kind by name. Every visited
/// entry gets a row in the tree text, the last one with the closing sign;
/// every file with a row is appended to the list of paths and taken into
/// the statistics; every directory with a row is walked through in the
/// same way, one level deeper.
pub fn get_file_tree_and_contents(
    dir: &DirListing,
    depth: usize,
    file_paths: &mut Vec<String>,
    output: &mut String,
    script_name: &str,
    output_file_name: &str,
    stats: &mut ProjectStats,
    project_detector: &mut ProjectDetector,
)
    requires
        old(stats).wf(),
        old(project_detector).wf(),
        walk_fits(
            old(stats)@,
            old(project_detector).report().total(),
            *dir,
            depth as nat,
            (WalkRules {
                dirs: old(project_detector).dirs(),
                script_name: script_name@,
                output_file_name: output_file_name@,
            }),
        ),
    ensures
        final(stats).wf(),
        final(project_detector).wf(),
        final(project_detector).dirs() == old(project_detector).dirs(),
        final(project_detector).types() == old(project_detector).types(),
        final(project_detector).frameworks() == old(project_detector).frameworks(),
        ({
            let rules = WalkRules {
                dirs: old(project_detector).dirs(),
                script_name: script_name@,
                output_file_name: output_file_name@,
            };
            let t = trace(*dir, depth as nat, rules);
            &&& final(output)@ == old(output)@ + tree_text(t)
            &&& texts(final(file_paths)@) == texts(old(file_paths)@) + paths_of(listed_files(t))
            &&& final(stats)@ == added_all(old(stats)@, listed_files(t))
            &&& final(project_detector).report().directories() == old(
                project_detector,
            ).report().directories() + left_out_directories(t)
            &&& final(project_detector).report().files() == old(
                project_detector,
            ).report().files() + left_out_files(t)
            &&& final(project_detector).report().total() == old(
                project_detector,
            ).report().total() + left_out_total(t)
        }),
    decreases dir, 1nat,
{
    let ghost rules = WalkRules {
        dirs: project_detector.dirs(),
        script_name: script_name@,
        output_file_name: output_file_name@,
    };
    let ghost whole = trace(*dir, depth as nat, rules);
    let ghost gone = left_out(dir.entries@, dir.entries@.len(), rules.dirs);
    let ghost stats0 = stats@;
    let ghost total0 = project_detector.report().total();
    let ghost dirs0 = project_detector.report().directories();
    let ghost files0 = project_detector.report().files();
    let ghost out0 = output@;
    let ghost paths0 = texts(file_paths@);
    let count = dir.entries.len();
    proof {
        let all = rows(
            dir.entries@,
            visit_order(dir.entries@, dir.entries@.len(), rules),
            visit_order(dir.entries@, dir.entries@.len(), rules).len(),
            depth as nat,
            rules,
        );
        assert(whole == gone + all);
        prefix_fits(stats0, total0, gone, all);
        left_out_lists_nothing(dir.entries@, dir.entries@.len(), rules.dirs);
        visit_order_holds_kept(dir.entries@, dir.entries@.len(), rules);
    }
    let order = sift_entries(dir, script_name, output_file_name, project_detector);
    let entries = &dir.entries;
    let mut k: usize = 0;
    proof {
        assert(gone + rows(entries@, order@, 0, depth as nat, rules) == gone);
        assert(paths_of(listed_files(gone)) == Seq::<Seq<char>>::empty());
        assert(out0 + tree_text(gone) == out0);
        assert(paths0 + paths_of(listed_files(gone)) == paths0);
    }
    while k < order.len()
        invariant
            k <= order@.len(),
            entries == &dir.entries,
            order@ == visit_order(entries@, entries@.len(), rules),
            forall|i: int| 0 <= i < order@.len() ==> 0 <= #[trigger] order@[i] < entries@.len(),
            rules == (WalkRules {
                dirs: project_detector.dirs(),
                script_name: script_name@,
                output_file_name: output_file_name@,
            }),
            gone == left_out(entries@, entries@.len(), rules.dirs),
            whole == gone + rows(entries@, order@, order@.len() as nat, depth as nat, rules),
            consistent(stats0),
            in_range(added_all(stats0, listed_files(whole))),
            total0 + left_out_total(whole) <= u64::MAX,
            left_out_count(whole) <= usize::MAX,
            depth + entries_height(entries@, entries@.len()) <= usize::MAX,
            stats.wf(),
            project_detector.wf(),
            project_detector.types() == old(project_detector).types(),
            project_detector.frameworks() == old(project_detector).frameworks(),
            ({
                let t = gone + rows(entries@, order@, k as nat, depth as nat, rules);
                &&& output@ == out0 + tree_text(t)
                &&& texts(file_paths@) == paths0 + paths_of(listed_files(t))
                &&& stats@ == added_all(stats0, listed_files(t))
                &&& project_detector.report().directories() == dirs0 + left_out_directories(t)
                &&& project_detector.report().files() == files0 + left_out_files(t)
                &&& project_detector.report().total() == total0 + left_out_total(t)
            }),
        decreases order@.len() - k,
    {
        let at = order[k];
        let entry = &entries[at];
        let last = k + 1 == order.len();
        let ghost seen = gone + rows(entries@, order@, k as nat, depth as nat, rules);
        let ghost here = visit(*entry, depth as nat, last, rules);
        let ghost next = gone + rows(entries@, order@, (k + 1) as nat, depth as nat, rules);
        proof {
            assert(rows(entries@, order@, (k + 1) as nat, depth as nat, rules) == rows(
                entries@,
                order@,
                k as nat,
                depth as nat,
                rules,
            ) + here);
            assert(next == seen + here);
            let rest = rows_extend(entries@, order@, (k + 1) as nat, depth as nat, rules);
            assert(whole == next + rest);
            prefix_fits(stats0, total0, next, rest);
            walk_splits(seen, here);
            added_all_splits(stats0, listed_files(seen), listed_files(here));
            height_covers(entries@, at as int, entries@.len());
        }
        visit_entry(
            entry,
            depth,
            last,
            file_paths,
            output,
            script_name,
            output_file_name,
            stats,
            project_detector,
        );
        proof {
            assert(output@ =~= out0 + tree_text(next));
            assert(paths_of(listed_files(next)) == paths_of(listed_files(seen)) + paths_of(
                listed_files(here),
            ));
            assert(texts(file_paths@) =~= paths0 + paths_of(listed_files(next)));
            assert(project_detector.report().directories() =~= dirs0 + left_out_directories(
                next,
            ));
            assert(project_detector.report().files() =~= files0 + left_out_files(next));
        }
        k += 1;
    }
}

/// Whether every row of the walk shows an entry that the rules give a row:
/// one that is kept and not passed over.
pub open spec fn lists_only_kept(t: Seq<Visit>, rules: WalkRules) -> bool {
    forall|i: int|
        0 <= i < t.len() ==> match #[trigger] t[i] {
            Visit::Listed { entry, .. } => entry_listed(entry, rules),
            _ => true,
        }
}

/// The visit of an entry that gets a row shows such entries only.
pub proof fn visit_lists_kept(e: Entry, depth: nat, last: bool, rules: WalkRules)
    requires
        entry_listed(e, rules),
    ensures
        lists_only_kept(visit(e, depth, last, rules), rules),
    decreases e, 0nat,
{
    match e {
        Entry::File(_) => {},
        Entry::Dir(d) => {
            trace_lists_kept(d, depth + 1, rules);
        },
    }
}

/// The visits of entries that get a row show such entries only.
pub proof fn rows_list_kept(
    entries: Seq<Entry>,
    order: Seq<usize>,
    k: nat,
    depth: nat,
    rules: WalkRules,
)
    requires
        forall|i: int|
            0 <= i < order.len() ==> 0 <= #[trigger] order[i] < entries.len() && entry_listed(
                entries[order[i] as int],
                rules,
            ),
    ensures
        lists_only_kept(rows(entries, order, k, depth, rules), rules),
    decreases entries, k,
{
    if k > 0 && k <= order.len() {
        rows_list_kept(entries, order, (k - 1) as nat, depth, rules);
        visit_lists_kept(entries[order[k - 1] as int], depth, k == order.len(), rules);
    }
}

/// What is left out adds no row.
pub proof fn left_out_has_no_rows(entries: Seq<Entry>, n: nat, dirs: Seq<Seq<char>>)
    ensures
        forall|i: int|
            0 <= i < left_out(entries, n, dirs).len() ==> !(#[trigger] left_out(
                entries,
                n,
                dirs,
            )[i] is Listed),
    decreases n,
{
    if n > 0 && n <= entries.len() {
        left_out_has_no_rows(entries, (n - 1) as nat, dirs);
    }
}

/// The walk lists only entries that the rules give a row: no row of the
/// tree shows an excluded directory, an entry named like an excluded file,
/// or an entry named like the running program or the report, at any depth.
pub proof fn trace_lists_kept(dir: DirListing, depth: nat, rules: WalkRules)
    ensures
        lists_only_kept(trace(dir, depth, rules), rules),
    decreases dir, 1nat,
{
    let entries = dir.entries@;
    let order = visit_order(entries, entries.len(), rules);
    assert(dir.entries.len() == entries.len());
    visit_order_holds_kept(entries, entries.len(), rules);
    rows_list_kept(entries, order, order.len(), depth, rules);
    left_out_has_no_rows(entries, entries.len(), rules.dirs);
}

/// Whether the step is a row at the given depth.
pub open spec fn row_at(v: Visit, depth: nat) -> bool {
    match v {
        Visit::Listed { depth: d, .. } => d == depth,
        _ => false,
    }
}

/// Whether no row of the walk lies above the given depth.
pub open spec fn rows_from(t: Seq<Visit>, depth: nat) -> bool {
    forall|i: int|
        0 <= i < t.len() ==> match #[trigger] t[i] {
            Visit::Listed { depth: d, .. } => d >= depth,
            _ => true,
        }
}

/// The visit of an entry begins with the row of that entry, and every row
/// behind it lies deeper.
pub proof fn visit_begins_with_row(e: Entry, depth: nat, last: bool, rules: WalkRules)
    ensures
        visit(e, depth, last, rules).len() >= 1,
        visit(e, depth, last, rules)[0] == (Visit::Listed { depth, last, entry: e }),
        forall|i: int|
            1 <= i < visit(e, depth, last, rules).len() ==> !row_at(
                #[trigger] visit(e, depth, last, rules)[i],
                depth,
            ),
    decreases e, 0nat,
{
    match e {
        Entry::File(_) => {},
        Entry::Dir(d) => {
            trace_lies_below(d, depth + 1, rules);
            let below = trace(d, depth + 1, rules);
            let t = visit(e, depth, last, rules);
            assert forall|i: int| 1 <= i < t.len() implies !row_at(#[trigger] t[i], depth) by {
                assert(t[i] == below[i - 1]);
            }
        },
    }
}

/// The visits of the first `k` entries of an order show no row above the
/// given depth.
pub proof fn rows_lie_below(
    entries: Seq<Entry>,
    order: Seq<usize>,
    k: nat,
    depth: nat,
    rules: WalkRules,
)
    ensures
        rows_from(rows(entries, order, k, depth, rules), depth),
    decreases entries, k,
{
    if k > 0 && k <= order.len() {
        rows_lie_below(entries, order, (k - 1) as nat, depth, rules);
        if order[k - 1] < entries.len() {
            let e = entries[order[k - 1] as int];
            visit_begins_with_row(e, depth, k == order.len(), rules);
            let front = rows(entries, order, (k - 1) as nat, depth, rules);
            let here = visit(e, depth, k == order.len(), rules);
            let t = rows(entries, order, k, depth, rules);
            assert forall|i: int| 0 <= i < t.len() implies match #[trigger] t[i] {
                Visit::Listed { depth: d, .. } => d >= depth,
                _ => true,
            } by {
                if i < front.len() {
                    assert(t[i] == front[i]);
                } else {
                    assert(t[i] == here[i - front.len()]);
                    if i - front.len() >= 1 {
                        match e {
                            Entry::File(_) => {},
                            Entry::Dir(d) => {
                                trace_lies_below(d, depth + 1, rules);
                                assert(here[i - front.len()] == trace(d, depth + 1, rules)[i
                                    - front.len() - 1]);
                            },
                        }
                    }
                }
            }
        }
    }
}

/// The walk through a directory at a depth shows no row above that depth.
pub proof fn trace_lies_below(dir: DirListing, depth: nat, rules: WalkRules)
    ensures
        rows_from(trace(dir, depth, rules), depth),
    decreases dir, 1nat,
{
    let entries = dir.entries@;
    let order = visit_order(entries, entries.len(), rules);
    rows_lie_below(entries, order, order.len(), depth, rules);
    left_out_has_no_rows(entries, entries.len(), rules.dirs);
    let gone = left_out(entries, entries.len(), rules.dirs);
    let all = rows(entries, order, order.len(), depth, rules);
    let t = trace(dir, depth, rules);
    assert forall|i: int| 0 <= i < t.len() implies match #[trigger] t[i] {
        Visit::Listed { depth: d, .. } => d >= depth,
        _ => true,
    } by {
        if i < gone.len() {
            assert(t[i] == gone[i]);
        } else {
            assert(t[i] == all[i - gone.len()]);
        }
    }
}

/// Among the rows of a directory, the closing sign goes to the last entry
/// of the visiting order and to no other: a row at the directory's depth
/// among the visits of the first `k` entries is marked as last only where
/// `k` is the whole order, and then it shows the entry that stands last in
/// the order.
pub proof fn closing_row_is_last(
    entries: Seq<Entry>,
    order: Seq<usize>,
    k: nat,
    depth: nat,
    rules: WalkRules,
)
    requires
        k <= order.len(),
        forall|i: int| 0 <= i < order.len() ==> 0 <= #[trigger] order[i] < entries.len(),
    ensures
        forall|i: int|
            0 <= i < rows(entries, order, k, depth, rules).len() ==> match #[trigger] rows(
                entries,
                order,
                k,
                depth,
                rules,
            )[i] {
                Visit::Listed { depth: d, last, entry } => d == depth && last ==> k == order.len()
                    && entry == entries[order[k - 1] as int],
                _ => true,
            },
        k > 0 ==> rows(entries, order, k, depth, rules).len() > 0,
        k > 0 && k == order.len() ==> exists|i: int|
            0 <= i < rows(entries, order, k, depth, rules).len() && #[trigger] rows(
                entries,
                order,
                k,
                depth,
                rules,
            )[i] == (Visit::Listed {
                depth,
                last: true,
                entry: entries[order[k - 1] as int],
            }),
    decreases k,
{
    if k > 0 {
        closing_row_is_last(entries, order, (k - 1) as nat, depth, rules);
        let e = entries[order[k - 1] as int];
        let front = rows(entries, order, (k - 1) as nat, depth, rules);
        let here = visit(e, depth, k == order.len(), rules);
        let t = rows(entries, order, k, depth, rules);
        visit_begins_with_row(e, depth, k == order.len(), rules);
        assert(t == front + here);
        assert forall|i: int| 0 <= i < t.len() implies match #[trigger] t[i] {
            Visit::Listed { depth: d, last, entry } => d == depth && last ==> k == order.len()
                && entry == entries[order[k - 1] as int],
            _ => true,
        } by {
            if i < front.len() {
                assert(t[i] == front[i]);
            } else {
                assert(t[i] == here[i - front.len()]);
                if i - front.len() >= 1 {
                    assert(!row_at(here[i - front.len()], depth));
                }
            }
        }
        if k == order.len() {
            assert(t[front.len() as int] == here[0]);
        }
    }
}

/// An excluded directory is recorded once, with the size and the number of
/// the files below it and with its reason, and gets no row; a directory
/// named like a base exclusion is recorded as such.
pub proof fn excluded_directory_is_recorded(d: DirListing, rules: WalkRules)
    requires
        rules.dirs.contains(d.name@),
    ensures
        !entry_listed(Entry::Dir(d), rules),
        left_out_one(Entry::Dir(d), rules.dirs) == seq![
            Visit::LeftOutDirectory(
                ExcludedDirectoryRecord {
                    path: d.path@,
                    size: tree_size(d),
                    file_count: tree_files(d),
                    reason: dir_exclusion_reason(d.name@, rules.dirs),
                },
            ),
        ],
        base_excluded_dir(d.name@) ==> dir_exclusion_reason(d.name@, rules.dirs)
            == "Base excluded directory"@,
{
}

/// A directory named like a base exclusion is never listed by the walk,
/// whatever project types were detected: the rules of a detector hold every
/// base exclusion from the start and never lose a name.
pub proof fn base_directories_stay_out(dir: DirListing, depth: nat, rules: WalkRules)
    requires
        forall|name: Seq<char>| base_excluded_dir(name) ==> rules.dirs.contains(name),
    ensures
        forall|i: int|
            0 <= i < trace(dir, depth, rules).len() ==> match #[trigger] trace(
                dir,
                depth,
                rules,
            )[i] {
                Visit::Listed { entry, .. } => !(entry is Dir && base_excluded_dir(entry.name())),
                _ => true,
            },
{
    trace_lists_kept(dir, depth, rules);
}

/// The order of the listing is total and carries over.
pub proof fn listing_order_is_an_order(a: Entry, b: Entry, c: Entry)
    ensures
        listed_before(a, b) || listed_before(b, a),
        listed_before(a, b) && listed_before(b, c) ==> listed_before(a, c),
{
    text_order_is_total(a.name(), b.name(), 0);
    if listed_before(a, b) && listed_before(b, c) {
        if (a is Dir) == (b is Dir) && (b is Dir) == (c is Dir) {
            text_order_carries_over(a.name(), b.name(), c.name(), 0);
        }
    }
}

/// Whether the order visits directories before everything else and each
/// kind by name.
pub open spec fn in_listing_order(entries: Seq<Entry>, order: Seq<usize>) -> bool {
    forall|i: int, j: int|
        0 <= i <= j < order.len() ==> listed_before(
            entries[order[i] as int],
            entries[order[j] as int],
        )
}

/// The slot splits a sorted order: what stands before it is listed before
/// the new entry or at the same rank, what stands from it on is listed
/// behind it.
pub proof fn sort_slot_splits(entries: Seq<Entry>, order: Seq<usize>, e: Entry)
    requires
        in_listing_order(entries, order),
    ensures
        0 <= sort_slot(entries, order, e) <= order.len(),
        forall|i: int|
            0 <= i < sort_slot(entries, order, e) ==> listed_before(entries[order[i] as int], e),
        forall|i: int|
            sort_slot(entries, order, e) <= i < order.len() ==> listed_before(
                e,
                entries[order[i] as int],
            ) && !listed_before(entries[order[i] as int], e),
    decreases order.len(),
{
    if order.len() > 0 {
        let tail = entries[order.last() as int];
        if listed_before(tail, e) {
            assert forall|i: int| 0 <= i < order.len() implies listed_before(
                entries[order[i] as int],
                e,
            ) by {
                assert(listed_before(
                    entries[order[i] as int],
                    entries[order[order.len() - 1] as int],
                ));
                listing_order_is_an_order(entries[order[i] as int], tail, e);
            }
        } else {
            let front = order.drop_last();
            assert forall|i: int, j: int| 0 <= i <= j < front.len() implies listed_before(
                entries[front[i] as int],
                entries[front[j] as int],
            ) by {
                assert(listed_before(entries[order[i] as int], entries[order[j] as int]));
            }
            sort_slot_splits(entries, front, e);
            let at = sort_slot(entries, order, e);
            assert forall|i: int| at <= i < order.len() implies listed_before(
                e,
                entries[order[i] as int],
            ) && !listed_before(entries[order[i] as int], e) by {
                if i < front.len() {
                    assert(front[i] == order[i]);
                } else {
                    listing_order_is_an_order(tail, e, e);
                }
            }
            assert forall|i: int| 0 <= i < at implies listed_before(
                entries[order[i] as int],
                e,
            ) by {
                assert(front[i] == order[i]);
            }
        }
    }
}

/// The visiting order runs in the order of the listing: directories first,
/// each kind by name.
pub proof fn visit_order_is_sorted(entries: Seq<Entry>, n: nat, rules: WalkRules)
    requires
        n <= entries.len(),
        entries.len() <= usize::MAX,
    ensures
        in_listing_order(entries, visit_order(entries, n, rules)),
    decreases n,
{
    if n > 0 {
        visit_order_is_sorted(entries, (n - 1) as nat, rules);
        if entry_listed(entries[n - 1], rules) {
            let e = entries[n - 1];
            let rest = visit_order(entries, (n - 1) as nat, rules);
            let at = sort_slot(entries, rest, e);
            sort_slot_splits(entries, rest, e);
            let r = visit_order(entries, n, rules);
            assert(r == rest.insert(at, (n - 1) as usize));
            assert forall|i: int, j: int| 0 <= i <= j < r.len() implies listed_before(
                entries[r[i] as int],
                entries[r[j] as int],
            ) by {
                let a = if i < at {
                    i
                } else {
                    i - 1
                };
                let b = if j < at {
                    j
                } else {
                    j - 1
                };
                if i != at && j != at {
                    assert(listed_before(entries[rest[a] as int], entries[rest[b] as int]));
                } else if i == at && j == at {
                    listing_order_is_an_order(e, e, e);
                } else if i == at {
                    assert(r[j] == rest[b]);
                } else {
                    assert(r[i] == rest[a]);
                }
            }
        }
    }
}

/// The visiting order misses no kept entry: the position of every kept
/// entry among the first `n` stands in it.
pub proof fn visit_order_is_complete(entries: Seq<Entry>, n: nat, rules: WalkRules, at: int)
    requires
        0 <= at < n <= entries.len(),
        entries.len() <= usize::MAX,
        entry_listed(entries[at], rules),
    ensures
        visit_order(entries, n, rules).contains(at as usize),
    decreases n,
{
    let r = visit_order(entries, n, rules);
    if entry_listed(entries[n - 1], rules) {
        let rest = visit_order(entries, (n - 1) as nat, rules);
        let slot = sort_slot(entries, rest, entries[n - 1]);
        sort_slot_bounds(entries, rest, entries[n - 1]);
        if at == n - 1 {
            assert(r[slot] == at as usize);
        } else {
            visit_order_is_complete(entries, (n - 1) as nat, rules, at);
            let k = choose|k: int| 0 <= k < rest.len() && rest[k] == at as usize;
            if k < slot {
                assert(r[k] == at as usize);
            } else {
                assert(r[k + 1] == at as usize);
            }
        }
    } else {
        visit_order_is_complete(entries, (n - 1) as nat, rules, at);
    }
}

/// Whether two entries stand at the same rank of a listing: they are of one
/// kind and bear one name.
pub open spec fn same_rank(a: Entry, b: Entry) -> bool {
    (a is Dir) == (b is Dir) && a.name() == b.name()
}

/// Whether no two entries of the listing are of one kind and bear one name,
/// as it is in a directory on disk.
pub open spec fn distinct_names(entries: Seq<Entry>) -> bool {
    forall|i: int, j: int|
        0 <= i < j < entries.len() ==> !same_rank(#[trigger] entries[i], #[trigger] entries[j])
}

/// Whether the entries run in the order of a listing.
pub open spec fn in_order(s: Seq<Entry>) -> bool {
    forall|i: int, j: int| 0 <= i <= j < s.len() ==> listed_before(s[i], s[j])
}

/// The entries that get a row, in the order in which they are visited.
pub open spec fn visited(entries: Seq<Entry>, rules: WalkRules) -> Seq<Entry> {
    Seq::new(
        visit_order(entries, entries.len(), rules).len(),
        |k: int| entries[visit_order(entries, entries.len(), rules)[k] as int],
    )
}

/// Two entries of which each is listed before the other or at its rank
/// stand at the same rank.
pub proof fn listing_order_is_strict(a: Entry, b: Entry)
    requires
        listed_before(a, b),
        listed_before(b, a),
    ensures
        same_rank(a, b),
{
    if (a is Dir) == (b is Dir) {
        text_order_is_strict(a.name(), b.name(), 0);
    }
}

/// There is one way only to put entries of distinct rank in order: two
/// sequences that hold the same entries, each sequence in the order of a
/// listing and without two entries of one rank, are the same sequence.
pub proof fn order_is_unique(s1: Seq<Entry>, s2: Seq<Entry>)
    requires
        in_order(s1),
        in_order(s2),
        distinct_names(s1),
        distinct_names(s2),
        forall|x: Entry| s1.contains(x) <==> s2.contains(x),
    ensures
        s1 == s2,
    decreases s1.len(),
{
    if s1.len() == 0 {
        if s2.len() > 0 {
            assert(s2.contains(s2[0]));
        }
        assert(s1 =~= s2);
    } else {
        assert(s1.contains(s1[0]));
        let m1 = s1.last();
        let m2 = s2.last();
        assert(s1.contains(m1));
        assert(s2.contains(m2));
        let j = choose|j: int| 0 <= j < s2.len() && s2[j] == m1;
        let i = choose|i: int| 0 <= i < s1.len() && s1[i] == m2;
        assert(listed_before(s2[j], s2[s2.len() - 1]));
        assert(listed_before(s1[i], s1[s1.len() - 1]));
        listing_order_is_strict(m1, m2);
        if i < s1.len() - 1 {
            assert(!same_rank(s1[i], s1[s1.len() - 1]));
        }
        assert(m1 == m2);
        let f1 = s1.drop_last();
        let f2 = s2.drop_last();
        assert forall|x: Entry| f1.contains(x) <==> f2.contains(x) by {
            if f1.contains(x) {
                let a = choose|a: int| 0 <= a < f1.len() && f1[a] == x;
                assert(s1[a] == x);
                assert(s1.contains(x));
                let b = choose|b: int| 0 <= b < s2.len() && s2[b] == x;
                if b == s2.len() - 1 {
                    assert(!same_rank(s1[a], s1[s1.len() - 1]));
                }
                assert(f2[b] == x);
            }
            if f2.contains(x) {
                let b = choose|b: int| 0 <= b < f2.len() && f2[b] == x;
                assert(s2[b] == x);
                assert(s2.contains(x));
                let a = choose|a: int| 0 <= a < s1.len() && s1[a] == x;
                if a == s1.len() - 1 {
                    assert(!same_rank(s2[b], s2[s2.len() - 1]));
                }
                assert(f1[a] == x);
            }
        }
        assert forall|a: int, b: int| 0 <= a <= b < f1.len() implies listed_before(
            f1[a],
            f1[b],
        ) by {
            assert(listed_before(s1[a], s1[b]));
        }
        assert forall|a: int, b: int| 0 <= a <= b < f2.len() implies listed_before(
            f2[a],
            f2[b],
        ) by {
            assert(listed_before(s2[a], s2[b]));
        }
        assert forall|a: int, b: int| 0 <= a < b < f1.len() implies !same_rank(
            #[trigger] f1[a],
            #[trigger] f1[b],
        ) by {
            assert(!same_rank(s1[a], s1[b]));
        }
        assert forall|a: int, b: int| 0 <= a < b < f2.len() implies !same_rank(
            #[trigger] f2[a],
            #[trigger] f2[b],
        ) by {
            assert(!same_rank(s2[a], s2[b]));
        }
        order_is_unique(f1, f2);
        assert(s1 =~= f1.push(m1));
        assert(s2 =~= f2.push(m2));
    }
}

/// The visited entries of a listing with distinct names: they run in the
/// order of a listing, no two of them are of one rank, and they are the
/// entries of the listing that get a row.
pub proof fn visited_are_the_listed(entries: Seq<Entry>, rules: WalkRules)
    requires
        entries.len() <= usize::MAX,
        distinct_names(entries),
    ensures
        in_order(visited(entries, rules)),
        distinct_names(visited(entries, rules)),
        forall|x: Entry|
            visited(entries, rules).contains(x) <==> entries.contains(x) && entry_listed(x, rules),
{
    let order = visit_order(entries, entries.len(), rules);
    let v = visited(entries, rules);
    visit_order_holds_kept(entries, entries.len(), rules);
    visit_order_is_sorted(entries, entries.len(), rules);
    assert forall|i: int, j: int| 0 <= i <= j < v.len() implies listed_before(v[i], v[j]) by {
        assert(listed_before(entries[order[i] as int], entries[order[j] as int]));
    }
    assert forall|i: int, j: int| 0 <= i < j < v.len() implies !same_rank(
        #[trigger] v[i],
        #[trigger] v[j],
    ) by {
        let a = order[i] as int;
        let b = order[j] as int;
        assert(order[i] != order[j]);
        if a < b {
            assert(!same_rank(entries[a], entries[b]));
        } else {
            assert(!same_rank(entries[b], entries[a]));
        }
    }
    assert forall|x: Entry| v.contains(x) <==> entries.contains(x) && entry_listed(
        x,
        rules,
    ) by {
        if v.contains(x) {
            let k = choose|k: int| 0 <= k < v.len() && v[k] == x;
            assert(entries[order[k] as int] == x);
        }
        if entries.contains(x) && entry_listed(x, rules) {
            let at = choose|at: int| 0 <= at < entries.len() && entries[at] == x;
            visit_order_is_complete(entries, entries.len(), rules, at);
            let k = choose|k: int| 0 <= k < order.len() && order[k] == at as usize;
            assert(v[k] == x);
        }
    }
}

/// The rows of a directory depend on the visited entries alone: two
/// listings whose visited entries are the same, place by place, give the
/// same rows.
pub proof fn rows_follow_the_visited(
    first: Seq<Entry>,
    first_order: Seq<usize>,
    second: Seq<Entry>,
    second_order: Seq<usize>,
    k: nat,
    depth: nat,
    rules: WalkRules,
)
    requires
        first_order.len() == second_order.len(),
        forall|i: int|
            0 <= i < first_order.len() ==> 0 <= #[trigger] first_order[i] < first.len(),
        forall|i: int|
            0 <= i < second_order.len() ==> 0 <= #[trigger] second_order[i] < second.len(),
        forall|i: int|
            0 <= i < first_order.len() ==> first[#[trigger] first_order[i] as int]
                == second[second_order[i] as int],
    ensures
        rows(first, first_order, k, depth, rules) == rows(second, second_order, k, depth, rules),
    decreases k,
{
    if k > 0 && k <= first_order.len() {
        rows_follow_the_visited(
            first,
            first_order,
            second,
            second_order,
            (k - 1) as nat,
            depth,
            rules,
        );
        assert(first[first_order[k - 1] as int] == second[second_order[k - 1] as int]);
    }
}

/// The tree shows the entries that get a row and nothing else of a
/// listing: two listings with distinct names that hold the same entries
/// among those that get a row give the same tree text and list the same
/// files in the same order, so that the paths and the statistics are the
/// same too. Neither the order of the listing nor an entry without a row
/// makes a difference.
pub proof fn tree_depends_on_listed_entries(
    first: DirListing,
    second: DirListing,
    depth: nat,
    rules: WalkRules,
)
    requires
        distinct_names(first.entries@),
        distinct_names(second.entries@),
        forall|x: Entry|
            entry_listed(x, rules) ==> (first.entries@.contains(x) <==> second.entries@.contains(
                x,
            )),
    ensures
        tree_text(trace(first, depth, rules)) == tree_text(trace(second, depth, rules)),
        listed_files(trace(first, depth, rules)) == listed_files(trace(second, depth, rules)),
        forall|v: StatsView|
            added_all(v, listed_files(trace(first, depth, rules))) == added_all(
                v,
                listed_files(trace(second, depth, rules)),
            ),
{
    let e1 = first.entries@;
    let e2 = second.entries@;
    assert(first.entries.len() == e1.len());
    assert(second.entries.len() == e2.len());
    let o1 = visit_order(e1, e1.len(), rules);
    let o2 = visit_order(e2, e2.len(), rules);
    visited_are_the_listed(e1, rules);
    visited_are_the_listed(e2, rules);
    assert forall|x: Entry| visited(e1, rules).contains(x) <==> visited(e2, rules).contains(
        x,
    ) by {
        assert(visited(e1, rules).contains(x) <==> e1.contains(x) && entry_listed(x, rules));
        assert(visited(e2, rules).contains(x) <==> e2.contains(x) && entry_listed(x, rules));
        if entry_listed(x, rules) {
            assert(e1.contains(x) <==> e2.contains(x));
        }
    }
    order_is_unique(visited(e1, rules), visited(e2, rules));
    visit_order_holds_kept(e1, e1.len(), rules);
    visit_order_holds_kept(e2, e2.len(), rules);
    assert(o1.len() == o2.len()) by {
        assert(visited(e1, rules).len() == visited(e2, rules).len());
    }
    assert forall|i: int| 0 <= i < o1.len() implies e1[#[trigger] o1[i] as int]
        == e2[o2[i] as int] by {
        assert(visited(e1, rules)[i] == visited(e2, rules)[i]);
    }
    rows_follow_the_visited(e1, o1, e2, o2, o1.len(), depth, rules);
    let r = rows(e1, o1, o1.len(), depth, rules);
    let g1 = left_out(e1, e1.len(), rules.dirs);
    let g2 = left_out(e2, e2.len(), rules.dirs);
    left_out_lists_nothing(e1, e1.len(), rules.dirs);
    left_out_lists_nothing(e2, e2.len(), rules.dirs);
    walk_splits(g1, r);
    walk_splits(g2, r);
    assert(trace(first, depth, rules) == g1 + r);
    assert(trace(second, depth, rules) == g2 + r);
    assert(tree_text(g1 + r) =~= tree_text(r));
    assert(tree_text(g2 + r) =~= tree_text(r));
    assert(listed_files(g1 + r) =~= listed_files(r));
    assert(listed_files(g2 + r) =~= listed_files(r));
}

/// The order in which a directory was listed does not show in the tree:
/// two listings that hold the same entries, each with distinct names, give
/// the same tree text and list the same files in the same order.
pub proof fn listing_order_does_not_matter(
    first: DirListing,
    second: DirListing,
    depth: nat,
    rules: WalkRules,
)
    requires
        distinct_names(first.entries@),
        distinct_names(second.entries@),
        forall|x: Entry| first.entries@.contains(x) <==> second.entries@.contains(x),
    ensures
        tree_text(trace(first, depth, rules)) == tree_text(trace(second, depth, rules)),
        listed_files(trace(first, depth, rules)) == listed_files(trace(second, depth, rules)),
{
    tree_depends_on_listed_entries(first, second, depth, rules);
}

/// What lies below an excluded directory does not show: where the listing
/// of a directory holds an excluded directory, the tree text and the
/// listed files are the same whatever that directory holds.
pub proof fn below_excluded_does_not_show(
    first: DirListing,
    second: DirListing,
    at: int,
    depth: nat,
    rules: WalkRules,
)
    requires
        distinct_names(first.entries@),
        0 <= at < first.entries@.len(),
        first.entries@[at] is Dir,
        rules.dirs.contains(first.entries@[at].name()),
        second.entries@.len() == first.entries@.len(),
        second.entries@[at] is Dir,
        second.entries@[at].name() == first.entries@[at].name(),
        forall|i: int|
            0 <= i < first.entries@.len() && i != at ==> second.entries@[i] == first.entries@[i],
    ensures
        tree_text(trace(first, depth, rules)) == tree_text(trace(second, depth, rules)),
        listed_files(trace(first, depth, rules)) == listed_files(trace(second, depth, rules)),
{
    let e1 = first.entries@;
    let e2 = second.entries@;
    assert forall|i: int, j: int| 0 <= i < j < e2.len() implies !same_rank(
        #[trigger] e2[i],
        #[trigger] e2[j],
    ) by {
        assert(!same_rank(e1[i], e1[j]));
    }
    assert forall|x: Entry| entry_listed(x, rules) implies (e1.contains(x) <==> e2.contains(
        x,
    )) by {
        if e1.contains(x) {
            let i = choose|i: int| 0 <= i < e1.len() && e1[i] == x;
            assert(i != at);
            assert(e2[i] == x);
        }
        if e2.contains(x) {
            let i = choose|i: int| 0 <= i < e2.len() && e2[i] == x;
            assert(i != at);
            assert(e1[i] == x);
        }
    }
    tree_depends_on_listed_entries(first, second, depth, rules);
}

/// Each step of the walk adds its line to the tree text and, where it is
/// the row of a file, that file to the listed files: the rows of files in
/// the tree and the listed files go step by step together, in one order.
pub proof fn row_adds_line_and_file(t: Seq<Visit>, v: Visit)
    ensures
        tree_text(t.push(v)) == tree_text(t) + visit_line(v),
        listed_files(t.push(v)) == match v {
            Visit::Listed { entry: Entry::File(f), .. } => listed_files(t).push(f),
            _ => listed_files(t),
        },
        paths_of(listed_files(t.push(v))) == match v {
            Visit::Listed { entry: Entry::File(f), .. } => paths_of(listed_files(t)).push(f.path@),
            _ => paths_of(listed_files(t)),
        },
{
    assert(t.push(v).drop_last() == t);
    assert(t.push(v).last() == v);
    match v {
        Visit::Listed { entry: Entry::File(f), .. } => {
            assert(paths_of(listed_files(t).push(f)) =~= paths_of(listed_files(t)).push(f.path@));
        },
        _ => {},
    }
}

/// The statistics count every listed file that is there once: where all
/// listed files are there, the number of files grows by the number of
/// files listed.
pub proof fn listed_files_are_counted(v: StatsView, files: Seq<FileProbe>)
    requires
        forall|i: int| 0 <= i < files.len() ==> (#[trigger] files[i]).exists,
    ensures
        added_all(v, files).total_files == v.total_files + files.len(),
        paths_of(files).len() == files.len(),
    decreases files.len(),
{
    if files.len() > 0 {
        let front = files.drop_last();
        assert forall|i: int| 0 <= i < front.len() implies (#[trigger] front[i]).exists by {
            assert(files[i].exists);
        }
        listed_files_are_counted(v, front);
        assert(files[files.len() - 1].exists);
    }
}

/// Whether the step lists the file `f`.
pub open spec fn lists_file(v: Visit, f: FileProbe) -> bool {
    match v {
        Visit::Listed { entry: Entry::File(g), .. } => g == f,
        _ => false,
    }
}

/// The files that the walk hands to the statistics are exactly the files
/// with a row in the tree: a file is among the listed files if and only if
/// some step of the walk lists it.
pub proof fn listed_files_have_rows(t: Seq<Visit>)
    ensures
        forall|f: FileProbe|
            listed_files(t).contains(f) <==> exists|i: int|
                0 <= i < t.len() && #[trigger] lists_file(t[i], f),
    decreases t.len(),
{
    if t.len() > 0 {
        let front = t.drop_last();
        listed_files_have_rows(front);
        assert forall|f: FileProbe| listed_files(t).contains(f) implies exists|i: int|
            0 <= i < t.len() && #[trigger] lists_file(t[i], f) by {
            let k = choose|k: int| 0 <= k < listed_files(t).len() && listed_files(t)[k] == f;
            if k < listed_files(front).len() {
                assert(listed_files(front)[k] == f);
                assert(listed_files(front).contains(f));
                let i = choose|i: int| 0 <= i < front.len() && #[trigger] lists_file(front[i], f);
                assert(lists_file(t[i], f));
            } else {
                assert(lists_file(t[t.len() - 1], f));
            }
        }
        assert forall|f: FileProbe|
            (exists|i: int| 0 <= i < t.len() && #[trigger] lists_file(t[i], f))
            implies listed_files(t).contains(f) by {
            let i = choose|i: int| 0 <= i < t.len() && #[trigger] lists_file(t[i], f);
            if i < front.len() {
                assert(lists_file(front[i], f));
                assert(listed_files(front).contains(f));
                let k = choose|k: int|
                    0 <= k < listed_files(front).len() && listed_files(front)[k] == f;
                assert(listed_files(t)[k] == f);
            } else {
                assert(listed_files(t)[listed_files(front).len() as int] == f);
            }
        }
    }
}

/// The walk is a function of what it is given: two walks over the same
/// directory under the same rules, begun with the same tree text and the
/// same statistics, end with the same tree text and the same statistics.
pub proof fn walk_is_repeatable(
    dir: DirListing,
    depth: nat,
    rules: WalkRules,
    text_before: Seq<char>,
    stats_before: StatsView,
    first_text: Seq<char>,
    first_stats: StatsView,
    second_text: Seq<char>,
    second_stats: StatsView,
)
    requires
        first_text == text_before + tree_text(trace(dir, depth, rules)),
        first_stats == added_all(stats_before, listed_files(trace(dir, depth, rules))),
        second_text == text_before + tree_text(trace(dir, depth, rules)),
        second_stats == added_all(stats_before, listed_files(trace(dir, depth, rules))),
    ensures
        first_text == second_text,
        first_stats == second_stats,
{
}

} // verus!
