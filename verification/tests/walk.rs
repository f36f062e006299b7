use codetree::project::ProjectDetector;
use codetree::size::SizeReading;
use codetree::snapshot::{DirListing, Entry, FileProbe, RootFacts};
use codetree::stats::ProjectStats;
use codetree::text::{chars_of, text_before};
use codetree::walk::{calculate_directory_size, get_file_tree_and_contents, is_excluded};

fn file(dir: &str, name: &str, size: u64, content: Option<&str>) -> Entry {
    Entry::File(FileProbe {
        name: name.to_string(),
        path: format!("{}/{}", dir, name),
        relative_path: name.to_string(),
        regular: true,
        exists: true,
        size: SizeReading::Length(size),
        length: Some(size),
        content: content.map(|c| c.to_string()),
    })
}

fn dir(parent: &str, name: &str, entries: Vec<Entry>) -> Entry {
    Entry::Dir(listing(parent, name, entries))
}

fn listing(parent: &str, name: &str, entries: Vec<Entry>) -> DirListing {
    DirListing {
        name: name.to_string(),
        path: format!("{}/{}", parent, name),
        size: SizeReading::Length(4096),
        entries,
    }
}

struct Walked {
    tree: String,
    paths: Vec<String>,
    stats: ProjectStats,
    detector: ProjectDetector,
}

fn walk_with(root: &DirListing, detector: ProjectDetector, script: &str, report: &str) -> Walked {
    let mut w = Walked { tree: String::new(), paths: Vec::new(), stats: ProjectStats::new(), detector };
    get_file_tree_and_contents(
        root,
        0,
        &mut w.paths,
        &mut w.tree,
        script,
        report,
        &mut w.stats,
        &mut w.detector,
    );
    w
}

fn walk(root: &DirListing) -> Walked {
    walk_with(root, ProjectDetector::new(), "codetree", "codetree.txt")
}

#[test]
fn empty_directory() {
    let w = walk(&listing("", "p", vec![]));
    assert_eq!(w.tree, "");
    assert!(w.paths.is_empty());
    assert_eq!(w.stats.total_files(), 0);
}

#[test]
fn directories_come_first_then_names() {
    let root = listing(
        "",
        "p",
        vec![
            file("/p", "b.rs", 1, None),
            dir("/p", "zeta", vec![]),
            file("/p", "a.rs", 1, None),
            dir("/p", "alpha", vec![file("/p/alpha", "x.rs", 1, None)]),
            file("/p", "B.rs", 1, None),
        ],
    );
    let w = walk(&root);
    let expected = "├── alpha/\n\
│   └── x.rs\n\
├── zeta/\n\
├── B.rs\n\
├── a.rs\n\
└── b.rs\n";
    assert_eq!(w.tree, expected);
    assert_eq!(w.paths, vec!["/p/alpha/x.rs", "/p/B.rs", "/p/a.rs", "/p/b.rs"]);
    assert_eq!(w.stats.total_files(), 4);
}

#[test]
fn rows_are_indented_once_per_level() {
    let root = listing(
        "",
        "p",
        vec![dir(
            "/p",
            "a",
            vec![
                dir("/p/a", "b", vec![file("/p/a/b", "one", 1, None), file("/p/a/b", "two", 1, None)]),
                file("/p/a", "c", 1, None),
            ],
        )],
    );
    let w = walk(&root);
    let expected = "└── a/\n\
│   ├── b/\n\
│   │   ├── one\n\
│   │   └── two\n\
│   └── c\n";
    assert_eq!(w.tree, expected);
}

#[test]
fn rust_project_with_target() {
    let mut facts = RootFacts::new();
    facts.cargo_toml = true;
    let mut detector = ProjectDetector::new();
    detector.detect_project_types(&facts);
    assert_eq!(detector.project_types().len(), 1);
    assert_eq!(detector.project_types()[0].name(), "Rust");

    let root = listing(
        "",
        "p",
        vec![
            file("/p", "Cargo.toml", 100, Some("[package]\n")),
            dir(
                "/p",
                "target",
                vec![
                    file("/p/target", "a.o", 1000, None),
                    dir("/p/target", "debug", vec![file("/p/target/debug", "app", 2000, None)]),
                ],
            ),
            dir("/p", "src", vec![file("/p/src", "main.rs", 50, Some("fn main() {}\n"))]),
        ],
    );
    let w = walk_with(&root, detector, "codetree", "codetree.txt");
    assert_eq!(w.tree, "├── src/\n│   └── main.rs\n└── Cargo.toml\n");
    assert_eq!(w.paths, vec!["/p/src/main.rs", "/p/Cargo.toml"]);
    assert!(!w.tree.contains("target"));
    assert!(w.paths.iter().all(|p| !p.contains("target")));
    assert_eq!(w.stats.total_files(), 2);
    let report = w.detector.excluded_stats();
    assert_eq!(report.excluded_directories().len(), 1);
    let d = &report.excluded_directories()[0];
    assert_eq!(d.path, "/p/target");
    assert_eq!(d.size, 3000);
    assert_eq!(d.file_count, 2);
    assert_eq!(d.reason, "Rust/Java build directory");
    assert_eq!(report.total_excluded_size(), 3000);
}

#[test]
fn base_excluded_directory_is_never_entered() {
    let root = listing(
        "",
        "p",
        vec![
            dir("/p", ".git", vec![file("/p/.git", "HEAD", 10, Some("ref\n"))]),
            dir("/p", "src", vec![dir("/p/src", "cache", vec![file("/p/src/cache", "x", 5, None)])]),
        ],
    );
    let w = walk(&root);
    assert_eq!(w.tree, "└── src/\n");
    assert!(w.paths.is_empty());
    assert_eq!(w.stats.total_files(), 0);
    let dirs = w.detector.excluded_stats().excluded_directories();
    assert_eq!(dirs.len(), 2);
    assert_eq!(dirs[0].path, "/p/.git");
    assert_eq!(dirs[0].reason, "Base excluded directory");
    assert_eq!(dirs[0].size, 10);
    assert_eq!(dirs[1].path, "/p/src/cache");
    assert_eq!(dirs[1].size, 5);
}

#[test]
fn a_file_named_like_an_excluded_directory_is_kept() {
    let root = listing("", "p", vec![file("/p", "cache", 1, None), file("/p", "out", 1, None)]);
    let w = walk(&root);
    assert_eq!(w.tree, "├── cache\n└── out\n");
}

#[test]
fn excluded_files_are_recorded_not_listed() {
    let mut unknown = match file("/p", "yarn.lock", 0, None) {
        Entry::File(f) => f,
        Entry::Dir(_) => unreachable!(),
    };
    unknown.size = SizeReading::Unavailable;
    let root = listing(
        "",
        "p",
        vec![
            file("/p", "README.md", 300, Some("# hi\n")),
            file("/p", "lib.rs", 20, Some("x\n")),
            Entry::File(unknown),
            file("/p", ".env", 40, Some("KEY=1\n")),
        ],
    );
    let w = walk(&root);
    assert_eq!(w.tree, "└── lib.rs\n");
    assert_eq!(w.paths, vec!["/p/lib.rs"]);
    let files = w.detector.excluded_stats().excluded_files();
    assert_eq!(files.len(), 2);
    assert_eq!(files[0].path, "/p/README.md");
    assert_eq!(files[0].size, 300);
    assert_eq!(files[0].reason, "Documentation file");
    assert_eq!(files[1].path, "/p/.env");
    assert_eq!(files[1].reason, "Environment configuration file");
    assert_eq!(w.detector.excluded_stats().total_excluded_size(), 340);
    assert_eq!(w.stats.sensitive_files_count(), 0);
}

#[test]
fn program_and_report_are_passed_over() {
    let root = listing(
        "",
        "p",
        vec![
            file("/p", "codetree", 1, None),
            file("/p", "a.rs", 1, None),
            file("/p", "report.md", 1, None),
        ],
    );
    let w = walk_with(&root, ProjectDetector::new(), "codetree", "report.md");
    assert_eq!(w.tree, "└── a.rs\n");
    assert_eq!(w.paths, vec!["/p/a.rs"]);
    assert_eq!(w.stats.total_files(), 1);
    assert!(w.detector.excluded_stats().excluded_files().is_empty());
}

#[test]
fn skipped_directory_is_not_entered() {
    let root = listing(
        "",
        "p",
        vec![dir("/p", "codetree", vec![file("/p/codetree", "x.rs", 1, None)]), file("/p", "y.rs", 1, None)],
    );
    let w = walk(&root);
    assert_eq!(w.tree, "└── y.rs\n");
    assert_eq!(w.paths, vec!["/p/y.rs"]);
}

#[test]
fn every_listed_file_is_counted() {
    let root = listing(
        "",
        "p",
        vec![
            file("/p", "a.rs", 1, Some("x\n")),
            dir(
                "/p",
                "d",
                vec![
                    file("/p/d", "b.py", 2, Some("# c\n")),
                    file("/p/d", "Cargo.lock", 9, None),
                    dir("/p/d", "e", vec![file("/p/d/e", "c.txt", 3, None)]),
                ],
            ),
            dir("/p", "out", vec![file("/p/out", "z.rs", 100, None)]),
        ],
    );
    let w = walk(&root);
    let file_rows = w.tree.lines().filter(|l| !l.ends_with('/')).count();
    assert_eq!(file_rows, w.paths.len());
    assert_eq!(w.stats.total_files(), w.paths.len());
    assert_eq!(w.paths, vec!["/p/d/e/c.txt", "/p/d/b.py", "/p/a.rs"]);
    assert_eq!(w.stats.total_size_bytes(), 6);
    for path in &w.paths {
        let name = path.rsplit('/').next().unwrap();
        assert!(w.tree.contains(&format!("── {}\n", name)));
    }
}

#[test]
fn walking_twice_gives_the_same_result() {
    let root = listing(
        "",
        "p",
        vec![
            file("/p", "b.rs", 10, Some("// c\nx\n")),
            dir("/p", "node_modules", vec![file("/p/node_modules", "m.js", 7, None)]),
            dir("/p", "lib", vec![file("/p/lib", "a.py", 20, Some("\n# c\n"))]),
            file("/p", "tsconfig.json", 3, None),
        ],
    );
    let a = walk(&root);
    let b = walk(&root);
    assert_eq!(a.tree, b.tree);
    assert_eq!(a.paths, b.paths);
    assert_eq!(a.stats.total_files(), b.stats.total_files());
    assert_eq!(a.stats.total_lines(), b.stats.total_lines());
    assert_eq!(a.stats.code_lines(), b.stats.code_lines());
    assert_eq!(a.stats.comment_lines(), b.stats.comment_lines());
    assert_eq!(a.stats.blank_lines(), b.stats.blank_lines());
    assert_eq!(a.stats.total_size_bytes(), b.stats.total_size_bytes());
    assert_eq!(a.detector.format_project_info(), b.detector.format_project_info());
    assert_eq!(a.tree, "├── lib/\n│   └── a.py\n├── node_modules/\n│   └── m.js\n└── b.rs\n");
}

#[test]
fn accumulators_are_extended_not_replaced() {
    let root = listing("", "p", vec![file("/p", "a.rs", 5, Some("x\n"))]);
    let mut tree = "head\n".to_string();
    let mut paths = vec!["first".to_string()];
    let mut stats = ProjectStats::new();
    let mut detector = ProjectDetector::new();
    get_file_tree_and_contents(&root, 2, &mut paths, &mut tree, "s", "o", &mut stats, &mut detector);
    get_file_tree_and_contents(&root, 0, &mut paths, &mut tree, "s", "o", &mut stats, &mut detector);
    assert_eq!(tree, "head\n│   │   └── a.rs\n└── a.rs\n");
    assert_eq!(paths, vec!["first", "/p/a.rs", "/p/a.rs"]);
    assert_eq!(stats.total_files(), 2);
    assert_eq!(stats.total_size_bytes(), 10);
}

#[test]
fn directory_size_counts_regular_files_at_any_depth() {
    let mut link = match file("/d", "link", 999, None) {
        Entry::File(f) => f,
        Entry::Dir(_) => unreachable!(),
    };
    link.regular = false;
    let mut unknown = match file("/d/sub", "u", 0, None) {
        Entry::File(f) => f,
        Entry::Dir(_) => unreachable!(),
    };
    unknown.size = SizeReading::Unavailable;
    let d = listing(
        "",
        "d",
        vec![
            file("/d", "a", 10, None),
            Entry::File(link),
            dir(
                "/d",
                "sub",
                vec![
                    file("/d/sub", "b", 20, None),
                    Entry::File(unknown),
                    dir("/d/sub", ".git", vec![file("/d/sub/.git", "c", 30, None)]),
                ],
            ),
        ],
    );
    assert_eq!(calculate_directory_size(&d), (60, 4));
    assert_eq!(calculate_directory_size(&listing("", "e", vec![])), (0, 0));
}

#[test]
fn only_directories_are_excluded_by_directory_rules() {
    let detector = ProjectDetector::new();
    assert!(is_excluded(&dir("/p", ".git", vec![]), &detector));
    assert!(!is_excluded(&dir("/p", "src", vec![]), &detector));
    assert!(!is_excluded(&file("/p", ".git", 1, None), &detector));
}

#[test]
fn name_order_agrees_with_string_order() {
    let names = [
        "", "a", "A", "ab", "b", "a b", "é", "e", "z", "Z", "10", "9", "_x", ".x", "~", "日本", "ü",
        "\u{10FFFF}", "\u{FFFD}", "aa", "a\u{0}",
    ];
    for a in names {
        for b in names {
            assert_eq!(text_before(&chars_of(a), &chars_of(b)), a <= b, "{:?} {:?}", a, b);
        }
    }
}

#[test]
fn visiting_order_agrees_with_a_stable_sort() {
    let names = ["m", "B", "a", "é", "z", "a", "10", "9", "_", "C", "m", "b"];
    let mut entries = Vec::new();
    for (i, name) in names.iter().enumerate() {
        if i % 3 == 0 {
            entries.push(dir("/p", name, vec![]));
        } else {
            entries.push(file("/p", name, i as u64, None));
        }
    }
    let mut expected: Vec<(bool, String)> = entries
        .iter()
        .map(|e| match e {
            Entry::Dir(d) => (false, d.name.clone()),
            Entry::File(f) => (true, f.name.clone()),
        })
        .collect();
    expected.sort_by_key(|k| k.clone());
    let w = walk(&listing("", "p", entries));
    let rows: Vec<String> = w.tree.lines().map(|l| l.to_string()).collect();
    assert_eq!(rows.len(), expected.len());
    for (i, (is_file, name)) in expected.iter().enumerate() {
        let sign = if i + 1 == expected.len() { "└── " } else { "├── " };
        let tail = if *is_file { "" } else { "/" };
        assert_eq!(rows[i], format!("{}{}{}", sign, name, tail));
    }
}

#[test]
fn closing_sign_goes_to_the_last_row_that_is_written() {
    let root = listing(
        "",
        "p",
        vec![
            dir(
                "/p",
                "src",
                vec![
                    file("/p/src", "zz-report.txt", 1, None),
                    file("/p/src", "b.rs", 1, None),
                    file("/p/src", "a.rs", 1, None),
                    dir("/p/src", "zz-program", vec![file("/p/src/zz-program", "x", 1, None)]),
                ],
            ),
            file("/p", "zz-report.txt", 1, None),
            file("/p", "m.rs", 1, None),
        ],
    );
    let w = walk_with(&root, ProjectDetector::new(), "zz-program", "zz-report.txt");
    assert_eq!(w.tree, "├── src/\n│   ├── a.rs\n│   └── b.rs\n└── m.rs\n");
    assert_eq!(w.paths, vec!["/p/src/a.rs", "/p/src/b.rs", "/p/m.rs"]);
    // One closing sign for the root and one for `src`.
    assert_eq!(w.tree.matches("└── ").count(), 2);
}

#[test]
fn directory_with_only_passed_over_entries_has_no_rows() {
    let root = listing("", "p", vec![file("/p", "codetree", 1, None), file("/p", "codetree.txt", 1, None)]);
    let w = walk(&root);
    assert_eq!(w.tree, "");
    assert!(w.paths.is_empty());
    assert_eq!(w.stats.total_files(), 0);
}
