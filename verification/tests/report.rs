use codetree::output::{file_info, FileInfo, ProjectReport, RenderError, Timestamp};
use codetree::output::formats::TextGenerator;
use codetree::size::SizeReading;
use codetree::snapshot::FileProbe;
use codetree::stats::ProjectStats;

fn probe(name: &str, size: u64, content: Option<&str>) -> FileProbe {
    FileProbe {
        name: name.to_string(),
        path: format!("/p/{}", name),
        relative_path: name.to_string(),
        regular: true,
        exists: true,
        size: SizeReading::Length(size),
        length: Some(size),
        content: content.map(|c| c.to_string()),
    }
}

#[test]
fn summary_of_empty_statistics() {
    let s = ProjectStats::new();
    let expected = "\nProject Statistics:\n\
==================\n\
Total Files: 0\n\
Total Lines of Code: 0\n\
\x20 - Code Lines: 0 (0.0%)\n\
\x20 - Comment Lines: 0 (0.0%)\n\
\x20 - Blank Lines: 0 (0.0%)\n\
Total File System Size: 0 B\n\
Total Content Size: 0 B\n\
Average File Size: 0 B\n\
\nFiles by Type:\n";
    assert_eq!(s.format_stats(), expected);
}

#[test]
fn summary_of_statistics() {
    let mut s = ProjectStats::new();
    s.add_file(&probe("main.rs", 2048, Some("// a\nfn main() {}\n\n")));
    s.add_file(&probe("lib.rs", 1024, Some("pub fn f() {}\n")));
    s.add_file(&probe(".env", 10, Some("A=1\n")));
    s.add_file(&probe("logo.png", 4096, None));
    s.add_file(&probe("Makefile", 1, Some("all:\n\techo\n")));
    s.finalize();
    let expected = "\nProject Statistics:\n\
==================\n\
Total Files: 5\n\
Total Lines of Code: 7\n\
\x20 - Code Lines: 5 (71.4%)\n\
\x20 - Comment Lines: 1 (14.3%)\n\
\x20 - Blank Lines: 1 (14.3%)\n\
Total File System Size: 7.0 KB\n\
Total Content Size: 48 B\n\
Average File Size: 1.4 KB\n\
Content to File Size Ratio: 0.7%\n\
\nDetected 1 potentially sensitive file(s) that have been protected.\n\
\nFiles by Type:\n\
\x20 .rs: 2 files, 4 lines, 3.0 KB\n\
\x20 .no_extension: 2 files, 3 lines, 11 B\n\
\x20 .png: 1 files, 0 lines, 4.0 KB\n\
\nLargest Files:\n\
\x20 logo.png: 4.0 KB\n\
\x20 main.rs: 2.0 KB\n\
\x20 lib.rs: 1.0 KB\n\
\x20 .env: 10 B\n\
\x20 Makefile: 1 B\n";
    assert_eq!(s.format_stats(), expected);
}

#[test]
fn summary_shows_five_largest_files() {
    let mut s = ProjectStats::new();
    for i in 0..8u64 {
        s.add_file(&probe(&format!("f{}", i), i, None));
    }
    let text = s.format_stats();
    let tail = text.split("\nLargest Files:\n").nth(1).unwrap();
    assert_eq!(tail, "  f7: 7 B\n  f6: 6 B\n  f5: 5 B\n  f4: 4 B\n  f3: 3 B\n");
    assert!(!text.contains("Content to File Size Ratio"));
    assert!(!text.contains("sensitive"));
}

fn report(files: Vec<FileInfo>, stats: ProjectStats, seconds: i64) -> ProjectReport {
    ProjectReport {
        project_info: "No specific project type detected\n\nNo specific frameworks detected\n"
            .to_string(),
        file_tree: "├── a.rs\n└── .env.local\n".to_string(),
        statistics: stats,
        files,
        generated_at: Timestamp { seconds, nanos: 5 },
    }
}

#[test]
fn moment_is_written_as_date_and_time() {
    let at = |seconds: i64| Timestamp { seconds, nanos: 0 }.format_date_time();
    assert_eq!(at(0), Some("1970-01-01 00:00:00 UTC".to_string()));
    assert_eq!(at(1431648000), Some("2015-05-15 00:00:00 UTC".to_string()));
    assert_eq!(at(1_700_000_000), Some("2023-11-14 22:13:20 UTC".to_string()));
    assert_eq!(at(-1), Some("1969-12-31 23:59:59 UTC".to_string()));
    assert_eq!(at(i64::MAX), None);
    assert_eq!(Timestamp { seconds: 0, nanos: 2_000_000_000 }.format_date_time(), None);
}

#[test]
fn text_report_is_rendered() {
    let mut stats = ProjectStats::new();
    let a = probe("a.rs", 12, Some("fn a() {}\n"));
    let env = probe(".env.local", 4, Some("K=1\n"));
    let bin = probe("b.bin", 3, None);
    stats.add_file(&a);
    stats.add_file(&env);
    stats.add_file(&bin);
    stats.finalize();
    let summary = stats.format_stats();
    let r = report(vec![file_info(&a), file_info(&env), file_info(&bin)], stats, 1_700_000_000);
    let text = TextGenerator.generate(&r).unwrap();
    let expected = format!(
        "CODETREE PROJECT ANALYSIS\n\
========================\n\n\
Generated: 2023-11-14 22:13:20 UTC\n\n\
No specific project type detected\n\nNo specific frameworks detected\n\
\n\
Project File Tree:\n\
==================\n\
├── a.rs\n└── .env.local\n\
\n\
{}\n\
Project Files:\n\
==============\n\n\
1. a.rs\n\
\n\
fn a() {{}}\n\
\n\
\n\
2. .env.local\n\
\x20  [SENSITIVE FILE - Content Protected]\n\n\
\n\
3. b.bin\n\
\x20  [Unable to read file content]\n\
\n",
        summary
    );
    assert_eq!(text, expected);
    assert!(!text.contains("K=1"));
    assert_eq!(TextGenerator.render(&r, "now"), expected.replace("2023-11-14 22:13:20 UTC", "now"));
}

#[test]
fn report_with_an_impossible_moment_is_refused() {
    let r = report(vec![], ProjectStats::new(), i64::MIN);
    assert_eq!(TextGenerator.generate(&r), Err(RenderError::Timestamp));
}
