use codetree::size::SizeReading;
use codetree::snapshot::FileProbe;
use codetree::stats::{file_record, ProjectStats};
use codetree::tally::ExtensionTable;

fn file(name: &str, size: u64, content: Option<&str>) -> FileProbe {
    FileProbe {
        name: name.to_string(),
        path: format!("/p/{}", name),
        relative_path: name.to_string(),
        regular: true,
        exists: true,
        size: SizeReading::Length(size),
        length: Some(size),
        content: content.map(|c| c.to_string()),
    }
}

fn table(t: &ExtensionTable) -> Vec<(String, u64)> {
    (0..t.len()).map(|i| (t.extension_at(i).to_string(), t.amount_at(i))).collect()
}

fn largest(s: &ProjectStats) -> Vec<(String, u64)> {
    s.largest_files().iter().map(|f| (f.path.clone(), f.size)).collect()
}

#[test]
fn new_stats_are_empty() {
    let s = ProjectStats::new();
    assert_eq!(s.total_files(), 0);
    assert_eq!(s.total_lines(), 0);
    assert_eq!(s.code_lines(), 0);
    assert_eq!(s.comment_lines(), 0);
    assert_eq!(s.blank_lines(), 0);
    assert_eq!(s.total_size_bytes(), 0);
    assert_eq!(s.total_content_size_bytes(), 0);
    assert_eq!(s.sensitive_files_count(), 0);
    assert_eq!(s.average_file_size(), 0);
    assert!(largest(&s).is_empty());
    assert!(table(s.files_by_extension()).is_empty());
    assert!(table(s.lines_by_extension()).is_empty());
    assert!(table(s.size_by_extension()).is_empty());
}

#[test]
fn one_text_file() {
    let mut s = ProjectStats::new();
    s.add_file(&file("main.rs", 4096, Some("// hi\nfn main() {}\n\nlet é = 1;\n")));
    assert_eq!(s.total_files(), 1);
    assert_eq!(s.total_lines(), 4);
    assert_eq!(s.comment_lines(), 1);
    assert_eq!(s.blank_lines(), 1);
    assert_eq!(s.code_lines(), 2);
    assert_eq!(s.total_size_bytes(), 4096);
    assert_eq!(s.total_content_size_bytes(), 32);
    assert_eq!(s.sensitive_files_count(), 0);
    assert_eq!(table(s.files_by_extension()), vec![("rs".to_string(), 1)]);
    assert_eq!(table(s.lines_by_extension()), vec![("rs".to_string(), 4)]);
    assert_eq!(table(s.size_by_extension()), vec![("rs".to_string(), 4096)]);
    assert_eq!(largest(&s), vec![("/p/main.rs".to_string(), 4096)]);
}

#[test]
fn missing_file_changes_nothing() {
    let mut s = ProjectStats::new();
    s.add_file(&file("a.rs", 10, Some("x\n")));
    let mut gone = file("b.rs", 99, Some("y\ny\n"));
    gone.exists = false;
    s.add_file(&gone);
    assert_eq!(s.total_files(), 1);
    assert_eq!(s.total_lines(), 1);
    assert_eq!(s.total_size_bytes(), 10);
    assert_eq!(largest(&s), vec![("/p/a.rs".to_string(), 10)]);
    assert_eq!(table(s.files_by_extension()), vec![("rs".to_string(), 1)]);
}

#[test]
fn binary_file_counts_without_lines() {
    let mut s = ProjectStats::new();
    s.add_file(&file("logo.PNG", 2048, None));
    assert_eq!(s.total_files(), 1);
    assert_eq!(s.total_lines(), 0);
    assert_eq!(s.total_size_bytes(), 2048);
    assert_eq!(s.total_content_size_bytes(), 0);
    assert_eq!(table(s.files_by_extension()), vec![("png".to_string(), 1)]);
    assert_eq!(table(s.size_by_extension()), vec![("png".to_string(), 2048)]);
    assert!(table(s.lines_by_extension()).is_empty());
}

#[test]
fn unknown_size_counts_as_zero() {
    let mut s = ProjectStats::new();
    let mut f = file("a.txt", 0, Some("x"));
    f.size = SizeReading::Unavailable;
    s.add_file(&f);
    assert_eq!(s.total_files(), 1);
    assert_eq!(s.total_size_bytes(), 0);
    assert_eq!(table(s.size_by_extension()), vec![("txt".to_string(), 0)]);
    assert_eq!(largest(&s), vec![("/p/a.txt".to_string(), 0)]);
}

#[test]
fn files_without_extension_are_counted_under_a_word() {
    let mut s = ProjectStats::new();
    s.add_file(&file("Makefile", 7, Some("all:\n")));
    s.add_file(&file(".gitattributes", 3, Some("x\n")));
    assert_eq!(table(s.files_by_extension()), vec![("no_extension".to_string(), 2)]);
    assert_eq!(table(s.lines_by_extension()), vec![("no_extension".to_string(), 2)]);
    assert_eq!(table(s.size_by_extension()), vec![("no_extension".to_string(), 10)]);
    assert_eq!(s.files_by_extension().get("no_extension"), 2);
    assert_eq!(s.files_by_extension().get("rs"), 0);
}

#[test]
fn sensitive_files_are_counted_by_name() {
    let mut s = ProjectStats::new();
    s.add_file(&file(".env", 5, Some("nothing=secret\n")));
    s.add_file(&file("app.config.json", 5, None));
    s.add_file(&file("notes.txt", 5, Some("password: hunter2\n")));
    assert_eq!(s.sensitive_files_count(), 2);
    assert_eq!(s.total_files(), 3);
}

#[test]
fn compressed_size_goes_into_the_total() {
    let mut s = ProjectStats::new();
    let mut f = file("big.log", 50_000, Some("x\n"));
    f.size = SizeReading::Compressed { attributes: 0x20, low: 1000, high: 0, fallback: Some(50_000) };
    s.add_file(&f);
    assert_eq!(s.total_size_bytes(), 1000);
    assert_eq!(table(s.size_by_extension()), vec![("log".to_string(), 1000)]);
}

#[test]
fn sparse_file_counts_its_blocks() {
    let mut s = ProjectStats::new();
    let mut f = file("sparse.bin", 1 << 30, None);
    f.size = SizeReading::Blocks { blocks: 8, length: 1 << 30 };
    s.add_file(&f);
    assert_eq!(s.total_size_bytes(), 4096);
}

#[test]
fn lines_split_into_code_comment_and_blank() {
    let mut s = ProjectStats::new();
    s.add_file(&file("a.py", 1, Some("# c\n\nx = 1\n  # d\n")));
    s.add_file(&file("b.css", 1, Some("/* c */\nbody {}\n")));
    s.add_file(&file("c.md", 1, Some("# title\n\ntext\n")));
    assert_eq!(s.total_lines(), 9);
    assert_eq!(s.comment_lines(), 3);
    assert_eq!(s.blank_lines(), 2);
    assert_eq!(s.code_lines(), 4);
    assert_eq!(s.total_lines(), s.code_lines() + s.comment_lines() + s.blank_lines());
}

#[test]
fn per_extension_sums_equal_the_totals() {
    let mut s = ProjectStats::new();
    let names = ["a.rs", "b.RS", "c.py", "d", "e.txt", "f.rs", ".g", "h.tar.gz"];
    for (i, name) in names.iter().enumerate() {
        let text = "x\n".repeat(i);
        let content = if i % 3 == 0 { None } else { Some(text.as_str()) };
        s.add_file(&file(name, (i as u64 + 1) * 100, content));
    }
    let sum = |t: &ExtensionTable| table(t).iter().map(|e| e.1).sum::<u64>();
    assert_eq!(sum(s.files_by_extension()), s.total_files() as u64);
    assert_eq!(sum(s.lines_by_extension()), s.total_lines() as u64);
    assert_eq!(sum(s.size_by_extension()), s.total_size_bytes());
    assert_eq!(s.files_by_extension().get("rs"), 3);
    assert_eq!(s.files_by_extension().get("no_extension"), 2);
    assert_eq!(s.files_by_extension().get("gz"), 1);
}

#[test]
fn largest_files_are_ten_at_most_and_descending() {
    let mut s = ProjectStats::new();
    let sizes = [5u64, 50, 7, 7, 100, 1, 3, 9, 20, 7, 60, 2, 8, 100];
    for (i, size) in sizes.iter().enumerate() {
        s.add_file(&file(&format!("f{}.rs", i), *size, None));
        let l = largest(&s);
        assert!(l.len() <= 10);
        assert_eq!(l.len(), (i + 1).min(10));
        for w in l.windows(2) {
            assert!(w[0].1 >= w[1].1);
        }
    }
    let expected: Vec<(String, u64)> = vec![
        ("/p/f4.rs", 100),
        ("/p/f13.rs", 100),
        ("/p/f10.rs", 60),
        ("/p/f1.rs", 50),
        ("/p/f8.rs", 20),
        ("/p/f7.rs", 9),
        ("/p/f12.rs", 8),
        ("/p/f2.rs", 7),
        ("/p/f3.rs", 7),
        ("/p/f9.rs", 7),
    ]
    .into_iter()
    .map(|(p, n)| (p.to_string(), n))
    .collect();
    assert_eq!(largest(&s), expected);
}

#[test]
fn largest_files_agree_with_sort_and_truncate() {
    let mut s = ProjectStats::new();
    let mut reference: Vec<(String, u64)> = Vec::new();
    let mut x: u64 = 7;
    for i in 0..60 {
        x = x.wrapping_mul(6364136223846793005).wrapping_add(1442695040888963407);
        let size = (x >> 59) as u64;
        let name = format!("n{}", i);
        s.add_file(&file(&name, size, None));
        reference.push((format!("/p/{}", name), size));
        reference.sort_by(|a, b| b.1.cmp(&a.1));
        reference.truncate(10);
        assert_eq!(largest(&s), reference);
    }
}

#[test]
fn average_is_settled_by_finalize() {
    let mut s = ProjectStats::new();
    s.finalize();
    assert_eq!(s.average_file_size(), 0);
    s.add_file(&file("a", 10, None));
    s.add_file(&file("b", 5, None));
    s.add_file(&file("c", 6, None));
    assert_eq!(s.average_file_size(), 0);
    s.finalize();
    assert_eq!(s.average_file_size(), 7);
}

#[test]
fn extension_table_counts_per_key() {
    let mut t = ExtensionTable::new();
    t.add("rs", 2);
    t.add("py", 1);
    t.add("rs", 5);
    t.add("", 0);
    assert_eq!(
        table(&t),
        vec![("rs".to_string(), 7), ("py".to_string(), 1), ("".to_string(), 0)]
    );
    assert_eq!(t.get("rs"), 7);
    assert_eq!(t.get("py"), 1);
    assert_eq!(t.get("go"), 0);
}

#[test]
fn record_of_a_text_file() {
    let r = file_record(&file("Lib.RS", 640, Some("// a\n\n  \nfn f() {}\n* p\nx\n")));
    assert_eq!(r.path, "/p/Lib.RS");
    assert_eq!(r.name, "Lib.RS");
    assert_eq!(r.extension, "rs");
    assert_eq!(r.size, 640);
    assert!(r.has_text);
    assert_eq!(r.content_bytes, 25);
    assert_eq!(r.total_lines, 6);
    assert_eq!(r.blank_lines, 2);
    assert_eq!(r.comment_lines, 2);
    assert_eq!(r.code_lines, 2);
    assert_eq!(r.total_lines, r.code_lines + r.comment_lines + r.blank_lines);
    assert!(!r.is_sensitive);
}

#[test]
fn record_of_a_file_without_text() {
    let mut f = file(".env", 9, None);
    f.size = SizeReading::Unavailable;
    let r = file_record(&f);
    assert_eq!(r.extension, "no_extension");
    assert_eq!(r.size, 0);
    assert!(!r.has_text);
    assert_eq!((r.content_bytes, r.total_lines, r.blank_lines, r.comment_lines, r.code_lines), (0, 0, 0, 0, 0));
    assert!(r.is_sensitive);
}

#[test]
fn adding_a_record_is_adding_the_file() {
    let f = file("a.py", 3, Some("# c\nx\n"));
    let mut by_file = ProjectStats::new();
    by_file.add_file(&f);
    let mut by_record = ProjectStats::new();
    by_record.add_record(&file_record(&f));
    assert_eq!(by_file.format_stats(), by_record.format_stats());
    assert_eq!(by_record.total_lines(), 2);
    assert_eq!(by_record.comment_lines(), 1);
    assert_eq!(by_record.code_lines(), 1);
}
