use codetree::output::{detect_language, file_info, format_size, output_file_name, OutputFormat};
use codetree::output::formats::TextGenerator;
use codetree::output::html::{prepare_extensions_data, HtmlGenerator};
use codetree::output::json::JsonGenerator;
use codetree::output::markdown::{get_file_icon, get_language_icon, MarkdownGenerator};
use codetree::size::SizeReading;
use codetree::snapshot::FileProbe;
use codetree::stats::ProjectStats;

fn probe(name: &str, content: Option<&str>) -> FileProbe {
    FileProbe {
        name: name.to_string(),
        path: format!("/p/sub/{}", name),
        relative_path: format!("sub/{}", name),
        regular: true,
        exists: true,
        size: SizeReading::Blocks { blocks: 8, length: 77 },
        length: Some(77),
        content: content.map(|c| c.to_string()),
    }
}

#[test]
fn format_names() {
    assert_eq!(OutputFormat::from_str("text"), Ok(OutputFormat::Text));
    assert_eq!(OutputFormat::from_str("txt"), Ok(OutputFormat::Text));
    assert_eq!(OutputFormat::from_str("TXT"), Ok(OutputFormat::Text));
    assert_eq!(OutputFormat::from_str("json"), Ok(OutputFormat::Json));
    assert_eq!(OutputFormat::from_str("Json"), Ok(OutputFormat::Json));
    assert_eq!(OutputFormat::from_str("markdown"), Ok(OutputFormat::Markdown));
    assert_eq!(OutputFormat::from_str("MD"), Ok(OutputFormat::Markdown));
    assert_eq!(OutputFormat::from_str("html"), Ok(OutputFormat::Html));
    assert_eq!(OutputFormat::from_str("HTML"), Ok(OutputFormat::Html));
}

#[test]
fn unknown_format_is_refused_with_its_name() {
    assert_eq!(OutputFormat::from_str("PDF"), Err("Unknown output format: PDF".to_string()));
    assert_eq!(OutputFormat::from_str(""), Err("Unknown output format: ".to_string()));
    assert_eq!(OutputFormat::from_str(" text"), Err("Unknown output format:  text".to_string()));
    assert_eq!(
        OutputFormat::from_lowercase("Given", "given"),
        Err("Unknown output format: Given".to_string())
    );
    assert_eq!(OutputFormat::from_lowercase("x", "md"), Ok(OutputFormat::Markdown));
}

#[test]
fn extensions_of_the_formats() {
    assert_eq!(OutputFormat::Text.file_extension(), "txt");
    assert_eq!(OutputFormat::Json.file_extension(), "json");
    assert_eq!(OutputFormat::Markdown.file_extension(), "md");
    assert_eq!(OutputFormat::Html.file_extension(), "html");
    assert_eq!(TextGenerator.file_extension(), "txt");
    assert_eq!(JsonGenerator.file_extension(), "json");
    assert_eq!(MarkdownGenerator.file_extension(), "md");
    assert_eq!(HtmlGenerator.file_extension(), "html");
    assert_eq!(output_file_name("codetree", &OutputFormat::Markdown), "codetree.md");
    assert_eq!(output_file_name("", &OutputFormat::Text), ".txt");
}

#[test]
fn env_file_never_shows_its_content() {
    let info = file_info(&probe(".env", Some("HARMLESS=1\n")));
    assert!(info.is_sensitive);
    assert_eq!(info.content, None);
    assert_eq!(info.line_count, 0);
    assert_eq!(info.size_bytes, 77);
}

#[test]
fn sensitive_files_are_redacted() {
    for name in ["app.settings.py", "config.json", "x.env.local", "wp-config.php"] {
        let info = file_info(&probe(name, Some("a\nb\n")));
        assert!(info.is_sensitive, "{}", name);
        assert_eq!(info.content, None, "{}", name);
        assert_eq!(info.line_count, 0, "{}", name);
    }
}

#[test]
fn ordinary_file_keeps_its_content() {
    let info = file_info(&probe("main.rs", Some("fn main() {}\n\n// end")));
    assert!(!info.is_sensitive);
    assert_eq!(info.path, "/p/sub/main.rs");
    assert_eq!(info.relative_path, "sub/main.rs");
    assert_eq!(info.content, Some("fn main() {}\n\n// end".to_string()));
    assert_eq!(info.line_count, 3);
    assert_eq!(info.size_bytes, 77);
}

#[test]
fn unreadable_or_missing_file_has_no_content() {
    let info = file_info(&probe("logo.png", None));
    assert_eq!(info.content, None);
    assert_eq!(info.line_count, 0);
    assert_eq!(info.size_bytes, 77);

    let mut gone = probe("a.rs", Some("x\n"));
    gone.exists = false;
    let info = file_info(&gone);
    assert_eq!(info.content, None);
    assert_eq!(info.line_count, 0);
    assert_eq!(info.size_bytes, 0);

    let mut no_length = probe("a.rs", Some("x\n"));
    no_length.length = None;
    let info = file_info(&no_length);
    assert_eq!(info.size_bytes, 0);
    assert_eq!(info.line_count, 1);
}

fn reference_size(bytes: u64) -> String {
    if bytes < 1024 {
        format!("{} bytes", bytes)
    } else if bytes < 1024 * 1024 {
        format!("{:.2} KB", bytes as f64 / 1024.0)
    } else if bytes < 1024 * 1024 * 1024 {
        format!("{:.2} MB", bytes as f64 / (1024.0 * 1024.0))
    } else {
        format!("{:.2} GB", bytes as f64 / (1024.0 * 1024.0 * 1024.0))
    }
}

#[test]
fn rendered_size_exact_values() {
    assert_eq!(format_size(0), "0 bytes");
    assert_eq!(format_size(1023), "1023 bytes");
    assert_eq!(format_size(1024), "1.00 KB");
    assert_eq!(format_size(1536), "1.50 KB");
    assert_eq!(format_size(1024 * 1024 - 1), "1024.00 KB");
    assert_eq!(format_size(1024 * 1024), "1.00 MB");
    assert_eq!(format_size(3 * 1024 * 1024 * 1024 / 2), "1.50 GB");
    assert_eq!(format_size(u64::MAX), "17179869184.00 GB");
    // 1.125 KB lies exactly between two hundredths.
    assert_eq!(format_size(1152), "1.12 KB");
    assert_eq!(format_size(1024 + 384), "1.38 KB");
}

#[test]
fn rendered_size_agrees_with_floating_point() {
    let mut samples: Vec<u64> = Vec::new();
    for k in 0..64u32 {
        let p = 1u64 << k;
        for d in [0u64, 1, 2, 5, 51, 128, 384, 511, 512, 513, 640, 1023] {
            samples.push(p.wrapping_add(d));
            samples.push(p.wrapping_sub(d));
            samples.push(p.wrapping_add(p / 1024 * d));
            samples.push(p.wrapping_add(p / 256 * (d % 256)));
            samples.push(p.wrapping_add(p / 200 * (d % 200)));
        }
    }
    let mut x: u64 = 0x1234_5678_9ABC_DEF1;
    for _ in 0..20000 {
        x ^= x << 13;
        x ^= x >> 7;
        x ^= x << 17;
        samples.push(x);
        samples.push(x >> (x % 61));
    }
    for bytes in samples {
        assert_eq!(format_size(bytes), reference_size(bytes), "bytes {}", bytes);
    }
}

#[test]
fn languages_by_path() {
    assert_eq!(detect_language("src/main.rs"), "rust");
    assert_eq!(detect_language("a/b.JSX"), "javascript");
    assert_eq!(detect_language("x.ts"), "typescript");
    assert_eq!(detect_language("x.py"), "python");
    assert_eq!(detect_language("X.java"), "java");
    assert_eq!(detect_language("x.c"), "c");
    assert_eq!(detect_language("x.cxx"), "cpp");
    assert_eq!(detect_language("x.hpp"), "c");
    assert_eq!(detect_language("x.cs"), "csharp");
    assert_eq!(detect_language("x.go"), "go");
    assert_eq!(detect_language("x.rb"), "ruby");
    assert_eq!(detect_language("x.php"), "php");
    assert_eq!(detect_language("x.html"), "html");
    assert_eq!(detect_language("x.css"), "css");
    assert_eq!(detect_language("x.sass"), "scss");
    assert_eq!(detect_language("x.json"), "json");
    assert_eq!(detect_language("x.xml"), "xml");
    assert_eq!(detect_language("x.yaml"), "yaml");
    assert_eq!(detect_language("Cargo.toml"), "toml");
    assert_eq!(detect_language("README.md"), "markdown");
    assert_eq!(detect_language("run.sh"), "bash");
    assert_eq!(detect_language("q.sql"), "sql");
    assert_eq!(detect_language("archive.tar.gz"), "");
    assert_eq!(detect_language("Makefile"), "");
    assert_eq!(detect_language(""), "");
    // A path without a dot is taken whole, and so is a leading dot's rest.
    assert_eq!(detect_language("rs"), "rust");
    assert_eq!(detect_language(".md"), "markdown");
    assert_eq!(detect_language("a.b/c"), "");
}

#[test]
fn icons_by_extension() {
    assert_eq!(get_language_icon("rs"), "🦀");
    assert_eq!(get_language_icon("RS"), "🦀");
    assert_eq!(get_language_icon("jsx"), "🟨");
    assert_eq!(get_language_icon("tsx"), "🔷");
    assert_eq!(get_language_icon("py"), "🐍");
    assert_eq!(get_language_icon("java"), "☕");
    assert_eq!(get_language_icon("c"), "🔧");
    assert_eq!(get_language_icon("cc"), "⚙️");
    assert_eq!(get_language_icon("h"), "📋");
    assert_eq!(get_language_icon("cs"), "🔷");
    assert_eq!(get_language_icon("go"), "🐹");
    assert_eq!(get_language_icon("rb"), "💎");
    assert_eq!(get_language_icon("php"), "🐘");
    assert_eq!(get_language_icon("html"), "🌐");
    assert_eq!(get_language_icon("css"), "🎨");
    assert_eq!(get_language_icon("scss"), "💅");
    assert_eq!(get_language_icon("json"), "📋");
    assert_eq!(get_language_icon("xml"), "📄");
    assert_eq!(get_language_icon("yml"), "⚙️");
    assert_eq!(get_language_icon("toml"), "⚙️");
    assert_eq!(get_language_icon("md"), "📝");
    assert_eq!(get_language_icon("bash"), "🐚");
    assert_eq!(get_language_icon("sql"), "🗃️");
    assert_eq!(get_language_icon("dockerfile"), "🐳");
    assert_eq!(get_language_icon("gitignore"), "🚫");
    assert_eq!(get_language_icon("Lock"), "🔒");
    assert_eq!(get_language_icon("\u{212A}"), "📄");
    assert_eq!(get_language_icon("loc\u{212A}"), "🔒");
    assert_eq!(get_language_icon("exe"), "📄");
    assert_eq!(get_language_icon(""), "📄");
}

#[test]
fn icons_by_path() {
    assert_eq!(get_file_icon("README.md"), "📖");
    assert_eq!(get_file_icon("docs/Readme"), "📖");
    assert_eq!(get_file_icon("LICENSE"), "📜");
    assert_eq!(get_file_icon("a/b/license.txt"), "📜");
    assert_eq!(get_file_icon("CHANGELOG.md"), "📋");
    assert_eq!(get_file_icon("Dockerfile"), "🐳");
    assert_eq!(get_file_icon("x/.gitignore"), "🚫");
    assert_eq!(get_file_icon("Cargo.toml"), "📦");
    assert_eq!(get_file_icon("Cargo.lock"), "📦");
    assert_eq!(get_file_icon("web/package.json"), "📦");
    assert_eq!(get_file_icon("Makefile"), "🔨");
    assert_eq!(get_file_icon("src/main.rs"), "🦀");
    assert_eq!(get_file_icon("yarn.lock"), "🔒");
    assert_eq!(get_file_icon("a.dir/file"), "📄");
    assert_eq!(get_file_icon("dir/"), "📄");
    assert_eq!(get_file_icon("notes.md"), "📝");
    assert_eq!(get_file_icon("gitignore"), "🚫");
}

#[test]
fn extension_rows_are_ranked_by_file_count() {
    let mut stats = ProjectStats::new();
    for (name, content) in [
        ("a.py", Some("x\ny\n")),
        ("b.rs", Some("x\n")),
        ("c.rs", None),
        ("d.md", Some("\n\n\n")),
        ("e.py", Some("z\n")),
        ("f.rs", Some("q\nr\ns\n")),
        ("g.png", None),
    ] {
        stats.add_file(&probe(name, content));
    }
    let rows: Vec<(String, u64, u64)> = prepare_extensions_data(&stats)
        .into_iter()
        .map(|r| (r.extension, r.count, r.lines))
        .collect();
    assert_eq!(
        rows,
        vec![
            ("rs".to_string(), 3, 4),
            ("py".to_string(), 2, 3),
            ("md".to_string(), 1, 3),
            ("png".to_string(), 1, 0),
        ]
    );
    assert!(prepare_extensions_data(&ProjectStats::new()).is_empty());
}
