use codetree::lines::{
    comment_style, comment_style_of_name, count_lines, is_comment_in, is_likely_comment,
    is_white_space, trim_bounds, CommentStyle, LineCounts,
};
use codetree::text::chars_of;

#[test]
fn white_space_agrees_with_the_standard_library() {
    for v in 0..=0x10FFFFu32 {
        if let Some(c) = char::from_u32(v) {
            assert_eq!(is_white_space(c), c.is_whitespace(), "U+{:04X}", v);
        }
    }
}

fn trim(s: &str) -> String {
    let chars = chars_of(s);
    let (a, b) = trim_bounds(&chars);
    chars[a..b].iter().collect()
}

#[test]
fn trimming_agrees_with_the_standard_library() {
    for s in [
        "", " ", "a", " a", "a ", "  a b  ", "\t\r\n x \u{3000}", "\u{a0}\u{2003}", "x\r",
        "\u{feff}x", "  // c", "\u{85}y\u{1680}",
    ] {
        assert_eq!(trim(s), s.trim(), "{:?}", s);
    }
}

fn counts(text: &str, ext: &str) -> (usize, usize, usize) {
    let c: LineCounts = count_lines(&chars_of(text), comment_style(ext));
    (c.total, c.blank, c.comment)
}

fn reference(text: &str, name: &str) -> (usize, usize, usize) {
    let lines: Vec<&str> = text.lines().collect();
    let mut blank = 0;
    let mut comment = 0;
    for line in &lines {
        let t = line.trim();
        if t.is_empty() {
            blank += 1;
        } else if is_likely_comment(t, name) {
            comment += 1;
        }
    }
    (lines.len(), blank, comment)
}

#[test]
fn line_counts_exact_values() {
    assert_eq!(counts("", "rs"), (0, 0, 0));
    assert_eq!(counts("\n", "rs"), (1, 1, 0));
    assert_eq!(counts("a", "rs"), (1, 0, 0));
    assert_eq!(counts("a\n", "rs"), (1, 0, 0));
    assert_eq!(counts("a\nb", "rs"), (2, 0, 0));
    assert_eq!(counts("a\n\n", "rs"), (2, 1, 0));
    assert_eq!(counts("\n\n\n", "rs"), (3, 3, 0));
    assert_eq!(counts("// c\nfn main() {}\n\n  /* x */\n * y\n", "rs"), (5, 1, 3));
    assert_eq!(counts("a\r\nb\r\n\r\n", "rs"), (3, 1, 0));
    assert_eq!(counts("# c\n  # d\nx = 1 # e\n", "py"), (3, 0, 2));
    assert_eq!(counts("<!-- a\n b -->\n<p>\n", "html"), (3, 0, 2));
    assert_eq!(counts("// a\n# b\n", "txt"), (2, 0, 0));
}

#[test]
fn line_counts_agree_with_the_standard_library() {
    let texts = [
        "",
        "\n",
        "\r\n",
        "\r",
        "a\r",
        "one\ntwo\r\nthree\rfour\n\n\n  \n\t// x\n*p = 1;\n",
        "  \u{a0}\n//\n/**/\n*/\n",
        "a\n\nb\n\n\nc",
        "# x\n#! y\n    #z\n\u{3000}# w\n",
        "x -->\n--> y\n<!---->\n< !--\n",
    ];
    let names = ["f.rs", "f.py", "f.html", "f.css", "f.txt", "f", "F.RS", ".rs", "a.b.XML"];
    for text in texts {
        for name in names {
            let style = comment_style_of_name(name);
            let c = count_lines(&chars_of(text), style);
            assert_eq!((c.total, c.blank, c.comment), reference(text, name), "{:?} {:?}", text, name);
        }
    }
}

#[test]
fn comment_styles_by_extension() {
    for ext in ["rs", "c", "cpp", "h", "hpp", "js", "jsx", "ts", "tsx", "java", "cs", "go", "swift"] {
        assert_eq!(comment_style(ext), CommentStyle::Slashes, "{}", ext);
    }
    for ext in ["py", "rb", "sh", "bash", "yml", "yaml"] {
        assert_eq!(comment_style(ext), CommentStyle::Hash, "{}", ext);
    }
    for ext in ["html", "xml", "svg"] {
        assert_eq!(comment_style(ext), CommentStyle::Markup, "{}", ext);
    }
    for ext in ["css", "scss", "sass"] {
        assert_eq!(comment_style(ext), CommentStyle::StyleSheet, "{}", ext);
    }
    for ext in ["", "txt", "RS", "md", "rss", "no_extension"] {
        assert_eq!(comment_style(ext), CommentStyle::Unknown, "{}", ext);
    }
}

#[test]
fn extension_is_lowered_before_it_selects_the_style() {
    assert_eq!(comment_style_of_name("Main.RS"), CommentStyle::Slashes);
    assert_eq!(comment_style_of_name("a.Py"), CommentStyle::Hash);
    assert_eq!(comment_style_of_name("INDEX.HTML"), CommentStyle::Markup);
    assert_eq!(comment_style_of_name("Makefile"), CommentStyle::Unknown);
    assert_eq!(comment_style_of_name(".rs"), CommentStyle::Unknown);
    // The Kelvin sign lowers to the letter k; nothing here ends in k.
    assert_eq!(comment_style_of_name("x.\u{212A}"), CommentStyle::Unknown);
}

#[test]
fn comment_rules() {
    let line = |s: &str| chars_of(s);
    assert!(is_comment_in(CommentStyle::Slashes, &line("// x")));
    assert!(is_comment_in(CommentStyle::Slashes, &line("/* x")));
    assert!(is_comment_in(CommentStyle::Slashes, &line("* x")));
    assert!(is_comment_in(CommentStyle::Slashes, &line("*/")));
    assert!(is_comment_in(CommentStyle::Slashes, &line("*p = 3;")));
    assert!(!is_comment_in(CommentStyle::Slashes, &line(" // x")));
    assert!(!is_comment_in(CommentStyle::Slashes, &line("/ x")));
    assert!(!is_comment_in(CommentStyle::Slashes, &line("# x")));
    assert!(!is_comment_in(CommentStyle::Slashes, &line("")));
    assert!(is_comment_in(CommentStyle::StyleSheet, &line("// x")));
    assert!(is_comment_in(CommentStyle::StyleSheet, &line("*/")));
    assert!(is_comment_in(CommentStyle::Hash, &line("#")));
    assert!(!is_comment_in(CommentStyle::Hash, &line("x #")));
    assert!(is_comment_in(CommentStyle::Markup, &line("<!-- x")));
    assert!(is_comment_in(CommentStyle::Markup, &line("x -->")));
    assert!(!is_comment_in(CommentStyle::Markup, &line("<!- x ->")));
    assert!(!is_comment_in(CommentStyle::Unknown, &line("// x")));
}

#[test]
fn likely_comment_takes_the_line_as_it_is() {
    assert!(is_likely_comment("// x", "a.rs"));
    assert!(!is_likely_comment("  // x", "a.rs"));
    assert!(is_likely_comment("# x", "a.YML"));
    assert!(!is_likely_comment("# x", "a"));
    assert!(!is_likely_comment("// x", "rs"));
}
