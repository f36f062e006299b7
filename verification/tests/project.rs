use codetree::framework::Framework;
use codetree::project::{get_exclusion_reason, ProjectDetector, ProjectType};
use codetree::snapshot::{Manifest, ProjectFile, RootFacts};

fn dirs(d: &ProjectDetector) -> Vec<String> {
    d.excluded_dirs().clone()
}

const BASE: [&str; 10] =
    [".idea", ".git", ".github", ".gitlab", ".vscode", ".venv", "cache", "fonts", "obj", "out"];

#[test]
fn new_detector_holds_the_base_exclusions() {
    let d = ProjectDetector::new();
    assert_eq!(dirs(&d), BASE.iter().map(|s| s.to_string()).collect::<Vec<_>>());
    for name in BASE {
        assert!(d.is_excluded_dir(name));
    }
    assert!(!d.is_excluded_dir("target"));
    assert!(!d.is_excluded_dir("bin"));
    assert!(d.project_types().is_empty());
    assert!(d.framework_detection().is_empty());
    assert_eq!(d.excluded_stats().total_excluded_size(), 0);
}

#[test]
fn bare_root_gets_the_common_exclusions_only() {
    let mut d = ProjectDetector::new();
    d.detect_project_types(&RootFacts::new());
    assert!(d.project_types().is_empty());
    let mut expected: Vec<String> = BASE.iter().map(|s| s.to_string()).collect();
    for name in ["assets", "asset", "public", "bin"] {
        expected.push(name.to_string());
    }
    assert_eq!(dirs(&d), expected);
}

#[test]
fn rust_project_excludes_target() {
    let mut root = RootFacts::new();
    root.cargo_toml = true;
    let mut d = ProjectDetector::new();
    d.detect_project_types(&root);
    assert_eq!(d.project_types(), &vec![ProjectType::Rust]);
    assert!(d.is_excluded_dir("target"));
    assert_eq!(get_exclusion_reason("target", &d), "Rust/Java build directory");
}

#[test]
fn base_exclusions_survive_every_detection() {
    let mut root = RootFacts::new();
    root.cargo_toml = true;
    root.package_json = Manifest::Text("{}".to_string());
    root.setup_py = true;
    root.pom_xml = Manifest::Unreadable;
    root.build_gradle_kts = true;
    root.root_entries = Some(vec!["App.fsproj".to_string()]);
    root.go_mod = true;
    root.gemfile = true;
    root.composer_json = true;
    let mut d = ProjectDetector::new();
    d.detect_project_types(&root);
    d.detect_project_types(&root);
    for name in BASE {
        assert!(d.is_excluded_dir(name), "{}", name);
        if name != "obj" {
            assert_eq!(get_exclusion_reason(name, &d), "Base excluded directory");
        }
    }
}

#[test]
fn polyglot_root() {
    let mut root = RootFacts::new();
    root.cargo_toml = true;
    root.package_json = Manifest::Text("{\"react\": \"18.2.0\"}".to_string());
    root.requirements_txt = Manifest::Text("fastapi\n".to_string());
    root.pom_xml = Manifest::Text("spring-boot".to_string());
    root.build_gradle = true;
    root.root_entries = Some(vec!["readme.txt".to_string(), "Web.csproj".to_string()]);
    root.project_files = vec![ProjectFile {
        name: "Web.csproj".to_string(),
        content: Some("Microsoft.AspNetCore".to_string()),
    }];
    root.go_mod = true;
    root.gemfile = true;
    root.routes_rb = true;
    root.composer_json = true;
    root.artisan = true;
    let mut d = ProjectDetector::new();
    d.detect_project_types(&root);
    assert_eq!(
        d.project_types(),
        &vec![
            ProjectType::Rust,
            ProjectType::JavaScriptNode,
            ProjectType::Python,
            ProjectType::JavaMaven,
            ProjectType::JavaGradle,
            ProjectType::DotNet,
            ProjectType::Go,
            ProjectType::Ruby,
            ProjectType::Php,
        ]
    );
    let mut expected: Vec<String> = BASE.iter().map(|s| s.to_string()).collect();
    for name in [
        "target", "node_modules", "dist", "build", "__pycache__", ".pytest_cache", "venv",
        ".gradle", "bin", "vendor", "assets", "asset", "public",
    ] {
        expected.push(name.to_string());
    }
    assert_eq!(dirs(&d), expected);
    let f = d.framework_detection();
    let got: Vec<Framework> = (0..f.len()).map(|i| f.framework_at(i)).collect();
    assert_eq!(
        got,
        vec![
            Framework::React,
            Framework::FastApi,
            Framework::SpringBoot,
            Framework::AspNetCore,
            Framework::RubyOnRails,
            Framework::Laravel,
        ]
    );
    assert_eq!(f.version_of(Framework::React), Some("18.2.0".to_string()));
}

#[test]
fn framework_detection_needs_the_project_type() {
    // Without a Gemfile the routes file is not looked at; without a
    // composer.json neither is artisan.
    let mut root = RootFacts::new();
    root.routes_rb = true;
    root.artisan = true;
    root.manage_py = true;
    root.settings_py = true;
    root.project_files = vec![ProjectFile {
        name: "Web.csproj".to_string(),
        content: Some("Microsoft.AspNetCore".to_string()),
    }];
    let mut d = ProjectDetector::new();
    d.detect_project_types(&root);
    assert!(d.project_types().is_empty());
    assert!(d.framework_detection().is_empty());
}

#[test]
fn unreadable_manifest_still_marks_the_project() {
    let mut root = RootFacts::new();
    root.package_json = Manifest::Unreadable;
    let mut d = ProjectDetector::new();
    d.detect_project_types(&root);
    assert_eq!(d.project_types(), &vec![ProjectType::JavaScriptNode]);
    assert!(d.is_excluded_dir("node_modules"));
    assert!(d.framework_detection().is_empty());
}

#[test]
fn unlisted_root_has_no_dotnet_project() {
    let mut root = RootFacts::new();
    root.root_entries = None;
    let mut d = ProjectDetector::new();
    d.detect_project_types(&root);
    assert!(d.project_types().is_empty());
}

#[test]
fn exclusion_reasons() {
    let mut root = RootFacts::new();
    root.cargo_toml = true;
    root.package_json = Manifest::Absent;
    root.pyproject_toml = true;
    root.build_gradle = true;
    root.go_mod = true;
    let mut d = ProjectDetector::new();
    d.detect_project_types(&root);
    assert_eq!(get_exclusion_reason(".git", &d), "Base excluded directory");
    assert_eq!(get_exclusion_reason("obj", &d), "Base excluded directory");
    assert_eq!(get_exclusion_reason("target", &d), "Rust/Java build directory");
    assert_eq!(get_exclusion_reason("dist", &d), "Build output directory");
    assert_eq!(get_exclusion_reason("build", &d), "Build output directory");
    assert_eq!(get_exclusion_reason("__pycache__", &d), "Python cache directory");
    assert_eq!(get_exclusion_reason(".pytest_cache", &d), "Pytest cache directory");
    assert_eq!(get_exclusion_reason("venv", &d), "Python virtual environment");
    assert_eq!(get_exclusion_reason(".gradle", &d), "Gradle cache directory");
    assert_eq!(get_exclusion_reason("bin", &d), ".NET build directory");
    assert_eq!(get_exclusion_reason("vendor", &d), "Dependencies directory");
    assert_eq!(get_exclusion_reason("assets", &d), "Static assets directory");
    assert_eq!(get_exclusion_reason("asset", &d), "Static assets directory");
    assert_eq!(get_exclusion_reason("public", &d), "Static assets directory");
    assert_eq!(get_exclusion_reason("node_modules", &d), "Unknown exclusion reason");
    assert_eq!(get_exclusion_reason("src", &d), "Unknown exclusion reason");
}

#[test]
fn node_modules_reason_once_detected() {
    let mut root = RootFacts::new();
    root.package_json = Manifest::Text("{}".to_string());
    let mut d = ProjectDetector::new();
    d.detect_project_types(&root);
    assert_eq!(get_exclusion_reason("node_modules", &d), "Node.js dependencies");
}

#[test]
fn project_info_without_a_project_type() {
    let d = ProjectDetector::new();
    assert_eq!(
        d.format_project_info(),
        "No specific project type detected\n\nNo specific frameworks detected\n"
    );
}

#[test]
fn project_info_for_a_rust_project() {
    let mut root = RootFacts::new();
    root.cargo_toml = true;
    let mut d = ProjectDetector::new();
    d.detect_project_types(&root);
    d.add_excluded_directory("/p/target", 2048, 2, "Rust/Java build directory");
    let expected = "Detected Project Types: Rust\n\
Auto-excluded build directories: target, assets, asset, public, bin\n\n\
No specific frameworks detected\n\
\nExcluded Content Analysis:\n\
==========================\n\
Total excluded content size: 2.0 KB\n\n\
Top 10 Largest Excluded Directories:\n\
\x20 1. /p/target - 2.0 KB (2 files) - Reason: Rust/Java build directory\n\
\n";
    assert_eq!(d.format_project_info(), expected);
}

#[test]
fn project_info_lists_types_and_frameworks() {
    let mut root = RootFacts::new();
    root.package_json = Manifest::Text("\"express\": \"4.18.2\"".to_string());
    root.go_mod = true;
    let mut d = ProjectDetector::new();
    d.detect_project_types(&root);
    let expected = "Detected Project Types: JavaScript/Node.js, Go\n\
Auto-excluded build directories: node_modules, dist, build, vendor, assets, asset, public, bin\n\n\
Detected Frameworks:\n\
\x20 Backend Frameworks:\n\
\x20   - Express.js (v4.18.2)\n";
    assert_eq!(d.format_project_info(), expected);
}

#[test]
fn project_type_labels() {
    assert_eq!(ProjectType::Rust.name(), "Rust");
    assert_eq!(ProjectType::JavaScriptNode.name(), "JavaScript/Node.js");
    assert_eq!(ProjectType::Python.name(), "Python");
    assert_eq!(ProjectType::JavaMaven.name(), "Java/Maven");
    assert_eq!(ProjectType::JavaGradle.name(), "Java/Gradle");
    assert_eq!(ProjectType::DotNet.name(), ".NET");
    assert_eq!(ProjectType::Go.name(), "Go");
    assert_eq!(ProjectType::Ruby.name(), "Ruby");
    assert_eq!(ProjectType::Php.name(), "PHP");
}
