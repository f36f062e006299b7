use codetree::framework::{
    extract_version, scan_for_version, version_from_capture, Category, Framework,
    FrameworkDetection,
};
use codetree::snapshot::{Manifest, ProjectFile, RootFacts};
use codetree::text::chars_of;

fn entries(d: &FrameworkDetection) -> Vec<(Framework, String)> {
    (0..d.len()).map(|i| (d.framework_at(i), d.version_at(i).to_string())).collect()
}

#[test]
fn react_version_is_detected() {
    let mut d = FrameworkDetection::new();
    let json = "{\n  \"dependencies\": {\n    \"react\": \"18.2.0\"\n  }\n}\n";
    d.detect_js_frameworks(&RootFacts::new(), json);
    assert_eq!(entries(&d), vec![(Framework::React, "18.2.0".to_string())]);
    assert_eq!(d.version_of(Framework::React), Some("18.2.0".to_string()));
    assert_eq!(d.version_of(Framework::Vue), None);
}

#[test]
fn pattern_allows_blanks_around_the_colon() {
    assert_eq!(extract_version("\"vue\"  :\t\"^3.4.1\"", "vue"), Some("^3.4.1".to_string()));
    assert_eq!(extract_version("\"vue\":\"3\"", "vue"), Some("3".to_string()));
    assert_eq!(
        extract_version("{\"@angular/core\": \"~17.0.0\", \"x\": \"1\"}", "@angular/core"),
        Some("~17.0.0".to_string())
    );
}

#[test]
fn pattern_takes_the_leftmost_match() {
    let json = "\"jest\": \"29.0.0\", \"jest\": \"1.0.0\"";
    assert_eq!(extract_version(json, "jest"), Some("29.0.0".to_string()));
}

#[test]
fn value_that_is_no_string_gives_no_version() {
    // The pattern finds nothing, and the scan finds no quote behind the
    // colon.
    assert_eq!(extract_version("\"next\": 14", "next"), None);
    assert_eq!(extract_version("\"next\":\"\"", "next"), None);
    assert_eq!(extract_version("\"jest\": { \"verbose\": \"yes\" }", "jest"), None);
    assert_eq!(extract_version("\"next\": 14, \"other\": \"1\"", "next"), None);
    assert_eq!(extract_version("\"next\" 14", "next"), None);
    assert_eq!(extract_version("\"next\":", "next"), None);
    assert_eq!(extract_version("\"next\": \"13", "next"), None);
    assert_eq!(extract_version("", "next"), None);
}

#[test]
fn value_that_is_no_string_is_recorded_as_unknown() {
    let mut d = FrameworkDetection::new();
    d.detect_js_frameworks(
        &RootFacts::new(),
        "{ \"next\": 14, \"jest\": { \"verbose\": true }, \"react\": \"18.2.0\" }",
    );
    assert_eq!(
        entries(&d),
        vec![
            (Framework::React, "18.2.0".to_string()),
            (Framework::Next, "?".to_string()),
            (Framework::Jest, "?".to_string()),
        ]
    );
}

#[test]
fn scan_runs_where_the_pattern_does_not_compile() {
    // An unclosed group does not compile; the scan reads the value.
    assert_eq!(extract_version("\"a(\": \"1.0\"", "a("), Some("1.0".to_string()));
    assert_eq!(extract_version("{\"a(\":\t\n \"^2.3\", \"b\": \"9\"}", "a("), Some("^2.3".to_string()));
    assert_eq!(extract_version("\"a(\": 1.0", "a("), None);
    assert_eq!(extract_version("\"a(\" : \"1.0\"", "a("), None);
    assert_eq!(extract_version("nothing here", "a("), None);
}

#[test]
fn manual_scan_on_its_own() {
    let json = chars_of("{ \"dep\": \"1.2.3\", \"other\": 1, \"tight\":\"4\", \"far\":\u{a0}\r\n\"5.0\" }");
    assert_eq!(scan_for_version(&json, "dep"), Some("1.2.3".to_string()));
    assert_eq!(scan_for_version(&json, "other"), None);
    assert_eq!(scan_for_version(&json, "tight"), Some("4".to_string()));
    assert_eq!(scan_for_version(&json, "far"), Some("5.0".to_string()));
    assert_eq!(scan_for_version(&json, "missing"), None);
    assert_eq!(scan_for_version(&chars_of("\"\":"), ""), None);
    assert_eq!(scan_for_version(&chars_of("\"\": \"v\""), ""), Some("v".to_string()));
    assert_eq!(scan_for_version(&chars_of("\"a\": \"\""), "a"), None);
    assert_eq!(scan_for_version(&chars_of("\"a\": \"open"), "a"), None);
    // Only the first place where the name stands is looked at.
    assert_eq!(scan_for_version(&chars_of("\"a\": 1, \"a\": \"2\""), "a"), None);
}

#[test]
fn capture_outcomes_are_settled() {
    let json = "\"dep\": \"7.1\"";
    assert_eq!(
        version_from_capture(Some(Some("9.9".to_string())), json, "dep"),
        Some("9.9".to_string())
    );
    assert_eq!(version_from_capture(Some(None), json, "dep"), Some("7.1".to_string()));
    assert_eq!(version_from_capture(None, json, "dep"), Some("7.1".to_string()));
    assert_eq!(version_from_capture(Some(None), "\"dep\": 7", "dep"), None);
    assert_eq!(version_from_capture(None, "\"dep\": 7", "dep"), None);
    assert_eq!(version_from_capture(None, "", "dep"), None);
}

#[test]
fn all_js_frameworks_in_order() {
    let json = r#"{
  "cypress": "13", "jest": "29", "mobx": "6", "redux": "5", "fastify": "4",
  "@nestjs/core": "10", "express": "4.18", "@chakra-ui/react": "2", "bootstrap": "5",
  "@material-ui/core": "4", "tailwindcss": "3", "svelte": "4", "three": "0.160",
  "next": "14", "@angular/core": "17", "vue": "3", "react": "18"
}"#;
    let mut d = FrameworkDetection::new();
    d.detect_js_frameworks(&RootFacts::new(), json);
    let expected = vec![
        (Framework::React, "18"),
        (Framework::Vue, "3"),
        (Framework::Angular, "17"),
        (Framework::Next, "14"),
        (Framework::Three, "0.160"),
        (Framework::Svelte, "4"),
        (Framework::TailwindCss, "3"),
        (Framework::MaterialUi, "4"),
        (Framework::Bootstrap, "5"),
        (Framework::ChakraUi, "2"),
        (Framework::Express, "4.18"),
        (Framework::NestJs, "10"),
        (Framework::Fastify, "4"),
        (Framework::Redux, "5"),
        (Framework::MobX, "6"),
        (Framework::Jest, "29"),
        (Framework::Cypress, "13"),
    ];
    let got = entries(&d);
    assert_eq!(got.len(), expected.len());
    for (g, e) in got.iter().zip(expected.iter()) {
        assert_eq!(g.0, e.0);
        assert_eq!(g.1, e.1);
    }
}

#[test]
fn material_ui_prefers_the_new_package() {
    let mut d = FrameworkDetection::new();
    d.detect_js_frameworks(
        &RootFacts::new(),
        "\"@material-ui/core\": \"4.12\", \"@mui/material\": \"5.15\"",
    );
    assert_eq!(d.version_of(Framework::MaterialUi), Some("5.15".to_string()));
}

#[test]
fn quoted_name_is_required() {
    let mut d = FrameworkDetection::new();
    d.detect_js_frameworks(&RootFacts::new(), "react: 18, vue");
    assert!(d.is_empty());
}

#[test]
fn quoted_name_without_a_version_gives_a_question_mark() {
    let mut d = FrameworkDetection::new();
    d.detect_js_frameworks(&RootFacts::new(), "[\"react\", \"vue\"]");
    assert_eq!(
        entries(&d),
        vec![(Framework::React, "?".to_string()), (Framework::Vue, "?".to_string())]
    );
}

#[test]
fn detecting_again_keeps_the_place_and_takes_the_new_version() {
    let mut d = FrameworkDetection::new();
    d.insert(Framework::Vue, "1".to_string());
    d.insert(Framework::React, "2".to_string());
    d.insert(Framework::Vue, "3".to_string());
    assert_eq!(
        entries(&d),
        vec![(Framework::Vue, "3".to_string()), (Framework::React, "2".to_string())]
    );
}

#[test]
fn python_frameworks_from_requirements() {
    let mut root = RootFacts::new();
    root.requirements_txt = Manifest::Text("flask==2.0\npytest\nsqlalchemy>=2\n".to_string());
    let mut d = FrameworkDetection::new();
    d.detect_python_frameworks(&root);
    assert_eq!(
        entries(&d),
        vec![
            (Framework::Flask, "?".to_string()),
            (Framework::SqlAlchemy, "?".to_string()),
            (Framework::Pytest, "?".to_string()),
        ]
    );
}

#[test]
fn python_names_are_case_sensitive() {
    let mut root = RootFacts::new();
    root.requirements_txt = Manifest::Text("Django==4.2\nFlask\n".to_string());
    let mut d = FrameworkDetection::new();
    d.detect_python_frameworks(&root);
    assert!(d.is_empty());
}

#[test]
fn django_by_layout() {
    let mut root = RootFacts::new();
    root.manage_py = true;
    let mut d = FrameworkDetection::new();
    d.detect_python_frameworks(&root);
    assert!(d.is_empty());
    root.nested_settings_py = true;
    d.detect_python_frameworks(&root);
    assert_eq!(entries(&d), vec![(Framework::Django, "?".to_string())]);

    let mut root = RootFacts::new();
    root.settings_py = true;
    let mut d = FrameworkDetection::new();
    d.detect_python_frameworks(&root);
    assert!(d.is_empty());
    root.manage_py = true;
    d.detect_python_frameworks(&root);
    assert_eq!(entries(&d), vec![(Framework::Django, "?".to_string())]);
}

#[test]
fn unreadable_requirements_give_nothing() {
    let mut root = RootFacts::new();
    root.requirements_txt = Manifest::Unreadable;
    let mut d = FrameworkDetection::new();
    d.detect_python_frameworks(&root);
    assert!(d.is_empty());
}

#[test]
fn rails_by_routes_file() {
    let mut root = RootFacts::new();
    let mut d = FrameworkDetection::new();
    d.detect_ruby_frameworks(&root);
    assert!(d.is_empty());
    root.routes_rb = true;
    d.detect_ruby_frameworks(&root);
    assert_eq!(entries(&d), vec![(Framework::RubyOnRails, "?".to_string())]);
}

#[test]
fn php_frameworks_by_marker_files() {
    let mut root = RootFacts::new();
    root.bin_console = true;
    root.config_dir = true;
    let mut d = FrameworkDetection::new();
    d.detect_php_frameworks(&root);
    assert!(d.is_empty());
    root.kernel_php = true;
    root.artisan = true;
    d.detect_php_frameworks(&root);
    assert_eq!(
        entries(&d),
        vec![(Framework::Laravel, "?".to_string()), (Framework::Symfony, "?".to_string())]
    );
}

#[test]
fn java_frameworks_from_pom() {
    let root = RootFacts::new();
    let mut d = FrameworkDetection::new();
    d.detect_java_frameworks(&root, None);
    assert!(d.is_empty());
    d.detect_java_frameworks(&root, Some("<artifactId>hibernate-core</artifactId>"));
    assert_eq!(entries(&d), vec![(Framework::Hibernate, "?".to_string())]);
    d.detect_java_frameworks(&root, Some("spring-boot-starter hibernate"));
    assert_eq!(
        entries(&d),
        vec![(Framework::Hibernate, "?".to_string()), (Framework::SpringBoot, "?".to_string())]
    );
}

#[test]
fn aspnet_from_a_project_file() {
    let mut root = RootFacts::new();
    root.project_files = vec![
        ProjectFile { name: "notes.txt".to_string(), content: Some("Microsoft.AspNetCore".to_string()) },
        ProjectFile { name: "a.csproj".to_string(), content: None },
        ProjectFile { name: "b.fsproj".to_string(), content: Some("Microsoft.AspNetCore".to_string()) },
        ProjectFile { name: "c.CSPROJ".to_string(), content: Some("Microsoft.AspNetCore".to_string()) },
    ];
    let mut d = FrameworkDetection::new();
    d.detect_dotnet_frameworks(&root);
    assert!(d.is_empty());
    root.project_files.push(ProjectFile {
        name: "web.csproj".to_string(),
        content: Some("<PackageReference Include=\"Microsoft.AspNetCore.App\" />".to_string()),
    });
    d.detect_dotnet_frameworks(&root);
    assert_eq!(entries(&d), vec![(Framework::AspNetCore, "?".to_string())]);
}

#[test]
fn listing_without_frameworks() {
    assert_eq!(FrameworkDetection::new().format_frameworks(), "No specific frameworks detected\n");
}

#[test]
fn listing_by_group() {
    let mut d = FrameworkDetection::new();
    d.insert(Framework::Jest, "29".to_string());
    d.insert(Framework::Express, "4".to_string());
    d.insert(Framework::React, "18.2.0".to_string());
    d.insert(Framework::Redux, "?".to_string());
    d.insert(Framework::Vue, "3".to_string());
    let expected = "Detected Frameworks:\n\
\x20 Frontend Frameworks:\n\
\x20   - React (v18.2.0)\n\
\x20   - Vue.js (v3)\n\
\x20 Backend Frameworks:\n\
\x20   - Express.js (v4)\n\
\x20 Testing Frameworks:\n\
\x20   - Jest (v29)\n\
\x20 Other Frameworks:\n\
\x20   - Redux (v?)\n";
    assert_eq!(d.format_frameworks(), expected);
}

#[test]
fn listing_leaves_empty_groups_out() {
    let mut d = FrameworkDetection::new();
    d.insert(Framework::Pytest, "?".to_string());
    assert_eq!(
        d.format_frameworks(),
        "Detected Frameworks:\n  Testing Frameworks:\n    - Pytest (v?)\n"
    );
}

#[test]
fn names_and_groups() {
    let all = [
        (Framework::React, "React", Category::Frontend),
        (Framework::Vue, "Vue.js", Category::Frontend),
        (Framework::Angular, "Angular", Category::Frontend),
        (Framework::Next, "Next.js", Category::Frontend),
        (Framework::Three, "Three.js", Category::Frontend),
        (Framework::Svelte, "Svelte", Category::Frontend),
        (Framework::TailwindCss, "Tailwind CSS", Category::Frontend),
        (Framework::MaterialUi, "Material UI", Category::Frontend),
        (Framework::Bootstrap, "Bootstrap", Category::Frontend),
        (Framework::ChakraUi, "Chakra UI", Category::Frontend),
        (Framework::Express, "Express.js", Category::Backend),
        (Framework::NestJs, "NestJS", Category::Backend),
        (Framework::Fastify, "Fastify", Category::Backend),
        (Framework::Redux, "Redux", Category::Other),
        (Framework::MobX, "MobX", Category::Other),
        (Framework::Jest, "Jest", Category::Testing),
        (Framework::Cypress, "Cypress", Category::Testing),
        (Framework::Django, "Django", Category::Backend),
        (Framework::Flask, "Flask", Category::Backend),
        (Framework::FastApi, "FastAPI", Category::Backend),
        (Framework::SqlAlchemy, "SQLAlchemy", Category::Other),
        (Framework::Pytest, "Pytest", Category::Testing),
        (Framework::RubyOnRails, "Ruby on Rails", Category::Backend),
        (Framework::Laravel, "Laravel", Category::Backend),
        (Framework::Symfony, "Symfony", Category::Backend),
        (Framework::SpringBoot, "Spring Boot", Category::Backend),
        (Framework::Hibernate, "Hibernate", Category::Other),
        (Framework::AspNetCore, "ASP.NET Core", Category::Backend),
    ];
    for (fw, name, cat) in all {
        assert_eq!(fw.name(), name);
        assert_eq!(fw.category(), cat);
    }
    assert_eq!(Category::Frontend.name(), "Frontend");
    assert_eq!(Category::Backend.name(), "Backend");
    assert_eq!(Category::Testing.name(), "Testing");
    assert_eq!(Category::Other.name(), "Other");
}
