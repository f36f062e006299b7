//! Project-type detection and the exclusion rules that follow from it.

use vstd::prelude::*;
use crate::exclusion::{
    base_excluded_dir, excluded_text, is_base_excluded_dir, ExcludedDirectoryRecord, ExcludedStats,
    ExcludedFileRecord,
};
use crate::framework::{
    dotnet_detected, frameworks_text, java_detected, js_detected, php_detected, python_detected,
    ruby_detected, Framework, FrameworkDetection,
};
use crate::snapshot::{Manifest, RootFacts};
use crate::text::{chars_of, extension, extension_of, is_text, owned, push_text};

verus! {

/// A kind of project, told by a marker file at the root.
#[derive(Clone, Copy, PartialEq, Eq, Structural, Debug)]
pub enum ProjectType {
    Rust,
    JavaScriptNode,
    Python,
    JavaMaven,
    JavaGradle,
    DotNet,
    Go,
    Ruby,
    Php,
}

impl ProjectType {
    /// The label under which the project type is shown.
    pub open spec fn label(self) -> Seq<char> {
        match self {
            ProjectType::Rust => "Rust"@,
            ProjectType::JavaScriptNode => "JavaScript/Node.js"@,
            ProjectType::Python => "Python"@,
            ProjectType::JavaMaven => "Java/Maven"@,
            ProjectType::JavaGradle => "Java/Gradle"@,
            ProjectType::DotNet => ".NET"@,
            ProjectType::Go => "Go"@,
            ProjectType::Ruby => "Ruby"@,
            ProjectType::Php => "PHP"@,
        }
    }

    /// The label under which the project type is shown.
    pub fn name(self) -> (r: &'static str)
        ensures
            r@ == self.label(),
    {
        match self {
            ProjectType::Rust => "Rust",
            ProjectType::JavaScriptNode => "JavaScript/Node.js",
            ProjectType::Python => "Python",
            ProjectType::JavaMaven => "Java/Maven",
            ProjectType::JavaGradle => "Java/Gradle",
            ProjectType::DotNet => ".NET",
            ProjectType::Go => "Go",
            ProjectType::Ruby => "Ruby",
            ProjectType::Php => "PHP",
        }
    }
}

/// The sequence with `x` in it: unchanged where `x` is already there, else
/// with `x` at the end.
pub open spec fn with<T>(s: Seq<T>, x: T) -> Seq<T> {
    if s.contains(x) {
        s
    } else {
        s.push(x)
    }
}

/// The sequence with `x` in it where `cond` holds, else unchanged.
pub open spec fn with_if<T>(cond: bool, s: Seq<T>, x: T) -> Seq<T> {
    if cond {
        with(s, x)
    } else {
        s
    }
}

/// Whether a file of this name is a .NET project file.
pub open spec fn dotnet_project_name(name: Seq<char>) -> bool {
    extension(name) == Some("csproj"@) || extension(name) == Some("fsproj"@)
}

/// Whether the root could be listed and holds a .NET project file.
pub open spec fn has_dotnet_project(root: RootFacts) -> bool {
    match root.root_entries {
        Some(names) => exists|i: int|
            0 <= i < names@.len() && dotnet_project_name(#[trigger] names@[i]@),
        None => false,
    }
}

/// Whether the root is that of a Python project.
pub open spec fn python_root(root: RootFacts) -> bool {
    root.setup_py || root.requirements_txt.present() || root.pyproject_toml
}

/// The project types after detection at `root`.
pub open spec fn types_detected(t: Seq<ProjectType>, root: RootFacts) -> Seq<ProjectType> {
    let t = with_if(root.cargo_toml, t, ProjectType::Rust);
    let t = with_if(root.package_json.present(), t, ProjectType::JavaScriptNode);
    let t = with_if(python_root(root), t, ProjectType::Python);
    let t = with_if(root.pom_xml.present(), t, ProjectType::JavaMaven);
    let t = with_if(root.build_gradle || root.build_gradle_kts, t, ProjectType::JavaGradle);
    let t = with_if(has_dotnet_project(root), t, ProjectType::DotNet);
    let t = with_if(root.go_mod, t, ProjectType::Go);
    let t = with_if(root.gemfile, t, ProjectType::Ruby);
    with_if(root.composer_json, t, ProjectType::Php)
}

/// The excluded directory names after detection at `root`: each detected
/// project type adds the names of its build and cache directories, and the
/// commonly ignored names are added in every case.
pub open spec fn dirs_detected(d: Seq<Seq<char>>, root: RootFacts) -> Seq<Seq<char>> {
    let d = with_if(root.cargo_toml, d, "target"@);
    let js = root.package_json.present();
    let d = with_if(js, d, "node_modules"@);
    let d = with_if(js, d, "dist"@);
    let d = with_if(js, d, "build"@);
    let py = python_root(root);
    let d = with_if(py, d, "__pycache__"@);
    let d = with_if(py, d, ".pytest_cache"@);
    let d = with_if(py, d, "venv"@);
    let d = with_if(py, d, "dist"@);
    let d = with_if(py, d, "build"@);
    let d = with_if(root.pom_xml.present(), d, "target"@);
    let gradle = root.build_gradle || root.build_gradle_kts;
    let d = with_if(gradle, d, "build"@);
    let d = with_if(gradle, d, ".gradle"@);
    let net = has_dotnet_project(root);
    let d = with_if(net, d, "bin"@);
    let d = with_if(net, d, "obj"@);
    let d = with_if(root.go_mod, d, "vendor"@);
    let d = with_if(root.composer_json, d, "vendor"@);
    let d = with(d, "assets"@);
    let d = with(d, "asset"@);
    let d = with(d, "public"@);
    with(d, "bin"@)
}

/// The framework record after detection at `root`: each detected project
/// type runs the detection of its ecosystem.
pub open spec fn frameworks_detected(f: Seq<(Framework, Seq<char>)>, root: RootFacts) -> Seq<
    (Framework, Seq<char>),
> {
    let f = match root.package_json.text() {
        Some(json) => js_detected(f, json),
        None => f,
    };
    let f = if python_root(root) {
        python_detected(f, root)
    } else {
        f
    };
    let f = match root.pom_xml.text() {
        Some(pom) => java_detected(f, Some(pom)),
        None => f,
    };
    let f = if has_dotnet_project(root) {
        dotnet_detected(f, root)
    } else {
        f
    };
    let f = if root.gemfile {
        ruby_detected(f, root)
    } else {
        f
    };
    if root.composer_json {
        php_detected(f, root)
    } else {
        f
    }
}

/// The ten directory names that every run excludes, in their fixed order.
pub open spec fn base_dirs() -> Seq<Seq<char>> {
    seq![
        ".idea"@,
        ".git"@,
        ".github"@,
        ".gitlab"@,
        ".vscode"@,
        ".venv"@,
        "cache"@,
        "fonts"@,
        "obj"@,
        "out"@,
    ]
}

/// Why a directory of this name is excluded under the rules `dirs`.
pub open spec fn dir_exclusion_reason(name: Seq<char>, dirs: Seq<Seq<char>>) -> Seq<char> {
    if base_excluded_dir(name) {
        "Base excluded directory"@
    } else if dirs.contains(name) {
        if name == "target"@ {
            "Rust/Java build directory"@
        } else if name == "node_modules"@ {
            "Node.js dependencies"@
        } else if name == "dist"@ || name == "build"@ {
            "Build output directory"@
        } else if name == "__pycache__"@ {
            "Python cache directory"@
        } else if name == ".pytest_cache"@ {
            "Pytest cache directory"@
        } else if name == "venv"@ {
            "Python virtual environment"@
        } else if name == ".gradle"@ {
            "Gradle cache directory"@
        } else if name == "bin"@ || name == "obj"@ {
            ".NET build directory"@
        } else if name == "vendor"@ {
            "Dependencies directory"@
        } else if name == "assets"@ || name == "asset"@ || name == "public"@ {
            "Static assets directory"@
        } else {
            "Project-specific excluded directory"@
        }
    } else {
        "Unknown exclusion reason"@
    }
}

/// The labels of the project types, separated by a comma and a blank.
pub open spec fn types_text(t: Seq<ProjectType>) -> Seq<char>
    decreases t.len(),
{
    if t.len() == 0 {
        Seq::empty()
    } else if t.len() == 1 {
        t[0].label()
    } else {
        types_text(t.drop_last()) + ", "@ + t.last().label()
    }
}

/// The excluded directory names that detection added, in their order.
pub open spec fn added_dirs(d: Seq<Seq<char>>) -> Seq<Seq<char>>
    decreases d.len(),
{
    if d.len() == 0 {
        Seq::empty()
    } else if base_excluded_dir(d.last()) {
        added_dirs(d.drop_last())
    } else {
        added_dirs(d.drop_last()).push(d.last())
    }
}

/// The names, separated by a comma and a blank.
pub open spec fn names_text(names: Seq<Seq<char>>) -> Seq<char>
    decreases names.len(),
{
    if names.len() == 0 {
        Seq::empty()
    } else if names.len() == 1 {
        names[0]
    } else {
        names_text(names.drop_last()) + ", "@ + names.last()
    }
}

/// The heading of the project summary: the detected project types and the
/// directories excluded for them, or a note that nothing was detected.
pub open spec fn heading_text(types: Seq<ProjectType>, dirs: Seq<Seq<char>>) -> Seq<char> {
    if types.len() == 0 {
        "No specific project type detected\n\n"@
    } else {
        "Detected Project Types: "@ + types_text(types) + "\n"@
            + "Auto-excluded build directories: "@ + names_text(added_dirs(dirs)) + "\n\n"@
    }
}

/// Project types and the exclusion rules resolved for them, with the
/// framework record and the report of what was excluded.
pub struct ProjectDetector {
    excluded_dirs: Vec<String>,
    project_types: Vec<ProjectType>,
    framework_detection: FrameworkDetection,
    excluded_stats: ExcludedStats,
}

impl ProjectDetector {
    /// The excluded directory names, in the order in which they were added.
    pub closed spec fn dirs(&self) -> Seq<Seq<char>> {
        self.excluded_dirs@.map_values(|s: String| s@)
    }

    /// The detected project types, in the order of detection.
    pub closed spec fn types(&self) -> Seq<ProjectType> {
        self.project_types@
    }

    /// The record of detected frameworks.
    pub closed spec fn frameworks(&self) -> FrameworkDetection {
        self.framework_detection
    }

    /// The report of what the walk left out.
    pub closed spec fn report(&self) -> ExcludedStats {
        self.excluded_stats
    }

    /// Whether a directory of this name is excluded.
    pub open spec fn excludes(&self, name: Seq<char>) -> bool {
        self.dirs().contains(name)
    }

    /// The rules hold every base exclusion, and the parts are well formed.
    pub open spec fn wf(&self) -> bool {
        &&& forall|name: Seq<char>| base_excluded_dir(name) ==> self.excludes(name)
        &&& self.frameworks().wf()
        &&& self.report().wf()
    }

    /// Adds a directory name to the exclusions.
    fn exclude(&mut self, name: &str)
        ensures
            final(self).dirs() == with(old(self).dirs(), name@),
            final(self).types() == old(self).types(),
            final(self).frameworks() == old(self).frameworks(),
            final(self).report() == old(self).report(),
    {
        if !self.is_excluded_dir(name) {
            self.excluded_dirs.push(owned(name));
            assert(self.dirs() == old(self).dirs().push(name@));
        }
    }

    /// Adds a project type to the detected ones.
    fn add_type(&mut self, t: ProjectType)
        ensures
            final(self).types() == with(old(self).types(), t),
            final(self).dirs() == old(self).dirs(),
            final(self).frameworks() == old(self).frameworks(),
            final(self).report() == old(self).report(),
    {
        let mut i: usize = 0;
        while i < self.project_types.len()
            invariant
                i <= self.project_types.len(),
                *self == *old(self),
                forall|j: int| 0 <= j < i ==> self.project_types@[j] != t,
            decreases self.project_types.len() - i,
        {
            if self.project_types[i] == t {
                return;
            }
            i += 1;
        }
        self.project_types.push(t);
    }

    /// A detector with the base exclusions and nothing detected.
    pub fn new() -> (r: Self)
        ensures
            r.wf(),
            r.dirs() == base_dirs(),
            r.types() == Seq::<ProjectType>::empty(),
            r.frameworks()@.len() == 0,
            r.report().total() == 0,
            r.report().directories().len() == 0,
            r.report().files().len() == 0,
    {
        let mut excluded_dirs: Vec<String> = Vec::new();
        excluded_dirs.push(owned(".idea"));
        excluded_dirs.push(owned(".git"));
        excluded_dirs.push(owned(".github"));
        excluded_dirs.push(owned(".gitlab"));
        excluded_dirs.push(owned(".vscode"));
        excluded_dirs.push(owned(".venv"));
        excluded_dirs.push(owned("cache"));
        excluded_dirs.push(owned("fonts"));
        excluded_dirs.push(owned("obj"));
        excluded_dirs.push(owned("out"));
        let r = ProjectDetector {
            excluded_dirs,
            project_types: Vec::new(),
            framework_detection: FrameworkDetection::new(),
            excluded_stats: ExcludedStats::new(),
        };
        assert(r.dirs() == base_dirs());
        proof {
            base_dirs_hold_base();
        }
        r
    }

    /// The detected project types, in the order of detection.
    pub fn project_types(&self) -> (r: &Vec<ProjectType>)
        ensures
            r@ == self.types(),
    {
        &self.project_types
    }

    /// The excluded directory names, in the order in which they were added.
    pub fn excluded_dirs(&self) -> (r: &Vec<String>)
        ensures
            r@.map_values(|s: String| s@) == self.dirs(),
    {
        &self.excluded_dirs
    }

    /// The record of detected frameworks.
    pub fn framework_detection(&self) -> (r: &FrameworkDetection)
        ensures
            *r == self.frameworks(),
    {
        &self.framework_detection
    }

    /// The report of what the walk left out.
    pub fn excluded_stats(&self) -> (r: &ExcludedStats)
        ensures
            *r == self.report(),
    {
        &self.excluded_stats
    }

    /// Records an excluded directory in the report.
    pub fn add_excluded_directory(&mut self, path: &str, size: u64, file_count: usize, reason: &str)
        requires
            old(self).wf(),
            old(self).report().total() + size <= u64::MAX,
        ensures
            final(self).wf(),
            final(self).dirs() == old(self).dirs(),
            final(self).types() == old(self).types(),
            final(self).frameworks() == old(self).frameworks(),
            final(self).report().total() == old(self).report().total() + size,
            final(self).report().files() == old(self).report().files(),
            final(self).report().directories() == old(self).report().directories().push(
                (ExcludedDirectoryRecord {
                    path: path@,
                    size: size as nat,
                    file_count: file_count as nat,
                    reason: reason@,
                }),
            ),
    {
        self.excluded_stats.add_excluded_directory(path, size, file_count, reason);
    }

    /// Records an excluded file in the report.
    pub fn add_excluded_file(&mut self, path: &str, size: u64, reason: &str)
        requires
            old(self).wf(),
            old(self).report().total() + size <= u64::MAX,
        ensures
            final(self).wf(),
            final(self).dirs() == old(self).dirs(),
            final(self).types() == old(self).types(),
            final(self).frameworks() == old(self).frameworks(),
            final(self).report().total() == old(self).report().total() + size,
            final(self).report().directories() == old(self).report().directories(),
            final(self).report().files() == old(self).report().files().push(
                (ExcludedFileRecord { path: path@, size: size as nat, reason: reason@ }),
            ),
    {
        self.excluded_stats.add_excluded_file(path, size, reason);
    }

    /// The summary of the project for reading: the detected project types
    /// and the directories excluded for them, the detected frameworks, and
    /// the report on excluded content.
    pub fn format_project_info(&self) -> (r: String)
        ensures
            r@ == heading_text(self.types(), self.dirs()) + frameworks_text(self.frameworks()@)
                + excluded_text(
                self.report().total(),
                self.report().directories(),
                self.report().files(),
            ),
    {
        let mut out = String::new();
        if self.project_types.len() > 0 {
            push_text(&mut out, "Detected Project Types: ");
            let ghost start = out@;
            let mut i: usize = 0;
            assert(self.types().take(0) == Seq::<ProjectType>::empty());
            while i < self.project_types.len()
                invariant
                    i <= self.project_types.len(),
                    out@ == start + types_text(self.types().take(i as int)),
                decreases self.project_types.len() - i,
            {
                assert(self.types().take(i + 1).drop_last() == self.types().take(i as int));
                assert(self.types().take(i + 1).last() == self.types()[i as int]);
                if i > 0 {
                    push_text(&mut out, ", ");
                }
                push_text(&mut out, self.project_types[i].name());
                i += 1;
                assert(out@ =~= start + types_text(self.types().take(i as int)));
            }
            assert(self.types().take(self.types().len() as int) == self.types());
            push_text(&mut out, "\n");
            push_text(&mut out, "Auto-excluded build directories: ");
            let ghost start = out@;
            let mut shown: usize = 0;
            let mut j: usize = 0;
            assert(self.dirs().take(0) == Seq::<Seq<char>>::empty());
            while j < self.excluded_dirs.len()
                invariant
                    j <= self.excluded_dirs.len(),
                    shown == added_dirs(self.dirs().take(j as int)).len(),
                    shown <= j,
                    out@ == start + names_text(added_dirs(self.dirs().take(j as int))),
                decreases self.excluded_dirs.len() - j,
            {
                assert(self.dirs().take(j + 1).drop_last() == self.dirs().take(j as int));
                assert(self.dirs().take(j + 1).last() == self.dirs()[j as int]);
                let name = self.excluded_dirs[j].as_str();
                if !is_base_excluded_dir(name) {
                    let ghost before = added_dirs(self.dirs().take(j as int));
                    assert(before.push(name@).drop_last() == before);
                    if shown > 0 {
                        push_text(&mut out, ", ");
                    }
                    push_text(&mut out, name);
                    shown += 1;
                    assert(out@ =~= start + names_text(before.push(name@)));
                }
                j += 1;
            }
            assert(self.dirs().take(self.dirs().len() as int) == self.dirs());
            push_text(&mut out, "\n\n");
            assert(out@ =~= heading_text(self.types(), self.dirs()));
        } else {
            push_text(&mut out, "No specific project type detected\n\n");
        }
        let frameworks = self.framework_detection.format_frameworks();
        push_text(&mut out, frameworks.as_str());
        let excluded = self.excluded_stats.format_excluded_stats();
        push_text(&mut out, excluded.as_str());
        out
    }

    /// Whether the root could be listed and holds a .NET project file.
    fn finds_dotnet_project(root: &RootFacts) -> (r: bool)
        ensures
            r == has_dotnet_project(*root),
    {
        match &root.root_entries {
            Some(names) => {
                let mut i: usize = 0;
                while i < names.len()
                    invariant
                        i <= names.len(),
                        root.root_entries == Some(*names),
                        forall|j: int| 0 <= j < i ==> !dotnet_project_name(#[trigger] names@[j]@),
                    decreases names.len() - i,
                {
                    let name = chars_of(names[i].as_str());
                    let found = match extension_of(name.as_slice()) {
                        Some(ext) => is_text(ext.as_slice(), "csproj") || is_text(
                            ext.as_slice(),
                            "fsproj",
                        ),
                        None => false,
                    };
                    if found {
                        assert(dotnet_project_name(names@[i as int]@));
                        assert(root.root_entries->0 == *names);
                        return true;
                    }
                    i += 1;
                }
                false
            },
            None => false,
        }
    }

    /// Detects the project types at `root`, adds the build and cache
    /// directories of each detected type to the exclusions together with
    /// the commonly ignored names, and runs the framework detection of each
    /// detected ecosystem. The report of excluded content is not touched.
    pub fn detect_project_types(&mut self, root: &RootFacts)
        requires
            old(self).wf(),
        ensures
            final(self).wf(),
            final(self).types() == types_detected(old(self).types(), *root),
            final(self).dirs() == dirs_detected(old(self).dirs(), *root),
            final(self).frameworks()@ == frameworks_detected(old(self).frameworks()@, *root),
            final(self).report() == old(self).report(),
            forall|name: Seq<char>| old(self).excludes(name) ==> final(self).excludes(name),
    {
        if root.cargo_toml {
            self.add_type(ProjectType::Rust);
            self.exclude("target");
        }
        if root.package_json.is_present() {
            self.add_type(ProjectType::JavaScriptNode);
            self.exclude("node_modules");
            self.exclude("dist");
            self.exclude("build");
            if let Manifest::Text(package_json) = &root.package_json {
                self.framework_detection.detect_js_frameworks(root, package_json.as_str());
            }
        }
        if root.setup_py || root.requirements_txt.is_present() || root.pyproject_toml {
            self.add_type(ProjectType::Python);
            self.exclude("__pycache__");
            self.exclude(".pytest_cache");
            self.exclude("venv");
            self.exclude("dist");
            self.exclude("build");
            self.framework_detection.detect_python_frameworks(root);
        }
        if root.pom_xml.is_present() {
            self.add_type(ProjectType::JavaMaven);
            self.exclude("target");
            if let Manifest::Text(pom_xml) = &root.pom_xml {
                self.framework_detection.detect_java_frameworks(root, Some(pom_xml.as_str()));
            }
        }
        if root.build_gradle || root.build_gradle_kts {
            self.add_type(ProjectType::JavaGradle);
            self.exclude("build");
            self.exclude(".gradle");
            self.framework_detection.detect_java_frameworks(root, None);
        }
        if Self::finds_dotnet_project(root) {
            self.add_type(ProjectType::DotNet);
            self.exclude("bin");
            self.exclude("obj");
            self.framework_detection.detect_dotnet_frameworks(root);
        }
        if root.go_mod {
            self.add_type(ProjectType::Go);
            self.exclude("vendor");
        }
        if root.gemfile {
            self.add_type(ProjectType::Ruby);
            self.framework_detection.detect_ruby_frameworks(root);
        }
        if root.composer_json {
            self.add_type(ProjectType::Php);
            self.exclude("vendor");
            self.framework_detection.detect_php_frameworks(root);
        }
        self.exclude("assets");
        self.exclude("asset");
        self.exclude("public");
        self.exclude("bin");
        proof {
            detection_keeps_exclusions(old(self).dirs(), *root);
            assert forall|name: Seq<char>| old(self).excludes(name) implies self.excludes(
                name,
            ) by {
                assert(dirs_detected(old(self).dirs(), *root).contains(name));
            }
        }
    }

    /// Whether a directory of this name is excluded.
    pub fn is_excluded_dir(&self, dir_name: &str) -> (r: bool)
        ensures
            r == self.excludes(dir_name@),
    {
        let name = owned(dir_name);
        let mut i: usize = 0;
        while i < self.excluded_dirs.len()
            invariant
                i <= self.excluded_dirs.len(),
                name@ == dir_name@,
                forall|j: int| 0 <= j < i ==> self.dirs()[j] != dir_name@,
            decreases self.excluded_dirs.len() - i,
        {
            if self.excluded_dirs[i] == name {
                assert(self.dirs()[i as int] == dir_name@);
                return true;
            }
            i += 1;
        }
        false
    }
}

/// Adding a name keeps every name that was there.
pub proof fn with_keeps<T>(s: Seq<T>, x: T)
    ensures
        forall|y: T| s.contains(y) ==> #[trigger] with(s, x).contains(y),
        with(s, x).contains(x),
{
    assert forall|y: T| s.contains(y) implies #[trigger] with(s, x).contains(y) by {
        let i = choose|i: int| 0 <= i < s.len() && s[i] == y;
        assert(with(s, x)[i] == y);
    }
    if !s.contains(x) {
        assert(s.push(x)[s.len() as int] == x);
    }
}

/// Detection only adds to the excluded directory names: every name that was
/// excluded before stays excluded, whatever the root holds.
pub proof fn detection_keeps_exclusions(d: Seq<Seq<char>>, root: RootFacts)
    ensures
        forall|name: Seq<char>|
            d.contains(name) ==> #[trigger] dirs_detected(d, root).contains(name),
{
    let d0 = d;
    let d1 = with_if(root.cargo_toml, d0, "target"@);
    with_keeps(d0, "target"@);
    let js = root.package_json.present();
    let d2 = with_if(js, d1, "node_modules"@);
    with_keeps(d1, "node_modules"@);
    let d3 = with_if(js, d2, "dist"@);
    with_keeps(d2, "dist"@);
    let d4 = with_if(js, d3, "build"@);
    with_keeps(d3, "build"@);
    let py = python_root(root);
    let d5 = with_if(py, d4, "__pycache__"@);
    with_keeps(d4, "__pycache__"@);
    let d6 = with_if(py, d5, ".pytest_cache"@);
    with_keeps(d5, ".pytest_cache"@);
    let d7 = with_if(py, d6, "venv"@);
    with_keeps(d6, "venv"@);
    let d8 = with_if(py, d7, "dist"@);
    with_keeps(d7, "dist"@);
    let d9 = with_if(py, d8, "build"@);
    with_keeps(d8, "build"@);
    let d10 = with_if(root.pom_xml.present(), d9, "target"@);
    with_keeps(d9, "target"@);
    let gradle = root.build_gradle || root.build_gradle_kts;
    let d11 = with_if(gradle, d10, "build"@);
    with_keeps(d10, "build"@);
    let d12 = with_if(gradle, d11, ".gradle"@);
    with_keeps(d11, ".gradle"@);
    let net = has_dotnet_project(root);
    let d13 = with_if(net, d12, "bin"@);
    with_keeps(d12, "bin"@);
    let d14 = with_if(net, d13, "obj"@);
    with_keeps(d13, "obj"@);
    let d15 = with_if(root.go_mod, d14, "vendor"@);
    with_keeps(d14, "vendor"@);
    let d16 = with_if(root.composer_json, d15, "vendor"@);
    with_keeps(d15, "vendor"@);
    let d17 = with(d16, "assets"@);
    with_keeps(d16, "assets"@);
    let d18 = with(d17, "asset"@);
    with_keeps(d17, "asset"@);
    let d19 = with(d18, "public"@);
    with_keeps(d18, "public"@);
    let d20 = with(d19, "bin"@);
    with_keeps(d19, "bin"@);
    assert(d20 == dirs_detected(d, root));
    assert forall|name: Seq<char>| d.contains(name) implies #[trigger] dirs_detected(
        d,
        root,
    ).contains(name) by {
        assert(d1.contains(name));
        assert(d2.contains(name));
        assert(d3.contains(name));
        assert(d4.contains(name));
        assert(d5.contains(name));
        assert(d6.contains(name));
        assert(d7.contains(name));
        assert(d8.contains(name));
        assert(d9.contains(name));
        assert(d10.contains(name));
        assert(d11.contains(name));
        assert(d12.contains(name));
        assert(d13.contains(name));
        assert(d14.contains(name));
        assert(d15.contains(name));
        assert(d16.contains(name));
        assert(d17.contains(name));
        assert(d18.contains(name));
        assert(d19.contains(name));
        assert(d20.contains(name));
    }
}

/// Every base exclusion stands in the list of base directories.
pub proof fn base_dirs_hold_base()
    ensures
        forall|name: Seq<char>| base_excluded_dir(name) <==> base_dirs().contains(name),
{
    let b = base_dirs();
    assert forall|name: Seq<char>| base_excluded_dir(name) implies b.contains(name) by {
        if name == ".idea"@ {
            assert(b[0] == name);
        } else if name == ".git"@ {
            assert(b[1] == name);
        } else if name == ".github"@ {
            assert(b[2] == name);
        } else if name == ".gitlab"@ {
            assert(b[3] == name);
        } else if name == ".vscode"@ {
            assert(b[4] == name);
        } else if name == ".venv"@ {
            assert(b[5] == name);
        } else if name == "cache"@ {
            assert(b[6] == name);
        } else if name == "fonts"@ {
            assert(b[7] == name);
        } else if name == "obj"@ {
            assert(b[8] == name);
        } else {
            assert(b[9] == name);
        }
    }
}

/// Why a directory of this name is excluded: as a base exclusion, for the
/// project type that brought the name in, or for no known reason where the
/// rules do not hold the name.
pub fn get_exclusion_reason(dir_name: &str, project_detector: &ProjectDetector) -> (r: String)
    ensures
        r@ == dir_exclusion_reason(dir_name@, project_detector.dirs()),
{
    if is_base_excluded_dir(dir_name) {
        owned("Base excluded directory")
    } else if project_detector.is_excluded_dir(dir_name) {
        let chars = chars_of(dir_name);
        let n = chars.as_slice();
        if is_text(n, "target") {
            owned("Rust/Java build directory")
        } else if is_text(n, "node_modules") {
            owned("Node.js dependencies")
        } else if is_text(n, "dist") || is_text(n, "build") {
            owned("Build output directory")
        } else if is_text(n, "__pycache__") {
            owned("Python cache directory")
        } else if is_text(n, ".pytest_cache") {
            owned("Pytest cache directory")
        } else if is_text(n, "venv") {
            owned("Python virtual environment")
        } else if is_text(n, ".gradle") {
            owned("Gradle cache directory")
        } else if is_text(n, "bin") || is_text(n, "obj") {
            owned(".NET build directory")
        } else if is_text(n, "vendor") {
            owned("Dependencies directory")
        } else if is_text(n, "assets") || is_text(n, "asset") || is_text(n, "public") {
            owned("Static assets directory")
        } else {
            owned("Project-specific excluded directory")
        }
    } else {
        owned("Unknown exclusion reason")
    }
}

} // verus!
