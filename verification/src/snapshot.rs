//! What one look at the file system observed, as plain values.
//!
//! The library never touches the disk. Its caller lists directories, reads
//! manifests and file metadata, and hands the findings over in the types of
//! this module; every rule that decides what the findings mean lives in the
//! library.

use vstd::prelude::*;
use crate::size::SizeReading;

verus! {

/// A manifest file at the project root.
pub enum Manifest {
    /// No file of that name exists.
    Absent,
    /// The file exists but could not be read as text.
    Unreadable,
    /// The file exists and holds this text.
    Text(String),
}

impl Manifest {
    /// Whether a file of that name exists.
    pub open spec fn present(self) -> bool {
        !(self is Absent)
    }

    /// The text of the manifest, where it could be read.
    pub open spec fn text(self) -> Option<Seq<char>> {
        match self {
            Manifest::Text(t) => Some(t@),
            _ => None,
        }
    }

    /// Whether a file of that name exists.
    pub fn is_present(&self) -> (r: bool)
        ensures
            r == self.present(),
    {
        match self {
            Manifest::Absent => false,
            _ => true,
        }
    }
}

/// A file found below the project root while looking for project files.
pub struct ProjectFile {
    /// The file's name, without its directory.
    pub name: String,
    /// The file's text, or `None` if it could not be read as text.
    pub content: Option<String>,
}

/// The marker files and manifests found at a project root.
pub struct RootFacts {
    /// `Cargo.toml` exists.
    pub cargo_toml: bool,
    /// `package.json`.
    pub package_json: Manifest,
    /// `setup.py` exists.
    pub setup_py: bool,
    /// `requirements.txt`.
    pub requirements_txt: Manifest,
    /// `pyproject.toml` exists.
    pub pyproject_toml: bool,
    /// `manage.py` exists.
    pub manage_py: bool,
    /// `settings.py` exists at the root.
    pub settings_py: bool,
    /// Some immediate child of the root holds a `settings.py`.
    pub nested_settings_py: bool,
    /// `pom.xml`.
    pub pom_xml: Manifest,
    /// `build.gradle` exists.
    pub build_gradle: bool,
    /// `build.gradle.kts` exists.
    pub build_gradle_kts: bool,
    /// The names of the root's immediate children, or `None` if the root
    /// could not be listed.
    pub root_entries: Option<Vec<String>>,
    /// The entries found at most three levels below the root, in the order
    /// in which they were met.
    pub project_files: Vec<ProjectFile>,
    /// `go.mod` exists.
    pub go_mod: bool,
    /// `Gemfile` exists.
    pub gemfile: bool,
    /// `composer.json` exists.
    pub composer_json: bool,
    /// `config/routes.rb` exists.
    pub routes_rb: bool,
    /// `artisan` exists.
    pub artisan: bool,
    /// `bin/console` exists.
    pub bin_console: bool,
    /// `config` exists.
    pub config_dir: bool,
    /// `src/Kernel.php` exists.
    pub kernel_php: bool,
}

impl RootFacts {
    /// Whether the root holds nothing that detection looks for.
    pub open spec fn bare(self) -> bool {
        &&& !self.cargo_toml
        &&& self.package_json is Absent
        &&& !self.setup_py
        &&& self.requirements_txt is Absent
        &&& !self.pyproject_toml
        &&& !self.manage_py
        &&& !self.settings_py
        &&& !self.nested_settings_py
        &&& self.pom_xml is Absent
        &&& !self.build_gradle
        &&& !self.build_gradle_kts
        &&& self.root_entries matches Some(names) && names@.len() == 0
        &&& self.project_files@.len() == 0
        &&& !self.go_mod
        &&& !self.gemfile
        &&& !self.composer_json
        &&& !self.routes_rb
        &&& !self.artisan
        &&& !self.bin_console
        &&& !self.config_dir
        &&& !self.kernel_php
    }

    /// The facts of an empty root: no marker file, no manifest, nothing
    /// listed.
    pub fn new() -> (r: Self)
        ensures
            r.bare(),
    {
        RootFacts {
            cargo_toml: false,
            package_json: Manifest::Absent,
            setup_py: false,
            requirements_txt: Manifest::Absent,
            pyproject_toml: false,
            manage_py: false,
            settings_py: false,
            nested_settings_py: false,
            pom_xml: Manifest::Absent,
            build_gradle: false,
            build_gradle_kts: false,
            root_entries: Some(Vec::new()),
            project_files: Vec::new(),
            go_mod: false,
            gemfile: false,
            composer_json: false,
            routes_rb: false,
            artisan: false,
            bin_console: false,
            config_dir: false,
            kernel_php: false,
        }
    }
}

/// What a visit to one file observed.
pub struct FileProbe {
    /// The file's name, without its directory.
    pub name: String,
    /// The file's full path, as it is shown.
    pub path: String,
    /// The file's path below the root of the walk.
    pub relative_path: String,
    /// Whether this is a regular file, as opposed to a link or a special
    /// file.
    pub regular: bool,
    /// Whether the file was still there when it was visited.
    pub exists: bool,
    /// What the platform reported about the space the file takes.
    pub size: SizeReading,
    /// The file's logical length, or `None` if its metadata could not be
    /// read.
    pub length: Option<u64>,
    /// The file's text, or `None` if it could not be read as text.
    pub content: Option<String>,
}

/// A directory with what it holds.
pub struct DirListing {
    /// The directory's name, without its parent.
    pub name: String,
    /// The directory's full path, as it is shown.
    pub path: String,
    /// What the platform reported about the space the directory's own entry
    /// takes.
    pub size: SizeReading,
    /// The directory's immediate children, in the order of the listing.
    pub entries: Vec<Entry>,
}

/// One child of a directory.
pub enum Entry {
    /// Anything that is not a directory.
    File(FileProbe),
    /// A directory.
    Dir(DirListing),
}

impl Entry {
    /// The entry's name.
    pub open spec fn name(self) -> Seq<char> {
        match self {
            Entry::File(f) => f.name@,
            Entry::Dir(d) => d.name@,
        }
    }

    /// The entry's path.
    pub open spec fn path(self) -> Seq<char> {
        match self {
            Entry::File(f) => f.path@,
            Entry::Dir(d) => d.path@,
        }
    }

    /// What the platform reported about the space the entry takes.
    pub open spec fn reading(self) -> SizeReading {
        match self {
            Entry::File(f) => f.size,
            Entry::Dir(d) => d.size,
        }
    }

    /// What the platform reported about the space the entry takes.
    pub fn size_reading(&self) -> (r: &SizeReading)
        ensures
            *r == self.reading(),
    {
        match self {
            Entry::File(f) => &f.size,
            Entry::Dir(d) => &d.size,
        }
    }

    /// The entry's name.
    pub fn file_name(&self) -> (r: &str)
        ensures
            r@ == self.name(),
    {
        match self {
            Entry::File(f) => f.name.as_str(),
            Entry::Dir(d) => d.name.as_str(),
        }
    }

    /// The entry's path.
    pub fn full_path(&self) -> (r: &str)
        ensures
            r@ == self.path(),
    {
        match self {
            Entry::File(f) => f.path.as_str(),
            Entry::Dir(d) => d.path.as_str(),
        }
    }

    /// Whether the entry is a directory.
    pub fn is_dir(&self) -> (r: bool)
        ensures
            r == (self is Dir),
    {
        match self {
            Entry::File(_) => false,
            Entry::Dir(_) => true,
        }
    }
}

} // verus!
