//! The fixed exclusion rules: directories that are never entered, files
//! that are never listed, and file names that mark sensitive content.

use vstd::prelude::*;
use crate::ranking::{rank, ranking, ranking_is_sorted};
use crate::size::{format_size, size_text};
use crate::text::{chars_of, decimal, ends_with_str, is_text, owned, push_decimal, push_text};

verus! {

/// Whether `name` is one of the directories that every run excludes.
pub open spec fn base_excluded_dir(name: Seq<char>) -> bool {
    ||| name == ".idea"@
    ||| name == ".git"@
    ||| name == ".github"@
    ||| name == ".gitlab"@
    ||| name == ".vscode"@
    ||| name == ".venv"@
    ||| name == "cache"@
    ||| name == "fonts"@
    ||| name == "obj"@
    ||| name == "out"@
}

/// Whether `name` is one of the file names that every run excludes.
pub open spec fn excluded_file_name(name: Seq<char>) -> bool {
    ||| name == ".DS_Store"@
    ||| name == ".env"@
    ||| name == ".eslintrc.json"@
    ||| name == ".gitignore"@
    ||| name == ".npmignore"@
    ||| name == "Cargo.lock"@
    ||| name == "eslint.config.js"@
    ||| name == "favicon.ico"@
    ||| name == "globals.css"@
    ||| name == "next.config.mjs"@
    ||| name == "next-env.d.ts"@
    ||| name == "postcss.config.js"@
    ||| name == "postcss.config.mjs"@
    ||| name == "README.md"@
    ||| name == "package-lock.json"@
    ||| name == "pnpm-lock.yaml"@
    ||| name == "tailwind.config.js"@
    ||| name == "tailwind.config.ts"@
    ||| name == "tsconfig.app.json"@
    ||| name == "tsconfig.node.json"@
    ||| name == "tsconfig.json"@
    ||| name == "thumbs.db"@
    ||| name == "vite.config.ts"@
    ||| name == "yarn.lock"@
}

/// Whether a file of this name is sensitive: the name ends with one of the
/// listed suffixes.
pub open spec fn sensitive_name(name: Seq<char>) -> bool {
    ||| ".env"@.is_suffix_of(name)
    ||| ".env.local"@.is_suffix_of(name)
    ||| ".env.development"@.is_suffix_of(name)
    ||| ".env.production"@.is_suffix_of(name)
    ||| ".env.test"@.is_suffix_of(name)
    ||| "config.json"@.is_suffix_of(name)
    ||| "secrets.json"@.is_suffix_of(name)
    ||| "credentials.json"@.is_suffix_of(name)
    ||| "aws-config.json"@.is_suffix_of(name)
    ||| "firebase-config.json"@.is_suffix_of(name)
    ||| "database.yml"@.is_suffix_of(name)
    ||| "settings.py"@.is_suffix_of(name)
    ||| "config.py"@.is_suffix_of(name)
    ||| "wp-config.php"@.is_suffix_of(name)
    ||| "application.properties"@.is_suffix_of(name)
}

/// Why a file of this name is excluded.
pub open spec fn file_exclusion_reason(name: Seq<char>) -> Seq<char> {
    if name == ".DS_Store"@ {
        "macOS system file"@
    } else if name == ".env"@ || name == ".env.local"@ || name == ".env.development"@ || name
        == ".env.production"@ || name == ".env.test"@ {
        "Environment configuration file"@
    } else if name == ".eslintrc.json"@ || name == "eslint.config.js"@ {
        "ESLint configuration"@
    } else if name == ".gitignore"@ || name == ".npmignore"@ {
        "Version control ignore file"@
    } else if name == "Cargo.lock"@ || name == "package-lock.json"@ || name == "pnpm-lock.yaml"@
        || name == "yarn.lock"@ {
        "Dependency lock file"@
    } else if name == "favicon.ico"@ {
        "Website icon file"@
    } else if name == "globals.css"@ {
        "Global CSS file"@
    } else if name == "next.config.mjs"@ || name == "next-env.d.ts"@ {
        "Next.js configuration"@
    } else if name == "postcss.config.js"@ || name == "postcss.config.mjs"@ {
        "PostCSS configuration"@
    } else if name == "README.md"@ {
        "Documentation file"@
    } else if name == "tailwind.config.js"@ || name == "tailwind.config.ts"@ {
        "Tailwind CSS configuration"@
    } else if name == "tsconfig.app.json"@ || name == "tsconfig.node.json"@ || name
        == "tsconfig.json"@ {
        "TypeScript configuration"@
    } else if name == "thumbs.db"@ {
        "Windows thumbnail cache"@
    } else if name == "vite.config.ts"@ {
        "Vite configuration"@
    } else {
        "Configuration/system file"@
    }
}

/// A file named `.env` is sensitive, and so is every file whose name ends
/// in `.env`.
pub proof fn env_file_is_sensitive(name: Seq<char>)
    requires
        ".env"@.is_suffix_of(name),
    ensures
        sensitive_name(name),
        sensitive_name(".env"@),
{
    let env = ".env"@;
    assert(env.subrange(0, env.len() as int) =~= env);
}

/// Whether `name` is one of the directories that every run excludes.
pub fn is_base_excluded_dir(name: &str) -> (r: bool)
    ensures
        r == base_excluded_dir(name@),
{
    let chars = chars_of(name);
    let n = chars.as_slice();
    is_text(n, ".idea") || is_text(n, ".git") || is_text(n, ".github") || is_text(n, ".gitlab")
        || is_text(n, ".vscode") || is_text(n, ".venv") || is_text(n, "cache") || is_text(
        n,
        "fonts",
    ) || is_text(n, "obj") || is_text(n, "out")
}

/// Whether a file of this name is left out of the tree.
pub fn is_excluded_file(name: &str) -> (r: bool)
    ensures
        r == excluded_file_name(name@),
{
    let chars = chars_of(name);
    let n = chars.as_slice();
    is_text(n, ".DS_Store") || is_text(n, ".env") || is_text(n, ".eslintrc.json") || is_text(
        n,
        ".gitignore",
    ) || is_text(n, ".npmignore") || is_text(n, "Cargo.lock") || is_text(n, "eslint.config.js")
        || is_text(n, "favicon.ico") || is_text(n, "globals.css") || is_text(
        n,
        "next.config.mjs",
    ) || is_text(n, "next-env.d.ts") || is_text(n, "postcss.config.js") || is_text(
        n,
        "postcss.config.mjs",
    ) || is_text(n, "README.md") || is_text(n, "package-lock.json") || is_text(
        n,
        "pnpm-lock.yaml",
    ) || is_text(n, "tailwind.config.js") || is_text(n, "tailwind.config.ts") || is_text(
        n,
        "tsconfig.app.json",
    ) || is_text(n, "tsconfig.node.json") || is_text(n, "tsconfig.json") || is_text(
        n,
        "thumbs.db",
    ) || is_text(n, "vite.config.ts") || is_text(n, "yarn.lock")
}

/// Whether a file of this name may hold secrets. The name alone decides;
/// the content is never looked at.
pub fn might_contain_sensitive_info(name: &str, _content: Option<&str>) -> (r: bool)
    ensures
        r == sensitive_name(name@),
{
    let chars = chars_of(name);
    let n = chars.as_slice();
    ends_with_str(n, ".env") || ends_with_str(n, ".env.local") || ends_with_str(
        n,
        ".env.development",
    ) || ends_with_str(n, ".env.production") || ends_with_str(n, ".env.test") || ends_with_str(
        n,
        "config.json",
    ) || ends_with_str(n, "secrets.json") || ends_with_str(n, "credentials.json")
        || ends_with_str(n, "aws-config.json") || ends_with_str(n, "firebase-config.json")
        || ends_with_str(n, "database.yml") || ends_with_str(n, "settings.py") || ends_with_str(
        n,
        "config.py",
    ) || ends_with_str(n, "wp-config.php") || ends_with_str(n, "application.properties")
}

/// Why a file of this name is excluded.
pub fn get_file_exclusion_reason(file_name: &str) -> (r: String)
    ensures
        r@ == file_exclusion_reason(file_name@),
{
    let chars = chars_of(file_name);
    let n = chars.as_slice();
    if is_text(n, ".DS_Store") {
        owned("macOS system file")
    } else if is_text(n, ".env") || is_text(n, ".env.local") || is_text(n, ".env.development")
        || is_text(n, ".env.production") || is_text(n, ".env.test") {
        owned("Environment configuration file")
    } else if is_text(n, ".eslintrc.json") || is_text(n, "eslint.config.js") {
        owned("ESLint configuration")
    } else if is_text(n, ".gitignore") || is_text(n, ".npmignore") {
        owned("Version control ignore file")
    } else if is_text(n, "Cargo.lock") || is_text(n, "package-lock.json") || is_text(
        n,
        "pnpm-lock.yaml",
    ) || is_text(n, "yarn.lock") {
        owned("Dependency lock file")
    } else if is_text(n, "favicon.ico") {
        owned("Website icon file")
    } else if is_text(n, "globals.css") {
        owned("Global CSS file")
    } else if is_text(n, "next.config.mjs") || is_text(n, "next-env.d.ts") {
        owned("Next.js configuration")
    } else if is_text(n, "postcss.config.js") || is_text(n, "postcss.config.mjs") {
        owned("PostCSS configuration")
    } else if is_text(n, "README.md") {
        owned("Documentation file")
    } else if is_text(n, "tailwind.config.js") || is_text(n, "tailwind.config.ts") {
        owned("Tailwind CSS configuration")
    } else if is_text(n, "tsconfig.app.json") || is_text(n, "tsconfig.node.json") || is_text(
        n,
        "tsconfig.json",
    ) {
        owned("TypeScript configuration")
    } else if is_text(n, "thumbs.db") {
        owned("Windows thumbnail cache")
    } else if is_text(n, "vite.config.ts") {
        owned("Vite configuration")
    } else {
        owned("Configuration/system file")
    }
}

/// A directory that the walk left out.
pub struct ExcludedDirectory {
    /// The directory's path.
    pub path: String,
    /// The space taken by all files below it.
    pub size: u64,
    /// The number of files below it.
    pub file_count: usize,
    /// Why it was left out.
    pub reason: String,
}

/// A file that the walk left out.
pub struct ExcludedFile {
    /// The file's path.
    pub path: String,
    /// The space it takes.
    pub size: u64,
    /// Why it was left out.
    pub reason: String,
}

/// An excluded directory as a value: its path, the space below it, the
/// number of files below it, and the reason.
pub struct ExcludedDirectoryRecord {
    pub path: Seq<char>,
    pub size: nat,
    pub file_count: nat,
    pub reason: Seq<char>,
}

/// An excluded file as a value: its path, its size, and the reason.
pub struct ExcludedFileRecord {
    pub path: Seq<char>,
    pub size: nat,
    pub reason: Seq<char>,
}

impl View for ExcludedDirectory {
    type V = ExcludedDirectoryRecord;

    open spec fn view(&self) -> ExcludedDirectoryRecord {
        ExcludedDirectoryRecord {
            path: self.path@,
            size: self.size as nat,
            file_count: self.file_count as nat,
            reason: self.reason@,
        }
    }
}

impl View for ExcludedFile {
    type V = ExcludedFileRecord;

    open spec fn view(&self) -> ExcludedFileRecord {
        ExcludedFileRecord { path: self.path@, size: self.size as nat, reason: self.reason@ }
    }
}

/// The sum of the sizes of the directories.
pub open spec fn directories_size(dirs: Seq<ExcludedDirectoryRecord>) -> nat
    decreases dirs.len(),
{
    if dirs.len() == 0 {
        0
    } else {
        directories_size(dirs.drop_last()) + dirs.last().size
    }
}

/// The sum of the sizes of the files.
pub open spec fn files_size(files: Seq<ExcludedFileRecord>) -> nat
    decreases files.len(),
{
    if files.len() == 0 {
        0
    } else {
        files_size(files.drop_last()) + files.last().size
    }
}

/// The line for one excluded directory.
pub open spec fn directory_line(place: nat, d: ExcludedDirectoryRecord) -> Seq<char> {
    "  "@ + decimal(place) + ". "@ + d.path + " - "@ + size_text(d.size) + " ("@ + decimal(
        d.file_count,
    ) + " files) - Reason: "@ + d.reason + "\n"@
}

/// The lines for the first `count` directories of the ranking.
pub open spec fn directory_lines(
    dirs: Seq<ExcludedDirectoryRecord>,
    order: Seq<usize>,
    count: nat,
) -> Seq<char>
    decreases count,
{
    if count == 0 {
        Seq::empty()
    } else {
        directory_lines(dirs, order, (count - 1) as nat) + directory_line(
            count,
            dirs[order[count - 1] as int],
        )
    }
}

/// The line for one excluded file.
pub open spec fn file_line(place: nat, f: ExcludedFileRecord) -> Seq<char> {
    "  "@ + decimal(place) + ". "@ + f.path + " - "@ + size_text(f.size) + " - Reason: "@
        + f.reason + "\n"@
}

/// The lines for the first `count` files of the ranking.
pub open spec fn file_lines(
    files: Seq<ExcludedFileRecord>,
    order: Seq<usize>,
    count: nat,
) -> Seq<char>
    decreases count,
{
    if count == 0 {
        Seq::empty()
    } else {
        file_lines(files, order, (count - 1) as nat) + file_line(
            count,
            files[order[count - 1] as int],
        )
    }
}

/// How many items a listing of the largest shows.
pub open spec fn shown(len: nat) -> nat {
    if len < 10 {
        len
    } else {
        10
    }
}

/// The sizes of the directories, in their order.
pub open spec fn directory_sizes(dirs: Seq<ExcludedDirectoryRecord>) -> Seq<u64> {
    Seq::new(dirs.len(), |i: int| dirs[i].size as u64)
}

/// The sizes of the files, in their order.
pub open spec fn file_sizes(files: Seq<ExcludedFileRecord>) -> Seq<u64> {
    Seq::new(files.len(), |i: int| files[i].size as u64)
}

/// The section on excluded directories: the ten largest, largest first.
pub open spec fn directories_text(dirs: Seq<ExcludedDirectoryRecord>) -> Seq<char> {
    if dirs.len() == 0 {
        Seq::empty()
    } else {
        "Top 10 Largest Excluded Directories:\n"@ + directory_lines(
            dirs,
            ranking(directory_sizes(dirs)),
            shown(dirs.len()),
        ) + "\n"@
    }
}

/// The section on excluded files: the ten largest, largest first.
pub open spec fn files_text(files: Seq<ExcludedFileRecord>) -> Seq<char> {
    if files.len() == 0 {
        Seq::empty()
    } else {
        "Top 10 Largest Excluded Files:\n"@ + file_lines(
            files,
            ranking(file_sizes(files)),
            shown(files.len()),
        ) + "\n"@
    }
}

/// The report on excluded content: nothing where nothing with a size was
/// excluded; else the total, the largest directories and the largest files.
pub open spec fn excluded_text(
    total: nat,
    dirs: Seq<ExcludedDirectoryRecord>,
    files: Seq<ExcludedFileRecord>,
) -> Seq<char> {
    if total == 0 {
        Seq::empty()
    } else {
        "\nExcluded Content Analysis:\n"@ + "==========================\n"@
            + "Total excluded content size: "@ + size_text(total) + "\n\n"@ + directories_text(
            dirs,
        ) + files_text(files)
    }
}

/// Appends the line for one excluded directory.
fn push_directory_line(out: &mut String, place: usize, d: &ExcludedDirectory)
    ensures
        final(out)@ == old(out)@ + directory_line(place as nat, d@),
{
    push_text(out, "  ");
    push_decimal(out, place as u64);
    push_text(out, ". ");
    push_text(out, d.path.as_str());
    push_text(out, " - ");
    let size = format_size(d.size);
    push_text(out, size.as_str());
    push_text(out, " (");
    push_decimal(out, d.file_count as u64);
    push_text(out, " files) - Reason: ");
    push_text(out, d.reason.as_str());
    push_text(out, "\n");
    assert(out@ =~= old(out)@ + directory_line(place as nat, d@));
}

/// Appends the line for one excluded file.
fn push_file_line(out: &mut String, place: usize, f: &ExcludedFile)
    ensures
        final(out)@ == old(out)@ + file_line(place as nat, f@),
{
    push_text(out, "  ");
    push_decimal(out, place as u64);
    push_text(out, ". ");
    push_text(out, f.path.as_str());
    push_text(out, " - ");
    let size = format_size(f.size);
    push_text(out, size.as_str());
    push_text(out, " - Reason: ");
    push_text(out, f.reason.as_str());
    push_text(out, "\n");
    assert(out@ =~= old(out)@ + file_line(place as nat, f@));
}

/// The report of what the walk left out: every excluded directory and file
/// in the order in which it was met, and the sum of their sizes.
pub struct ExcludedStats {
    total_excluded_size: u64,
    excluded_directories: Vec<ExcludedDirectory>,
    excluded_files: Vec<ExcludedFile>,
}

impl ExcludedStats {
    /// The sum of all excluded sizes.
    pub closed spec fn total(&self) -> nat {
        self.total_excluded_size as nat
    }

    /// The excluded directories, in the order in which they were met.
    pub closed spec fn directories(&self) -> Seq<ExcludedDirectoryRecord> {
        self.excluded_directories@.map_values(|d: ExcludedDirectory| d@)
    }

    /// The excluded files, in the order in which they were met.
    pub closed spec fn files(&self) -> Seq<ExcludedFileRecord> {
        self.excluded_files@.map_values(|f: ExcludedFile| f@)
    }

    /// The total is the sum of the recorded sizes.
    pub open spec fn wf(&self) -> bool {
        self.total() == directories_size(self.directories()) + files_size(self.files())
    }

    /// An empty report.
    pub fn new() -> (r: Self)
        ensures
            r.wf(),
            r.total() == 0,
            r.directories() == Seq::<ExcludedDirectoryRecord>::empty(),
            r.files() == Seq::<ExcludedFileRecord>::empty(),
    {
        ExcludedStats {
            total_excluded_size: 0,
            excluded_directories: Vec::new(),
            excluded_files: Vec::new(),
        }
    }

    /// Records an excluded directory with the size and the number of the
    /// files below it.
    pub fn add_excluded_directory(&mut self, path: &str, size: u64, file_count: usize, reason: &str)
        requires
            old(self).wf(),
            old(self).total() + size <= u64::MAX,
        ensures
            final(self).wf(),
            final(self).total() == old(self).total() + size,
            final(self).files() == old(self).files(),
            final(self).directories() == old(self).directories().push(
                (ExcludedDirectoryRecord {
                    path: path@,
                    size: size as nat,
                    file_count: file_count as nat,
                    reason: reason@,
                }),
            ),
    {
        self.total_excluded_size += size;
        self.excluded_directories.push(
            ExcludedDirectory { path: owned(path), size, file_count, reason: owned(reason) },
        );
        assert(self.directories().drop_last() == old(self).directories());
    }

    /// Records an excluded file with its size.
    pub fn add_excluded_file(&mut self, path: &str, size: u64, reason: &str)
        requires
            old(self).wf(),
            old(self).total() + size <= u64::MAX,
        ensures
            final(self).wf(),
            final(self).total() == old(self).total() + size,
            final(self).directories() == old(self).directories(),
            final(self).files() == old(self).files().push(
                (ExcludedFileRecord { path: path@, size: size as nat, reason: reason@ }),
            ),
    {
        self.total_excluded_size += size;
        self.excluded_files.push(ExcludedFile { path: owned(path), size, reason: owned(reason) });
        assert(self.files().drop_last() == old(self).files());
    }

    /// Appends the section on excluded directories.
    fn push_directories(&self, out: &mut String)
        ensures
            final(out)@ == old(out)@ + directories_text(self.directories()),
    {
        let dirs = &self.excluded_directories;
        if dirs.len() == 0 {
            return;
        }
        let mut sizes: Vec<u64> = Vec::new();
        let mut i: usize = 0;
        while i < dirs.len()
            invariant
                i <= dirs.len(),
                dirs == &self.excluded_directories,
                sizes@ == directory_sizes(self.directories()).take(i as int),
            decreases dirs.len() - i,
        {
            sizes.push(dirs[i].size);
            i += 1;
        }
        assert(sizes@ == directory_sizes(self.directories()));
        let order = rank(&sizes);
        proof {
            ranking_is_sorted(sizes@);
        }
        push_text(out, "Top 10 Largest Excluded Directories:\n");
        let count: usize = if dirs.len() < 10 {
            dirs.len()
        } else {
            10
        };
        let ghost before = out@;
        let mut k: usize = 0;
        while k < count
            invariant
                k <= count <= dirs.len(),
                count <= 10,
                dirs == &self.excluded_directories,
                order@ == ranking(directory_sizes(self.directories())),
                order@.len() == dirs.len(),
                forall|i: int| 0 <= i < order@.len() ==> 0 <= #[trigger] order@[i] < dirs.len(),
                out@ == before + directory_lines(self.directories(), order@, k as nat),
            decreases count - k,
        {
            let d = &dirs[order[k]];
            assert(d@ == self.directories()[order@[k as int] as int]);
            push_directory_line(out, k + 1, d);
            k += 1;
        }
        push_text(out, "\n");
    }

    /// Appends the section on excluded files.
    fn push_files(&self, out: &mut String)
        ensures
            final(out)@ == old(out)@ + files_text(self.files()),
    {
        let files = &self.excluded_files;
        if files.len() == 0 {
            return;
        }
        let mut sizes: Vec<u64> = Vec::new();
        let mut i: usize = 0;
        while i < files.len()
            invariant
                i <= files.len(),
                files == &self.excluded_files,
                sizes@ == file_sizes(self.files()).take(i as int),
            decreases files.len() - i,
        {
            sizes.push(files[i].size);
            i += 1;
        }
        assert(sizes@ == file_sizes(self.files()));
        let order = rank(&sizes);
        proof {
            ranking_is_sorted(sizes@);
        }
        push_text(out, "Top 10 Largest Excluded Files:\n");
        let count: usize = if files.len() < 10 {
            files.len()
        } else {
            10
        };
        let ghost before = out@;
        let mut k: usize = 0;
        while k < count
            invariant
                k <= count <= files.len(),
                count <= 10,
                files == &self.excluded_files,
                order@ == ranking(file_sizes(self.files())),
                order@.len() == files.len(),
                forall|i: int| 0 <= i < order@.len() ==> 0 <= #[trigger] order@[i] < files.len(),
                out@ == before + file_lines(self.files(), order@, k as nat),
            decreases count - k,
        {
            let f = &files[order[k]];
            assert(f@ == self.files()[order@[k as int] as int]);
            push_file_line(out, k + 1, f);
            k += 1;
        }
        push_text(out, "\n");
    }

    /// The report on excluded content for reading: the total size, the ten
    /// largest excluded directories and the ten largest excluded files,
    /// largest first. Nothing is reported where the total is zero.
    pub fn format_excluded_stats(&self) -> (r: String)
        ensures
            r@ == excluded_text(self.total(), self.directories(), self.files()),
    {
        let mut out = String::new();
        if self.total_excluded_size == 0 {
            return out;
        }
        push_text(&mut out, "\nExcluded Content Analysis:\n");
        push_text(&mut out, "==========================\n");
        push_text(&mut out, "Total excluded content size: ");
        let total = format_size(self.total_excluded_size);
        push_text(&mut out, total.as_str());
        push_text(&mut out, "\n\n");
        self.push_directories(&mut out);
        self.push_files(&mut out);
        out
    }

    /// The sum of all excluded sizes.
    pub fn total_excluded_size(&self) -> (r: u64)
        ensures
            r == self.total(),
    {
        self.total_excluded_size
    }

    /// The excluded directories, in the order in which they were met.
    pub fn excluded_directories(&self) -> (r: &Vec<ExcludedDirectory>)
        ensures
            r@.map_values(|d: ExcludedDirectory| d@) == self.directories(),
    {
        &self.excluded_directories
    }

    /// The excluded files, in the order in which they were met.
    pub fn excluded_files(&self) -> (r: &Vec<ExcludedFile>)
        ensures
            r@.map_values(|f: ExcludedFile| f@) == self.files(),
    {
        &self.excluded_files
    }
}

} // verus!
