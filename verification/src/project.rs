//! Project detection: the project type by its marker files, and project
//! metadata. Reading the directory listing is the host's part; the
//! decision over it is made here.

use vstd::prelude::*;

use crate::text::{push_char, str_eq};

verus! {

/// Detected project type.
#[derive(Debug, Clone, Copy, PartialEq, Eq, Structural)]
pub enum ProjectType {
    Rust,
    Node,
    Python,
    Go,
    Java,
    CSharp,
    Ruby,
    Php,
    Unknown,
}

/// Whether a file name occurs in a directory listing.
pub open spec fn spec_has_file(files: Seq<String>, name: Seq<char>) -> bool {
    exists|i: int| 0 <= i < files.len() && (#[trigger] files[i])@ == name
}

fn has_file(files: &Vec<String>, name: &str) -> (r: bool)
    ensures
        r == spec_has_file(files@, name@),
{
    let mut i: usize = 0;
    while i < files.len()
        invariant
            i <= files@.len(),
            forall|j: int| 0 <= j < i ==> (#[trigger] files@[j])@ != name@,
        decreases files@.len() - i,
    {
        if str_eq(files[i].as_str(), name) {
            return true;
        }
        i += 1;
    }
    false
}

/// The project type a directory listing indicates.
pub open spec fn spec_project_type(files: Seq<String>) -> ProjectType {
    if spec_has_file(files, "Cargo.toml"@) {
        ProjectType::Rust
    } else if spec_has_file(files, "package.json"@) {
        ProjectType::Node
    } else if spec_has_file(files, "pyproject.toml"@) || spec_has_file(files, "setup.py"@)
        || spec_has_file(files, "requirements.txt"@) {
        ProjectType::Python
    } else if spec_has_file(files, "go.mod"@) {
        ProjectType::Go
    } else if spec_has_file(files, "pom.xml"@) || spec_has_file(files, "build.gradle"@) {
        ProjectType::Java
    } else if spec_has_file(files, "Gemfile"@) {
        ProjectType::Ruby
    } else if spec_has_file(files, "composer.json"@) {
        ProjectType::Php
    } else {
        ProjectType::Unknown
    }
}

impl ProjectType {
    /// Detects the project type from the names present in the project's
    /// root directory, by its marker files.
    pub fn detect(files: &Vec<String>) -> (r: Self)
        ensures
            r == spec_project_type(files@),
    {
        if has_file(files, "Cargo.toml") {
            ProjectType::Rust
        } else if has_file(files, "package.json") {
            ProjectType::Node
        } else if has_file(files, "pyproject.toml") || has_file(files, "setup.py") || has_file(
            files,
            "requirements.txt",
        ) {
            ProjectType::Python
        } else if has_file(files, "go.mod") {
            ProjectType::Go
        } else if has_file(files, "pom.xml") || has_file(files, "build.gradle") {
            ProjectType::Java
        } else if has_file(files, "Gemfile") {
            ProjectType::Ruby
        } else if has_file(files, "composer.json") {
            ProjectType::Php
        } else {
            ProjectType::Unknown
        }
    }

    /// Recommended LSP servers for this project type.
    pub fn recommended_lsp_servers(&self) -> (r: Vec<&'static str>)
        ensures
            *self == ProjectType::Rust ==> r@.len() == 1 && r@[0]@ == "rust-analyzer"@,
            *self == ProjectType::Node ==> r@.len() == 1 && r@[0]@ == "typescript-language-server"@,
            *self == ProjectType::Python ==> r@.len() == 2 && r@[0]@ == "pyright"@ && r@[1]@
                == "ruff-lsp"@,
            *self == ProjectType::Go ==> r@.len() == 1 && r@[0]@ == "gopls"@,
            *self == ProjectType::Java ==> r@.len() == 1 && r@[0]@ == "jdtls"@,
            *self == ProjectType::CSharp ==> r@.len() == 1 && r@[0]@ == "omnisharp"@,
            *self == ProjectType::Ruby ==> r@.len() == 1 && r@[0]@ == "solargraph"@,
            *self == ProjectType::Php ==> r@.len() == 1 && r@[0]@ == "intelephense"@,
            *self == ProjectType::Unknown ==> r@.len() == 0,
    {
        let mut r: Vec<&'static str> = Vec::new();
        match self {
            ProjectType::Rust => {
                r.push("rust-analyzer");
            },
            ProjectType::Node => {
                r.push("typescript-language-server");
            },
            ProjectType::Python => {
                r.push("pyright");
                r.push("ruff-lsp");
            },
            ProjectType::Go => {
                r.push("gopls");
            },
            ProjectType::Java => {
                r.push("jdtls");
            },
            ProjectType::CSharp => {
                r.push("omnisharp");
            },
            ProjectType::Ruby => {
                r.push("solargraph");
            },
            ProjectType::Php => {
                r.push("intelephense");
            },
            ProjectType::Unknown => {},
        }
        r
    }

    /// File extensions associated with this project type.
    pub fn extensions(&self) -> (r: Vec<&'static str>)
        ensures
            *self == ProjectType::Rust ==> r@.len() == 1 && r@[0]@ == "rs"@,
            *self == ProjectType::Node ==> r@.len() == 6 && r@[0]@ == "js"@ && r@[1]@ == "ts"@
                && r@[2]@ == "jsx"@ && r@[3]@ == "tsx"@ && r@[4]@ == "mjs"@ && r@[5]@ == "cjs"@,
            *self == ProjectType::Python ==> r@.len() == 2 && r@[0]@ == "py"@ && r@[1]@ == "pyi"@,
            *self == ProjectType::Go ==> r@.len() == 1 && r@[0]@ == "go"@,
            *self == ProjectType::Java ==> r@.len() == 1 && r@[0]@ == "java"@,
            *self == ProjectType::CSharp ==> r@.len() == 1 && r@[0]@ == "cs"@,
            *self == ProjectType::Ruby ==> r@.len() == 1 && r@[0]@ == "rb"@,
            *self == ProjectType::Php ==> r@.len() == 1 && r@[0]@ == "php"@,
            *self == ProjectType::Unknown ==> r@.len() == 0,
    {
        let mut r: Vec<&'static str> = Vec::new();
        match self {
            ProjectType::Rust => {
                r.push("rs");
            },
            ProjectType::Node => {
                r.push("js");
                r.push("ts");
                r.push("jsx");
                r.push("tsx");
                r.push("mjs");
                r.push("cjs");
            },
            ProjectType::Python => {
                r.push("py");
                r.push("pyi");
            },
            ProjectType::Go => {
                r.push("go");
            },
            ProjectType::Java => {
                r.push("java");
            },
            ProjectType::CSharp => {
                r.push("cs");
            },
            ProjectType::Ruby => {
                r.push("rb");
            },
            ProjectType::Php => {
                r.push("php");
            },
            ProjectType::Unknown => {},
        }
        r
    }
}

/// Project metadata.
#[derive(Debug, Clone)]
pub struct Project {
    /// Root directory.
    pub root: String,
    /// Detected project type.
    pub project_type: ProjectType,
    /// Project name (from a config file or the directory name).
    pub name: String,
    /// Git repository root, when different from the project root.
    pub git_root: Option<String>,
}


/// The listing the host read for a directory: the first entry with that
/// path, or nothing.
pub open spec fn spec_listing(listings: Seq<(String, Vec<String>)>, dir: Seq<char>) -> Seq<String>
    decreases listings.len(),
{
    if listings.len() == 0 {
        Seq::empty()
    } else if listings[0].0@ == dir {
        listings[0].1@
    } else {
        spec_listing(listings.drop_first(), dir)
    }
}

fn listing_of<'a>(listings: &'a Vec<(String, Vec<String>)>, dir: &str) -> (r: Option<
    &'a Vec<String>,
>)
    ensures
        (match r {
            Some(v) => v@ == spec_listing(listings@, dir@),
            None => spec_listing(listings@, dir@) == Seq::<String>::empty(),
        }),
{
    let mut i: usize = 0;
    proof {
        assert(listings@.skip(0) =~= listings@);
    }
    while i < listings.len()
        invariant
            i <= listings@.len(),
            spec_listing(listings@, dir@) == spec_listing(listings@.skip(i as int), dir@),
        decreases listings@.len() - i,
    {
        proof {
            assert(listings@.skip(i as int)[0] == listings@[i as int]);
            assert(listings@.skip(i as int).drop_first() =~= listings@.skip(i + 1));
        }
        if str_eq(listings[i].0.as_str(), dir) {
            return Some(&listings[i].1);
        }
        i += 1;
    }
    None
}

/// The nearest directory, walking from `dir` upward, whose listing holds
/// a project marker.
pub open spec fn spec_nearest_marked(
    dir: Seq<char>,
    listings: Seq<(String, Vec<String>)>,
) -> Option<Seq<char>>
    decreases dir.len(),
    via spec_nearest_marked_decreases
{
    if spec_has_marker(spec_listing(listings, dir)) {
        Some(dir)
    } else {
        match crate::import_analyzer::spec_parent(dir) {
            None => None,
            Some(par) => spec_nearest_marked(par, listings),
        }
    }
}

#[via_fn]
proof fn spec_nearest_marked_decreases(dir: Seq<char>, listings: Seq<(String, Vec<String>)>) {
    if !spec_has_marker(spec_listing(listings, dir)) && crate::import_analyzer::spec_parent(
        dir,
    ) is Some {
        crate::import_analyzer::lemma_parent_shorter(dir);
    }
}

/// The nearest directory, walking from `dir` upward, whose listing holds
/// a `.git` entry.
pub open spec fn spec_nearest_git(
    dir: Seq<char>,
    listings: Seq<(String, Vec<String>)>,
) -> Option<Seq<char>>
    decreases dir.len(),
    via spec_nearest_git_decreases
{
    if spec_has_file(spec_listing(listings, dir), ".git"@) {
        Some(dir)
    } else {
        match crate::import_analyzer::spec_parent(dir) {
            None => None,
            Some(par) => spec_nearest_git(par, listings),
        }
    }
}

#[via_fn]
proof fn spec_nearest_git_decreases(dir: Seq<char>, listings: Seq<(String, Vec<String>)>) {
    if !spec_has_file(spec_listing(listings, dir), ".git"@) && crate::import_analyzer::spec_parent(
        dir,
    ) is Some {
        crate::import_analyzer::lemma_parent_shorter(dir);
    }
}

/// A found nearest-marked directory is itself marked.
proof fn lemma_nearest_marked_is_marked(dir: Seq<char>, listings: Seq<(String, Vec<String>)>)
    requires
        spec_nearest_marked(dir, listings) is Some,
    ensures
        spec_has_marker(
            spec_listing(listings, spec_nearest_marked(dir, listings).unwrap()),
        ),
    decreases dir.len(),
{
    if !spec_has_marker(spec_listing(listings, dir)) {
        crate::import_analyzer::lemma_parent_shorter(dir);
        lemma_nearest_marked_is_marked(
            crate::import_analyzer::spec_parent(dir).unwrap(),
            listings,
        );
    }
}

/// Whether a listing holds one of the common project markers.
pub open spec fn spec_has_marker(files: Seq<String>) -> bool {
    ||| spec_has_file(files, "Cargo.toml"@)
    ||| spec_has_file(files, "package.json"@)
    ||| spec_has_file(files, "pyproject.toml"@)
    ||| spec_has_file(files, "go.mod"@)
    ||| spec_has_file(files, "pom.xml"@)
    ||| spec_has_file(files, ".git"@)
}

fn has_marker(files: &Vec<String>) -> (r: bool)
    ensures
        r == spec_has_marker(files@),
{
    has_file(files, "Cargo.toml") || has_file(files, "package.json") || has_file(
        files,
        "pyproject.toml",
    ) || has_file(files, "go.mod") || has_file(files, "pom.xml") || has_file(files, ".git")
}

/// The nearest ancestor of `path` — the path itself first — whose
/// directory listing holds a project marker, exactly as
/// [`spec_nearest_marked`] walks it; nothing when no ancestor is marked.
/// The host supplies the listing of each directory it read.
pub fn find_project_root(path: &str, listings: &Vec<(String, Vec<String>)>) -> (r: Option<String>)
    ensures
        (match r {
            Some(root) => spec_nearest_marked(path@, listings@) == Some(root@),
            None => spec_nearest_marked(path@, listings@) is None,
        }),
{
    let mut current = path.to_owned();
    let mut remaining = path.unicode_len();
    loop
        invariant
            current@.len() <= remaining,
            spec_nearest_marked(path@, listings@) == spec_nearest_marked(current@, listings@),
        decreases remaining,
    {
        let marked = match listing_of(listings, current.as_str()) {
            Some(files) => has_marker(files),
            None => false,
        };
        if marked {
            return Some(current);
        }
        match crate::import_analyzer::parent_dir(current.as_str()) {
            Some(par) => {
                proof {
                    crate::import_analyzer::lemma_parent_shorter(current@);
                }
                current = par;
            },
            None => {
                return None;
            },
        }
        if remaining == 0 {
            proof {
                assert(false);
            }
            return None;
        }
        remaining -= 1;
    }
}

/// The nearest ancestor of `path` whose listing holds a `.git` entry,
/// exactly as [`spec_nearest_git`] walks it.
pub fn find_git_root(path: &str, listings: &Vec<(String, Vec<String>)>) -> (r: Option<String>)
    ensures
        (match r {
            Some(root) => spec_nearest_git(path@, listings@) == Some(root@),
            None => spec_nearest_git(path@, listings@) is None,
        }),
{
    let mut current = path.to_owned();
    let mut remaining = path.unicode_len();
    loop
        invariant
            current@.len() <= remaining,
            spec_nearest_git(path@, listings@) == spec_nearest_git(current@, listings@),
        decreases remaining,
    {
        let marked = match listing_of(listings, current.as_str()) {
            Some(files) => has_file(files, ".git"),
            None => false,
        };
        if marked {
            return Some(current);
        }
        match crate::import_analyzer::parent_dir(current.as_str()) {
            Some(par) => {
                proof {
                    crate::import_analyzer::lemma_parent_shorter(current@);
                }
                current = par;
            },
            None => {
                return None;
            },
        }
        if remaining == 0 {
            proof {
                assert(false);
            }
            return None;
        }
        remaining -= 1;
    }
}

fn last_component(p: &str) -> String {
    let n = p.unicode_len();
    let mut start: usize = 0;
    let mut i: usize = 0;
    while i < n
        invariant
            i <= n,
            n == p@.len(),
            start <= i,
        decreases n - i,
    {
        if p.get_char(i) == '/' {
            start = i + 1;
        }
        i += 1;
    }
    let mut out = String::new();
    let mut j = start;
    while j < n
        invariant
            start <= j <= n,
            n == p@.len(),
        decreases n - j,
    {
        push_char(&mut out, p.get_char(j));
        j += 1;
    }
    out
}

impl Project {
    /// Discovers a project from a path: the root is the nearest marked
    /// ancestor, the type is detected from the root's listing, the name
    /// comes from the host's config reading or falls back to the root's
    /// final path component, and the git root is the nearest ancestor
    /// with a `.git` entry. The host supplies each directory's listing
    /// and any name it read from a package manifest.
    pub fn discover(
        path: &str,
        listings: &Vec<(String, Vec<String>)>,
        config_name: Option<String>,
    ) -> (r: Option<Project>)
        ensures
            (match r {
                Some(p) => {
                    &&& spec_nearest_marked(path@, listings@) == Some(p.root@)
                    &&& spec_has_marker(spec_listing(listings@, p.root@))
                    &&& p.project_type == spec_project_type(spec_listing(listings@, p.root@))
                    &&& (match p.git_root {
                        Some(g) => spec_nearest_git(p.root@, listings@) == Some(g@),
                        None => spec_nearest_git(p.root@, listings@) is None,
                    })
                    &&& (match config_name {
                        Some(n) => p.name == n,
                        None => true,
                    })
                },
                None => spec_nearest_marked(path@, listings@) is None,
            }),
    {
        let root = match find_project_root(path, listings) {
            Some(root) => root,
            None => {
                return None;
            },
        };
        proof {
            lemma_nearest_marked_is_marked(path@, listings@);
        }
        let project_type = match listing_of(listings, root.as_str()) {
            Some(files) => ProjectType::detect(files),
            None => {
                let empty: Vec<String> = Vec::new();
                proof {
                    assert(empty@ =~= spec_listing(listings@, root@));
                }
                ProjectType::detect(&empty)
            },
        };
        let name = match config_name {
            Some(n) => n,
            None => {
                let fallback = last_component(root.as_str());
                if fallback.unicode_len() == 0 {
                    "unnamed".to_owned()
                } else {
                    fallback
                }
            },
        };
        let git_root = find_git_root(root.as_str(), listings);
        Some(Project { root, project_type, name, git_root })
    }
}

} // verus!
