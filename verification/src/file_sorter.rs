//! Heuristic file ordering for code review: files are grouped into tiers
//! (configuration, type definitions, implementation, tests, generated
//! files, documentation) and ordered so that a reader sees them in a
//! logical reading order. Every ordering returns exactly the input files,
//! only rearranged.

use vstd::prelude::*;
use vstd::multiset::Multiset;
use vstd::pervasive::VecAdditionalExecFns;

use crate::git::FileChangeStats;
use crate::sorting::{
    lemma_insert_multiset, lemma_opts_ms_take, lemma_remove_multiset, opts_ms, sorted_by,
    spec_stable_perm,
};
use crate::text::{
    lemma_str_le_refl, lemma_str_le_total, spec_contains, spec_ends_with, spec_starts_with,
    spec_str_le, str_contains, str_ends_with, str_eq, str_le, str_starts_with,
};

verus! {

broadcast use vstd::multiset::group_multiset_axioms;

/// File category tier for smart sorting, in review order.
#[derive(Debug, Clone, Copy, PartialEq, Eq, PartialOrd, Ord, Hash, Structural)]
pub enum FileTier {
    /// Project configuration (package manifests, CI configs).
    ProjectConfig,
    /// Type definitions and interfaces.
    TypeDefinitions,
    /// Implementation files (core logic).
    Implementation,
    /// Test files.
    Tests,
    /// Generated and lock files.
    Generated,
    /// Documentation.
    Documentation,
}

/// The review position of a tier: configuration first, documentation
/// last.
pub open spec fn spec_tier_rank(t: FileTier) -> int {
    match t {
        FileTier::ProjectConfig => 0,
        FileTier::TypeDefinitions => 1,
        FileTier::Implementation => 2,
        FileTier::Tests => 3,
        FileTier::Generated => 4,
        FileTier::Documentation => 5,
    }
}

/// The review position of a tier.
pub fn tier_rank(t: FileTier) -> (r: u8)
    ensures
        r as int == spec_tier_rank(t),
{
    match t {
        FileTier::ProjectConfig => 0,
        FileTier::TypeDefinitions => 1,
        FileTier::Implementation => 2,
        FileTier::Tests => 3,
        FileTier::Generated => 4,
        FileTier::Documentation => 5,
    }
}

/// File category with tier and label.
#[derive(Debug, Clone)]
pub struct FileCategory {
    pub tier: FileTier,
    pub label: String,
}

/// Project configuration: package manifests, build files, CI pipelines,
/// build-tool and linter configurations.
pub open spec fn spec_is_project_config(p: Seq<char>) -> bool {
    ||| p == "package.json"@
    ||| p == "Cargo.toml"@
    ||| p == "pyproject.toml"@
    ||| p == "go.mod"@
    ||| p == "pom.xml"@
    ||| p == "build.gradle"@
    ||| p == "composer.json"@
    ||| p == "Makefile"@
    ||| p == "CMakeLists.txt"@
    ||| p == "meson.build"@
    ||| p == "BUILD"@
    ||| p == "WORKSPACE"@
    ||| spec_starts_with(p, ".github/workflows/"@)
    ||| spec_starts_with(p, ".gitlab-ci.yml"@)
    ||| spec_starts_with(p, ".circleci/"@)
    ||| spec_starts_with(p, ".travis.yml"@)
    ||| spec_starts_with(p, "azure-pipelines.yml"@)
    ||| (spec_starts_with(p, "tsconfig."@) && spec_config_ext(p))
    ||| (spec_starts_with(p, "vite.config."@) && spec_config_ext(p))
    ||| (spec_starts_with(p, "webpack.config."@) && spec_config_ext(p))
    ||| (spec_starts_with(p, "rollup.config."@) && spec_config_ext(p))
    ||| (spec_starts_with(p, "tailwind.config."@) && spec_config_ext(p))
    ||| (spec_starts_with(p, "postcss.config."@) && spec_config_ext(p))
    ||| (spec_starts_with(p, "jest.config."@) && spec_config_ext(p))
    ||| (spec_starts_with(p, "vitest.config."@) && spec_config_ext(p))
    ||| spec_starts_with(p, ".eslintrc"@)
    ||| spec_starts_with(p, ".prettierrc"@)
    ||| spec_starts_with(p, "rustfmt.toml"@)
    ||| spec_starts_with(p, ".rubocop.yml"@)
    ||| spec_starts_with(p, "pylintrc"@)
}

/// The extension of a build-tool configuration file.
pub open spec fn spec_config_ext(p: Seq<char>) -> bool {
    spec_ends_with(p, ".json"@) || spec_ends_with(p, ".ts"@) || spec_ends_with(p, ".js"@)
        || spec_ends_with(p, ".mjs"@)
}

/// Type definitions: declaration files, headers, model directories, and
/// schema or protocol definitions.
pub open spec fn spec_is_type_definitions(p: Seq<char>) -> bool {
    ||| spec_ends_with(p, ".d.ts"@)
    ||| spec_ends_with(p, ".h"@)
    ||| spec_ends_with(p, ".hpp"@)
    ||| spec_ends_with(p, ".hxx"@)
    ||| spec_ends_with(p, ".hh"@)
    ||| spec_contains(p, "/types/"@)
    ||| spec_contains(p, "/interfaces/"@)
    ||| spec_contains(p, "/models/"@)
    ||| spec_contains(p, "/schema/"@)
    ||| spec_contains(p, "/schemas/"@)
    ||| spec_contains(p, "/dto/"@)
    ||| spec_contains(p, "/dtos/"@)
    ||| spec_ends_with(p, "/types.ts"@)
    ||| spec_ends_with(p, "/types.tsx"@)
    ||| spec_ends_with(p, "/types.rs"@)
    ||| spec_ends_with(p, "/types.py"@)
    ||| spec_ends_with(p, "/types.go"@)
    ||| spec_ends_with(p, "/interfaces.ts"@)
    ||| spec_ends_with(p, "/interfaces.tsx"@)
    ||| spec_ends_with(p, "/interfaces.rs"@)
    ||| spec_ends_with(p, "/interfaces.py"@)
    ||| spec_ends_with(p, "/interfaces.go"@)
    ||| spec_ends_with(p, ".proto"@)
    ||| spec_ends_with(p, ".graphql"@)
    ||| spec_ends_with(p, ".thrift"@)
    ||| spec_ends_with(p, ".avsc"@)
    ||| spec_ends_with(p, "openapi.yaml"@)
    ||| spec_ends_with(p, "openapi.yml"@)
    ||| spec_ends_with(p, "openapi.json"@)
    ||| spec_ends_with(p, "swagger.yaml"@)
    ||| spec_ends_with(p, "swagger.yml"@)
    ||| spec_ends_with(p, "swagger.json"@)
}

/// Test files: test and spec suffixes, test directories, and the common
/// per-language test naming conventions.
pub open spec fn spec_is_tests(p: Seq<char>) -> bool {
    ||| spec_test_suffix(p, ".test."@)
    ||| spec_test_suffix(p, ".spec."@)
    ||| spec_undertest_suffix(p)
    ||| spec_starts_with(p, "__tests__/"@)
    ||| spec_starts_with(p, "test/"@)
    ||| spec_starts_with(p, "tests/"@)
    ||| spec_starts_with(p, "spec/"@)
    ||| spec_starts_with(p, "specs/"@)
    ||| spec_contains(p, "/test/"@)
    ||| spec_contains(p, "/tests/"@)
    ||| spec_contains(p, "/spec/"@)
    ||| spec_contains(p, "/specs/"@)
    ||| spec_ends_with(p, "Test.java"@)
    ||| spec_ends_with(p, "Test.kt"@)
    ||| spec_ends_with(p, "Test.swift"@)
    ||| spec_ends_with(p, "Tests.swift"@)
    ||| spec_ends_with(p, "Tests.cs"@)
}

/// A `.test.` or `.spec.` marker followed by a known code extension.
pub open spec fn spec_test_suffix(p: Seq<char>, marker: Seq<char>) -> bool {
    ||| spec_ends_with(p, marker + "ts"@)
    ||| spec_ends_with(p, marker + "tsx"@)
    ||| spec_ends_with(p, marker + "js"@)
    ||| spec_ends_with(p, marker + "jsx"@)
    ||| spec_ends_with(p, marker + "rs"@)
    ||| spec_ends_with(p, marker + "py"@)
    ||| spec_ends_with(p, marker + "go"@)
    ||| spec_ends_with(p, marker + "rb"@)
    ||| spec_ends_with(p, marker + "java"@)
    ||| spec_ends_with(p, marker + "kt"@)
}

/// An `_test.` or `_spec.` suffix with a known code extension.
pub open spec fn spec_undertest_suffix(p: Seq<char>) -> bool {
    ||| spec_ends_with(p, "_test.ts"@)
    ||| spec_ends_with(p, "_test.tsx"@)
    ||| spec_ends_with(p, "_test.js"@)
    ||| spec_ends_with(p, "_test.jsx"@)
    ||| spec_ends_with(p, "_test.rs"@)
    ||| spec_ends_with(p, "_test.py"@)
    ||| spec_ends_with(p, "_test.go"@)
    ||| spec_ends_with(p, "_test.rb"@)
    ||| spec_ends_with(p, "_spec.ts"@)
    ||| spec_ends_with(p, "_spec.tsx"@)
    ||| spec_ends_with(p, "_spec.js"@)
    ||| spec_ends_with(p, "_spec.jsx"@)
    ||| spec_ends_with(p, "_spec.rs"@)
    ||| spec_ends_with(p, "_spec.py"@)
    ||| spec_ends_with(p, "_spec.go"@)
    ||| spec_ends_with(p, "_spec.rb"@)
}

/// Generated artifacts: generated-file markers, lock files, vendored
/// directories, and protobuf or GraphQL outputs.
pub open spec fn spec_is_generated(p: Seq<char>) -> bool {
    ||| spec_gen_suffix(p, ".generated."@)
    ||| spec_gen_suffix(p, ".auto."@)
    ||| spec_gen_suffix(p, ".pb."@)
    ||| p == "package-lock.json"@
    ||| p == "yarn.lock"@
    ||| p == "pnpm-lock.yaml"@
    ||| p == "Cargo.lock"@
    ||| p == "Gemfile.lock"@
    ||| p == "poetry.lock"@
    ||| p == "composer.lock"@
    ||| spec_starts_with(p, "vendor/"@)
    ||| spec_starts_with(p, "node_modules/"@)
    ||| spec_starts_with(p, "dist/"@)
    ||| spec_starts_with(p, "build/"@)
    ||| spec_starts_with(p, "target/"@)
    ||| spec_starts_with(p, "out/"@)
    ||| (spec_contains(p, "generated/"@) && (spec_ends_with(p, ".ts"@) || spec_ends_with(
        p,
        ".tsx"@,
    )))
}

/// A generated-file marker followed by a known code extension.
pub open spec fn spec_gen_suffix(p: Seq<char>, marker: Seq<char>) -> bool {
    ||| spec_ends_with(p, marker + "ts"@)
    ||| spec_ends_with(p, marker + "js"@)
    ||| spec_ends_with(p, marker + "go"@)
    ||| spec_ends_with(p, marker + "rs"@)
    ||| spec_ends_with(p, marker + "py"@)
}

/// Documentation: markdown and text files, the common top-level
/// documents, and documentation directories.
pub open spec fn spec_is_documentation(p: Seq<char>) -> bool {
    ||| spec_ends_with(p, ".md"@)
    ||| spec_ends_with(p, ".mdx"@)
    ||| spec_ends_with(p, ".txt"@)
    ||| spec_ends_with(p, ".rst"@)
    ||| spec_ends_with(p, ".adoc"@)
    ||| spec_starts_with(p, "README"@)
    ||| spec_starts_with(p, "CHANGELOG"@)
    ||| spec_starts_with(p, "LICENSE"@)
    ||| spec_starts_with(p, "CONTRIBUTING"@)
    ||| spec_starts_with(p, "CODE_OF_CONDUCT"@)
    ||| spec_starts_with(p, "AUTHORS"@)
    ||| spec_starts_with(p, "doc/"@)
    ||| spec_starts_with(p, "docs/"@)
    ||| spec_starts_with(p, "documentation/"@)
}

/// The tier of a path: the specific categories are checked first, in
/// order, and anything unmatched is implementation.
pub open spec fn spec_tier(p: Seq<char>) -> FileTier {
    if spec_is_project_config(p) {
        FileTier::ProjectConfig
    } else if spec_is_type_definitions(p) {
        FileTier::TypeDefinitions
    } else if spec_is_tests(p) {
        FileTier::Tests
    } else if spec_is_generated(p) {
        FileTier::Generated
    } else if spec_is_documentation(p) {
        FileTier::Documentation
    } else {
        FileTier::Implementation
    }
}

fn is_project_config(p: &str) -> (r: bool)
    ensures
        r == spec_is_project_config(p@),
{
    str_eq(p, "package.json") || str_eq(p, "Cargo.toml") || str_eq(p, "pyproject.toml") || str_eq(
        p,
        "go.mod",
    ) || str_eq(p, "pom.xml") || str_eq(p, "build.gradle") || str_eq(p, "composer.json") || str_eq(
        p,
        "Makefile",
    ) || str_eq(p, "CMakeLists.txt") || str_eq(p, "meson.build") || str_eq(p, "BUILD") || str_eq(
        p,
        "WORKSPACE",
    ) || str_starts_with(p, ".github/workflows/") || str_starts_with(p, ".gitlab-ci.yml")
        || str_starts_with(p, ".circleci/") || str_starts_with(p, ".travis.yml")
        || str_starts_with(p, "azure-pipelines.yml") || ((str_starts_with(p, "tsconfig.")
        || str_starts_with(p, "vite.config.") || str_starts_with(p, "webpack.config.")
        || str_starts_with(p, "rollup.config.") || str_starts_with(p, "tailwind.config.")
        || str_starts_with(p, "postcss.config.") || str_starts_with(p, "jest.config.")
        || str_starts_with(p, "vitest.config.")) && (str_ends_with(p, ".json") || str_ends_with(
        p,
        ".ts",
    ) || str_ends_with(p, ".js") || str_ends_with(p, ".mjs"))) || str_starts_with(p, ".eslintrc")
        || str_starts_with(p, ".prettierrc") || str_starts_with(p, "rustfmt.toml")
        || str_starts_with(p, ".rubocop.yml") || str_starts_with(p, "pylintrc")
}

fn is_type_definitions(p: &str) -> (r: bool)
    ensures
        r == spec_is_type_definitions(p@),
{
    str_ends_with(p, ".d.ts") || str_ends_with(p, ".h") || str_ends_with(p, ".hpp")
        || str_ends_with(p, ".hxx") || str_ends_with(p, ".hh") || str_contains(p, "/types/")
        || str_contains(p, "/interfaces/") || str_contains(p, "/models/") || str_contains(
        p,
        "/schema/",
    ) || str_contains(p, "/schemas/") || str_contains(p, "/dto/") || str_contains(p, "/dtos/")
        || str_ends_with(p, "/types.ts") || str_ends_with(p, "/types.tsx") || str_ends_with(
        p,
        "/types.rs",
    ) || str_ends_with(p, "/types.py") || str_ends_with(p, "/types.go") || str_ends_with(
        p,
        "/interfaces.ts",
    ) || str_ends_with(p, "/interfaces.tsx") || str_ends_with(p, "/interfaces.rs")
        || str_ends_with(p, "/interfaces.py") || str_ends_with(p, "/interfaces.go")
        || str_ends_with(p, ".proto") || str_ends_with(p, ".graphql") || str_ends_with(
        p,
        ".thrift",
    ) || str_ends_with(p, ".avsc") || str_ends_with(p, "openapi.yaml") || str_ends_with(
        p,
        "openapi.yml",
    ) || str_ends_with(p, "openapi.json") || str_ends_with(p, "swagger.yaml") || str_ends_with(
        p,
        "swagger.yml",
    ) || str_ends_with(p, "swagger.json")
}

fn is_tests(p: &str) -> (r: bool)
    ensures
        r == spec_is_tests(p@),
{
    let r = str_ends_with(p, ".test.ts") || str_ends_with(p, ".test.tsx") || str_ends_with(
        p,
        ".test.js",
    ) || str_ends_with(p, ".test.jsx") || str_ends_with(p, ".test.rs") || str_ends_with(
        p,
        ".test.py",
    ) || str_ends_with(p, ".test.go") || str_ends_with(p, ".test.rb") || str_ends_with(
        p,
        ".test.java",
    ) || str_ends_with(p, ".test.kt") || str_ends_with(p, ".spec.ts") || str_ends_with(
        p,
        ".spec.tsx",
    ) || str_ends_with(p, ".spec.js") || str_ends_with(p, ".spec.jsx") || str_ends_with(
        p,
        ".spec.rs",
    ) || str_ends_with(p, ".spec.py") || str_ends_with(p, ".spec.go") || str_ends_with(
        p,
        ".spec.rb",
    ) || str_ends_with(p, ".spec.java") || str_ends_with(p, ".spec.kt") || str_ends_with(
        p,
        "_test.ts",
    ) || str_ends_with(p, "_test.tsx") || str_ends_with(p, "_test.js") || str_ends_with(
        p,
        "_test.jsx",
    ) || str_ends_with(p, "_test.rs") || str_ends_with(p, "_test.py") || str_ends_with(
        p,
        "_test.go",
    ) || str_ends_with(p, "_test.rb") || str_ends_with(p, "_spec.ts") || str_ends_with(
        p,
        "_spec.tsx",
    ) || str_ends_with(p, "_spec.js") || str_ends_with(p, "_spec.jsx") || str_ends_with(
        p,
        "_spec.rs",
    ) || str_ends_with(p, "_spec.py") || str_ends_with(p, "_spec.go") || str_ends_with(
        p,
        "_spec.rb",
    ) || str_starts_with(p, "__tests__/") || str_starts_with(p, "test/") || str_starts_with(
        p,
        "tests/",
    ) || str_starts_with(p, "spec/") || str_starts_with(p, "specs/") || str_contains(p, "/test/")
        || str_contains(p, "/tests/") || str_contains(p, "/spec/") || str_contains(p, "/specs/")
        || str_ends_with(p, "Test.java") || str_ends_with(p, "Test.kt") || str_ends_with(
        p,
        "Test.swift",
    ) || str_ends_with(p, "Tests.swift") || str_ends_with(p, "Tests.cs");
    proof {
        reveal_strlit(".test.");
        reveal_strlit(".spec.");
        reveal_strlit("ts");
        reveal_strlit("tsx");
        reveal_strlit("js");
        reveal_strlit("jsx");
        reveal_strlit("rs");
        reveal_strlit("py");
        reveal_strlit("go");
        reveal_strlit("rb");
        reveal_strlit("java");
        reveal_strlit("kt");
        reveal_strlit(".test.ts");
        reveal_strlit(".test.tsx");
        reveal_strlit(".test.js");
        reveal_strlit(".test.jsx");
        reveal_strlit(".test.rs");
        reveal_strlit(".test.py");
        reveal_strlit(".test.go");
        reveal_strlit(".test.rb");
        reveal_strlit(".test.java");
        reveal_strlit(".test.kt");
        reveal_strlit(".spec.ts");
        reveal_strlit(".spec.tsx");
        reveal_strlit(".spec.js");
        reveal_strlit(".spec.jsx");
        reveal_strlit(".spec.rs");
        reveal_strlit(".spec.py");
        reveal_strlit(".spec.go");
        reveal_strlit(".spec.rb");
        reveal_strlit(".spec.java");
        reveal_strlit(".spec.kt");
        assert(".test."@ + "ts"@ =~= ".test.ts"@);
        assert(".test."@ + "tsx"@ =~= ".test.tsx"@);
        assert(".test."@ + "js"@ =~= ".test.js"@);
        assert(".test."@ + "jsx"@ =~= ".test.jsx"@);
        assert(".test."@ + "rs"@ =~= ".test.rs"@);
        assert(".test."@ + "py"@ =~= ".test.py"@);
        assert(".test."@ + "go"@ =~= ".test.go"@);
        assert(".test."@ + "rb"@ =~= ".test.rb"@);
        assert(".test."@ + "java"@ =~= ".test.java"@);
        assert(".test."@ + "kt"@ =~= ".test.kt"@);
        assert(".spec."@ + "ts"@ =~= ".spec.ts"@);
        assert(".spec."@ + "tsx"@ =~= ".spec.tsx"@);
        assert(".spec."@ + "js"@ =~= ".spec.js"@);
        assert(".spec."@ + "jsx"@ =~= ".spec.jsx"@);
        assert(".spec."@ + "rs"@ =~= ".spec.rs"@);
        assert(".spec."@ + "py"@ =~= ".spec.py"@);
        assert(".spec."@ + "go"@ =~= ".spec.go"@);
        assert(".spec."@ + "rb"@ =~= ".spec.rb"@);
        assert(".spec."@ + "java"@ =~= ".spec.java"@);
        assert(".spec."@ + "kt"@ =~= ".spec.kt"@);
    }
    r
}

fn is_generated(p: &str) -> (r: bool)
    ensures
        r == spec_is_generated(p@),
{
    let r = str_ends_with(p, ".generated.ts") || str_ends_with(p, ".generated.js")
        || str_ends_with(p, ".generated.go") || str_ends_with(p, ".generated.rs")
        || str_ends_with(p, ".generated.py") || str_ends_with(p, ".auto.ts") || str_ends_with(
        p,
        ".auto.js",
    ) || str_ends_with(p, ".auto.go") || str_ends_with(p, ".auto.rs") || str_ends_with(
        p,
        ".auto.py",
    ) || str_ends_with(p, ".pb.ts") || str_ends_with(p, ".pb.js") || str_ends_with(p, ".pb.go")
        || str_ends_with(p, ".pb.rs") || str_ends_with(p, ".pb.py") || str_eq(
        p,
        "package-lock.json",
    ) || str_eq(p, "yarn.lock") || str_eq(p, "pnpm-lock.yaml") || str_eq(p, "Cargo.lock")
        || str_eq(p, "Gemfile.lock") || str_eq(p, "poetry.lock") || str_eq(p, "composer.lock")
        || str_starts_with(p, "vendor/") || str_starts_with(p, "node_modules/")
        || str_starts_with(p, "dist/") || str_starts_with(p, "build/") || str_starts_with(
        p,
        "target/",
    ) || str_starts_with(p, "out/") || (str_contains(p, "generated/") && (str_ends_with(p, ".ts")
        || str_ends_with(p, ".tsx")));
    proof {
        reveal_strlit(".generated.");
        reveal_strlit(".auto.");
        reveal_strlit(".pb.");
        reveal_strlit("ts");
        reveal_strlit("js");
        reveal_strlit("go");
        reveal_strlit("rs");
        reveal_strlit("py");
        reveal_strlit(".generated.ts");
        reveal_strlit(".generated.js");
        reveal_strlit(".generated.go");
        reveal_strlit(".generated.rs");
        reveal_strlit(".generated.py");
        reveal_strlit(".auto.ts");
        reveal_strlit(".auto.js");
        reveal_strlit(".auto.go");
        reveal_strlit(".auto.rs");
        reveal_strlit(".auto.py");
        reveal_strlit(".pb.ts");
        reveal_strlit(".pb.js");
        reveal_strlit(".pb.go");
        reveal_strlit(".pb.rs");
        reveal_strlit(".pb.py");
        assert(".generated."@ + "ts"@ =~= ".generated.ts"@);
        assert(".generated."@ + "js"@ =~= ".generated.js"@);
        assert(".generated."@ + "go"@ =~= ".generated.go"@);
        assert(".generated."@ + "rs"@ =~= ".generated.rs"@);
        assert(".generated."@ + "py"@ =~= ".generated.py"@);
        assert(".auto."@ + "ts"@ =~= ".auto.ts"@);
        assert(".auto."@ + "js"@ =~= ".auto.js"@);
        assert(".auto."@ + "go"@ =~= ".auto.go"@);
        assert(".auto."@ + "rs"@ =~= ".auto.rs"@);
        assert(".auto."@ + "py"@ =~= ".auto.py"@);
        assert(".pb."@ + "ts"@ =~= ".pb.ts"@);
        assert(".pb."@ + "js"@ =~= ".pb.js"@);
        assert(".pb."@ + "go"@ =~= ".pb.go"@);
        assert(".pb."@ + "rs"@ =~= ".pb.rs"@);
        assert(".pb."@ + "py"@ =~= ".pb.py"@);
    }
    r
}

fn is_documentation(p: &str) -> (r: bool)
    ensures
        r == spec_is_documentation(p@),
{
    str_ends_with(p, ".md") || str_ends_with(p, ".mdx") || str_ends_with(p, ".txt")
        || str_ends_with(p, ".rst") || str_ends_with(p, ".adoc") || str_starts_with(p, "README")
        || str_starts_with(p, "CHANGELOG") || str_starts_with(p, "LICENSE") || str_starts_with(
        p,
        "CONTRIBUTING",
    ) || str_starts_with(p, "CODE_OF_CONDUCT") || str_starts_with(p, "AUTHORS")
        || str_starts_with(p, "doc/") || str_starts_with(p, "docs/") || str_starts_with(
        p,
        "documentation/",
    )
}

/// Categorizes a file by its path: the specific categories are checked
/// first, and anything unmatched is implementation.
pub fn categorize_file(path: &str) -> (r: FileCategory)
    ensures
        r.tier == spec_tier(path@),
{
    if is_project_config(path) {
        FileCategory { tier: FileTier::ProjectConfig, label: "Project Configuration".to_owned() }
    } else if is_type_definitions(path) {
        FileCategory { tier: FileTier::TypeDefinitions, label: "Type Definitions".to_owned() }
    } else if is_tests(path) {
        FileCategory { tier: FileTier::Tests, label: "Tests".to_owned() }
    } else if is_generated(path) {
        FileCategory { tier: FileTier::Generated, label: "Generated Files".to_owned() }
    } else if is_documentation(path) {
        FileCategory { tier: FileTier::Documentation, label: "Documentation".to_owned() }
    } else {
        FileCategory { tier: FileTier::Implementation, label: "Implementation".to_owned() }
    }
}

/// The change size of a file: additions plus deletions.
pub open spec fn spec_size(f: FileChangeStats) -> int {
    f.additions + f.deletions
}

/// The smart review order: by tier, then by change size (largest first),
/// then alphabetically by path.
pub open spec fn spec_smart_le(a: FileChangeStats, b: FileChangeStats) -> bool {
    let ta = spec_tier_rank(spec_tier(a.path@));
    let tb = spec_tier_rank(spec_tier(b.path@));
    if ta != tb {
        ta < tb
    } else if spec_size(a) != spec_size(b) {
        spec_size(a) > spec_size(b)
    } else {
        spec_str_le(a.path@, b.path@)
    }
}

/// Alphabetical order by path.
pub open spec fn spec_path_le(a: FileChangeStats, b: FileChangeStats) -> bool {
    spec_str_le(a.path@, b.path@)
}

/// Change size order, largest first.
pub open spec fn spec_size_ge(a: FileChangeStats, b: FileChangeStats) -> bool {
    spec_size(a) >= spec_size(b)
}

fn smart_le(a: &FileChangeStats, b: &FileChangeStats) -> (r: bool)
    ensures
        r == spec_smart_le(*a, *b),
{
    let ta = tier_rank(categorize_file(a.path.as_str()).tier);
    let tb = tier_rank(categorize_file(b.path.as_str()).tier);
    if ta != tb {
        ta < tb
    } else {
        let sa = a.additions as u64 + a.deletions as u64;
        let sb = b.additions as u64 + b.deletions as u64;
        if sa != sb {
            sa > sb
        } else {
            str_le(a.path.as_str(), b.path.as_str())
        }
    }
}

proof fn lemma_smart_le_total(a: FileChangeStats, b: FileChangeStats)
    ensures
        spec_smart_le(a, b) || spec_smart_le(b, a),
{
    lemma_str_le_total(a.path@, b.path@);
}

proof fn lemma_smart_le_trans(a: FileChangeStats, b: FileChangeStats, c: FileChangeStats)
    requires
        spec_smart_le(a, b),
        spec_smart_le(b, c),
    ensures
        spec_smart_le(a, c),
{
    if spec_tier_rank(spec_tier(a.path@)) == spec_tier_rank(spec_tier(c.path@)) && spec_size(a)
        == spec_size(c) {
        if spec_tier_rank(spec_tier(a.path@)) == spec_tier_rank(spec_tier(b.path@)) && spec_size(a)
            == spec_size(b) {
            crate::text::lemma_str_le_trans(a.path@, b.path@, c.path@);
        }
    }
}

fn path_le(a: &FileChangeStats, b: &FileChangeStats) -> (r: bool)
    ensures
        r == spec_path_le(*a, *b),
{
    str_le(a.path.as_str(), b.path.as_str())
}

fn size_ge(a: &FileChangeStats, b: &FileChangeStats) -> (r: bool)
    ensures
        r == spec_size_ge(*a, *b),
{
    let sa = a.additions as u64 + a.deletions as u64;
    let sb = b.additions as u64 + b.deletions as u64;
    sa >= sb
}

/// The size order followed by the alphabetical tie break.
pub open spec fn spec_size_path_le(a: FileChangeStats, b: FileChangeStats) -> bool {
    if spec_size(a) != spec_size(b) {
        spec_size(a) > spec_size(b)
    } else {
        spec_str_le(a.path@, b.path@)
    }
}

fn size_path_le(a: &FileChangeStats, b: &FileChangeStats) -> (r: bool)
    ensures
        r == spec_size_path_le(*a, *b),
{
    let sa = a.additions as u64 + a.deletions as u64;
    let sb = b.additions as u64 + b.deletions as u64;
    if sa != sb {
        sa > sb
    } else {
        str_le(a.path.as_str(), b.path.as_str())
    }
}

/// Two files with the same path.
pub open spec fn spec_same_path(a: FileChangeStats, b: FileChangeStats) -> bool {
    a.path@ == b.path@
}

/// A stable drawing keyed by path.
pub open spec fn spec_stable_by_path(
    r: Seq<FileChangeStats>,
    files: Seq<FileChangeStats>,
    m: Seq<int>,
) -> bool {
    spec_stable_perm(r, files, m, (|a: FileChangeStats, b: FileChangeStats| spec_same_path(a, b)))
}

/// A stable drawing keyed by change size.
pub open spec fn spec_stable_by_size(
    r: Seq<FileChangeStats>,
    files: Seq<FileChangeStats>,
    m: Seq<int>,
) -> bool {
    spec_stable_perm(r, files, m, (|a: FileChangeStats, b: FileChangeStats| spec_same_size(a, b)))
}

/// Two files with the same change size.
pub open spec fn spec_same_size(a: FileChangeStats, b: FileChangeStats) -> bool {
    spec_size(a) == spec_size(b)
}

/// Sorts files alphabetically by path: the result is exactly the input
/// files in ascending path order, and files with equal paths keep their
/// original relative order.
pub fn sort_files_alphabetical(files: Vec<FileChangeStats>) -> (r: Vec<FileChangeStats>)
    ensures
        r@.to_multiset() == files@.to_multiset(),
        sorted_by(r@, |a: FileChangeStats, b: FileChangeStats| spec_path_le(a, b)),
        exists|m: Seq<int>| #[trigger] spec_stable_by_path(r@, files@, m),
{
    let ghost files0 = files@;
    let mut rest = files;
    let mut r: Vec<FileChangeStats> = Vec::new();
    let ghost mut m: Seq<int> = Seq::empty();
    proof {
        crate::sorting::lemma_seq_empty_multiset(r@);
        assert(r@.to_multiset().add(rest@.to_multiset()) =~= rest@.to_multiset());
        assert(rest@ =~= files0.skip(0));
    }
    while rest.len() > 0
        invariant
            r@.to_multiset().add(rest@.to_multiset()) == files0.to_multiset(),
            files0.len() == r@.len() + rest@.len(),
            rest@ == files0.skip(r@.len() as int),
            forall|p: int, q: int|
                0 <= p < q < r@.len() ==> #[trigger] spec_path_le(r@[p], r@[q]),
            spec_stable_by_path(r@, files0, m),
            forall|q: int| 0 <= q < m.len() ==> #[trigger] m[q] < r@.len(),
        decreases rest@.len(),
    {
        let ghost cnt = r@.len() as int;
        proof {
            lemma_remove_multiset(rest@, 0);
            assert(rest@[0] == files0[cnt]);
        }
        let x = rest.remove(0);
        proof {
            assert(x == files0[cnt]);
            assert(rest@ =~= files0.skip(cnt + 1));
        }
        let ghost pre = r@;
        let ghost pre_m = m;
        let mut j: usize = 0;
        while j < r.len() && path_le(&r[j], &x)
            invariant
                j <= r@.len(),
                r@ == pre,
                forall|k: int| 0 <= k < j ==> spec_path_le(#[trigger] r@[k], x),
            decreases r@.len() - j,
        {
            j += 1;
        }
        let ghost jj = j as int;
        proof {
            if jj < pre.len() {
                lemma_str_le_total(pre[jj].path@, x.path@);
            }
            lemma_insert_multiset(pre, jj, x);
        }
        r.insert(j, x);
        proof {
            m = pre_m.insert(jj, cnt);
            assert(r@.to_multiset().add(rest@.to_multiset()) =~= files0.to_multiset());
            assert forall|p: int, q: int|
                0 <= p < q < r@.len() implies #[trigger] spec_path_le(r@[p], r@[q]) by {
                lemma_sorted_after_insert(pre, x, jj, p, q);
            }
            assert forall|q: int| 0 <= q < m.len() implies #[trigger] m[q] < r@.len() by {
                if q != jj {
                    let q0 = if q < jj { q } else { q - 1 };
                    assert(m[q] == pre_m[q0]);
                }
            }
            assert(spec_stable_by_path(r@, files0, m)) by {
                assert forall|q: int|
                    0 <= q < m.len() implies 0 <= #[trigger] m[q] < files0.len() && r@[q]
                    == files0[m[q]] by {
                    if q != jj {
                        let q0 = if q < jj { q } else { q - 1 };
                        assert(m[q] == pre_m[q0]);
                        assert(r@[q] == pre[q0]);
                    }
                }
                assert forall|p: int, q: int|
                    0 <= p < q < m.len() implies #[trigger] m[p] != #[trigger] m[q] by {
                    if p != jj && q != jj {
                        let p0 = if p < jj { p } else { p - 1 };
                        let q0 = if q < jj { q } else { q - 1 };
                        assert(m[p] == pre_m[p0] && m[q] == pre_m[q0]);
                    }
                }
                assert forall|p: int, q: int|
                    0 <= p < q < m.len() && spec_same_path(r@[p], r@[q]) implies #[trigger] m[p]
                    < #[trigger] m[q] by {
                    if q == jj {
                        let p0 = p;
                        assert(m[p] == pre_m[p0] && pre_m[p0] < cnt);
                    } else if p == jj {
                        // a path equal to the inserted one cannot stand
                        // after the insertion point
                        let q0 = q - 1;
                        assert(r@[q] == pre[q0]);
                        assert(!spec_path_le(pre[jj], x));
                        if q0 == jj {
                            lemma_str_le_refl(x.path@);
                        } else {
                            assert(spec_path_le(pre[jj], pre[q0]));
                        }
                        assert(false);
                    } else {
                        let p0 = if p < jj { p } else { p - 1 };
                        let q0 = q - 1;
                        if q < jj {
                            assert(m[p] == pre_m[p] && m[q] == pre_m[q]);
                        } else {
                            assert(m[q] == pre_m[q0]);
                            assert(r@[q] == pre[q0]);
                            assert(m[p] == pre_m[p0] && r@[p] == pre[p0]);
                        }
                    }
                }
            }
        }
    }
    proof {
        crate::sorting::lemma_seq_empty_multiset(rest@);
        assert(r@.to_multiset() =~= files0.to_multiset());
    }
    r
}

/// Insertion below the first strictly larger entry keeps a fully ordered
/// sequence fully ordered.
proof fn lemma_sorted_after_insert(
    pre: Seq<FileChangeStats>,
    x: FileChangeStats,
    jj: int,
    p: int,
    q: int,
)
    requires
        0 <= jj <= pre.len(),
        forall|a: int, b: int| 0 <= a < b < pre.len() ==> #[trigger] spec_path_le(pre[a], pre[b]),
        forall|k: int| 0 <= k < jj ==> spec_path_le(#[trigger] pre[k], x),
        jj < pre.len() ==> spec_path_le(x, pre[jj]),
        0 <= p < q < pre.insert(jj, x).len(),
    ensures
        spec_path_le(pre.insert(jj, x)[p], pre.insert(jj, x)[q]),
{
    let r = pre.insert(jj, x);
    if p < jj && q < jj {
        assert(r[p] == pre[p] && r[q] == pre[q]);
    } else if p < jj && q == jj {
        assert(r[p] == pre[p] && r[q] == x);
    } else if p < jj {
        assert(r[p] == pre[p] && r[q] == pre[q - 1]);
    } else if p == jj {
        assert(r[p] == x && r[q] == pre[q - 1]);
        if q - 1 == jj {
        } else {
            assert(spec_path_le(pre[jj], pre[q - 1]));
            crate::text::lemma_str_le_trans(x.path@, pre[jj].path@, pre[q - 1].path@);
        }
    } else {
        assert(r[p] == pre[p - 1] && r[q] == pre[q - 1]);
    }
}

/// Sorts files by change size, largest first: the result is exactly the
/// input files in descending size order, and files with equal sizes keep
/// their original relative order.
pub fn sort_files_by_size(files: Vec<FileChangeStats>) -> (r: Vec<FileChangeStats>)
    ensures
        r@.to_multiset() == files@.to_multiset(),
        sorted_by(r@, |a: FileChangeStats, b: FileChangeStats| spec_size_ge(a, b)),
        exists|m: Seq<int>| #[trigger] spec_stable_by_size(r@, files@, m),
{
    let ghost files0 = files@;
    let mut rest = files;
    let mut r: Vec<FileChangeStats> = Vec::new();
    let ghost mut m: Seq<int> = Seq::empty();
    proof {
        crate::sorting::lemma_seq_empty_multiset(r@);
        assert(r@.to_multiset().add(rest@.to_multiset()) =~= rest@.to_multiset());
        assert(rest@ =~= files0.skip(0));
    }
    while rest.len() > 0
        invariant
            r@.to_multiset().add(rest@.to_multiset()) == files0.to_multiset(),
            files0.len() == r@.len() + rest@.len(),
            rest@ == files0.skip(r@.len() as int),
            forall|p: int, q: int| 0 <= p < q < r@.len() ==> #[trigger] spec_size_ge(r@[p], r@[q]),
            spec_stable_by_size(r@, files0, m),
            forall|q: int| 0 <= q < m.len() ==> #[trigger] m[q] < r@.len(),
        decreases rest@.len(),
    {
        let ghost cnt = r@.len() as int;
        proof {
            lemma_remove_multiset(rest@, 0);
            assert(rest@[0] == files0[cnt]);
        }
        let x = rest.remove(0);
        proof {
            assert(x == files0[cnt]);
            assert(rest@ =~= files0.skip(cnt + 1));
        }
        let ghost pre = r@;
        let ghost pre_m = m;
        let mut j: usize = 0;
        while j < r.len() && size_ge(&r[j], &x)
            invariant
                j <= r@.len(),
                r@ == pre,
                forall|k: int| 0 <= k < j ==> spec_size_ge(#[trigger] r@[k], x),
            decreases r@.len() - j,
        {
            j += 1;
        }
        let ghost jj = j as int;
        proof {
            lemma_insert_multiset(pre, jj, x);
        }
        r.insert(j, x);
        proof {
            m = pre_m.insert(jj, cnt);
            assert(r@.to_multiset().add(rest@.to_multiset()) =~= files0.to_multiset());
            assert forall|p: int, q: int|
                0 <= p < q < r@.len() implies #[trigger] spec_size_ge(r@[p], r@[q]) by {
                if p < jj && q < jj {
                    assert(r@[p] == pre[p] && r@[q] == pre[q]);
                } else if p < jj && q == jj {
                    assert(r@[p] == pre[p] && r@[q] == x);
                } else if p < jj {
                    assert(r@[p] == pre[p] && r@[q] == pre[q - 1]);
                } else if p == jj {
                    assert(r@[p] == x && r@[q] == pre[q - 1]);
                    if q - 1 > jj {
                        assert(spec_size_ge(pre[jj], pre[q - 1]));
                    }
                } else {
                    assert(r@[p] == pre[p - 1] && r@[q] == pre[q - 1]);
                }
            }
            assert forall|q: int| 0 <= q < m.len() implies #[trigger] m[q] < r@.len() by {
                if q != jj {
                    let q0 = if q < jj { q } else { q - 1 };
                    assert(m[q] == pre_m[q0]);
                }
            }
            assert(spec_stable_by_size(r@, files0, m)) by {
                assert forall|q: int|
                    0 <= q < m.len() implies 0 <= #[trigger] m[q] < files0.len() && r@[q]
                    == files0[m[q]] by {
                    if q != jj {
                        let q0 = if q < jj { q } else { q - 1 };
                        assert(m[q] == pre_m[q0]);
                        assert(r@[q] == pre[q0]);
                    }
                }
                assert forall|p: int, q: int|
                    0 <= p < q < m.len() implies #[trigger] m[p] != #[trigger] m[q] by {
                    if p != jj && q != jj {
                        let p0 = if p < jj { p } else { p - 1 };
                        let q0 = if q < jj { q } else { q - 1 };
                        assert(m[p] == pre_m[p0] && m[q] == pre_m[q0]);
                    }
                }
                assert forall|p: int, q: int|
                    0 <= p < q < m.len() && spec_same_size(r@[p], r@[q]) implies #[trigger] m[p]
                    < #[trigger] m[q] by {
                    if q == jj {
                        assert(m[p] == pre_m[p] && pre_m[p] < cnt);
                    } else if p == jj {
                        // a size equal to the inserted one cannot stand
                        // after the insertion point
                        let q0 = q - 1;
                        assert(r@[q] == pre[q0]);
                        assert(!spec_size_ge(pre[jj], x));
                        if q0 > jj {
                            assert(spec_size_ge(pre[jj], pre[q0]));
                        }
                        assert(false);
                    } else {
                        let p0 = if p < jj { p } else { p - 1 };
                        let q0 = q - 1;
                        if q < jj {
                            assert(m[p] == pre_m[p] && m[q] == pre_m[q]);
                        } else {
                            assert(m[q] == pre_m[q0]);
                            assert(r@[q] == pre[q0]);
                            assert(m[p] == pre_m[p0] && r@[p] == pre[p0]);
                        }
                    }
                }
            }
        }
    }
    proof {
        crate::sorting::lemma_seq_empty_multiset(rest@);
        assert(r@.to_multiset() =~= files0.to_multiset());
    }
    r
}

/// Sorts by the full smart order: tier, then size, then path.
fn sort_smart_order(files: Vec<FileChangeStats>) -> (r: Vec<FileChangeStats>)
    ensures
        r@.to_multiset() == files@.to_multiset(),
        forall|p: int, q: int| 0 <= p < q < r@.len() ==> #[trigger] spec_smart_le(r@[p], r@[q]),
{
    let ghost files0 = files@;
    let mut rest = files;
    let mut r: Vec<FileChangeStats> = Vec::new();
    proof {
        crate::sorting::lemma_seq_empty_multiset(r@);
        assert(r@.to_multiset().add(rest@.to_multiset()) =~= rest@.to_multiset());
    }
    while rest.len() > 0
        invariant
            r@.to_multiset().add(rest@.to_multiset()) == files0.to_multiset(),
            forall|p: int, q: int| 0 <= p < q < r@.len() ==> #[trigger] spec_smart_le(r@[p], r@[q]),
        decreases rest@.len(),
    {
        proof {
            lemma_remove_multiset(rest@, 0);
        }
        let x = rest.remove(0);
        let ghost pre = r@;
        let mut j: usize = 0;
        while j < r.len() && smart_le(&r[j], &x)
            invariant
                j <= r@.len(),
                r@ == pre,
                forall|k: int| 0 <= k < j ==> spec_smart_le(#[trigger] r@[k], x),
            decreases r@.len() - j,
        {
            j += 1;
        }
        let ghost jj = j as int;
        proof {
            if jj < pre.len() {
                lemma_smart_le_total(pre[jj], x);
            }
            lemma_insert_multiset(pre, jj, x);
        }
        r.insert(j, x);
        proof {
            assert(r@.to_multiset().add(rest@.to_multiset()) =~= files0.to_multiset());
            assert forall|p: int, q: int|
                0 <= p < q < r@.len() implies #[trigger] spec_smart_le(r@[p], r@[q]) by {
                if p < jj && q < jj {
                    assert(r@[p] == pre[p] && r@[q] == pre[q]);
                } else if p < jj && q == jj {
                    assert(r@[p] == pre[p] && r@[q] == x);
                } else if p < jj {
                    assert(r@[p] == pre[p] && r@[q] == pre[q - 1]);
                } else if p == jj {
                    assert(r@[p] == x && r@[q] == pre[q - 1]);
                    if q - 1 > jj {
                        assert(spec_smart_le(pre[jj], pre[q - 1]));
                        lemma_smart_le_trans(x, pre[jj], pre[q - 1]);
                    }
                } else {
                    assert(r@[p] == pre[p - 1] && r@[q] == pre[q - 1]);
                }
            }
        }
    }
    proof {
        crate::sorting::lemma_seq_empty_multiset(rest@);
        assert(r@.to_multiset() =~= files0.to_multiset());
    }
    r
}

/// Strips every repetition of a suffix off the end.
fn strip_all_suffix(s: &str, suf: &str) -> (r: String)
    ensures
        r@.len() <= s@.len(),
{
    let sn = suf.unicode_len();
    if sn == 0 {
        let mut out = String::new();
        out.append(s);
        proof {
            assert(out@ =~= s@);
        }
        return out;
    }
    let mut end = s.unicode_len();
    proof {
        assert(s@.len() <= s@.len());
    }
    loop
        invariant
            end <= s@.len(),
            sn == suf@.len(),
            sn >= 1,
        decreases end,
    {
        if end < sn {
            break ;
        }
        let mut m = true;
        let mut k: usize = 0;
        while k < sn
            invariant
                k <= sn,
                sn <= end <= s@.len(),
                sn == suf@.len(),
            decreases sn - k,
        {
            if s.get_char(end - sn + k) != suf.get_char(k) {
                m = false;
                k = sn;
            } else {
                k += 1;
            }
        }
        if m {
            end = end - sn;
        } else {
            break ;
        }
    }
    let mut out = String::new();
    let mut i: usize = 0;
    while i < end
        invariant
            end <= s@.len(),
            i <= end,
            out@.len() == i,
        decreases end - i,
    {
        crate::text::push_char(&mut out, s.get_char(i));
        i += 1;
    }
    out
}

/// The base name of an implementation file: the path with its code
/// extension stripped.
fn impl_base_name(p: &str) -> String {
    let mut cur = strip_all_suffix(p, ".ts");
    cur = strip_all_suffix(cur.as_str(), ".tsx");
    cur = strip_all_suffix(cur.as_str(), ".js");
    cur = strip_all_suffix(cur.as_str(), ".jsx");
    cur = strip_all_suffix(cur.as_str(), ".rs");
    cur = strip_all_suffix(cur.as_str(), ".py");
    cur = strip_all_suffix(cur.as_str(), ".go");
    cur = strip_all_suffix(cur.as_str(), ".java");
    cur = strip_all_suffix(cur.as_str(), ".kt");
    cur = strip_all_suffix(cur.as_str(), ".rb");
    cur
}

/// The base name of a test file: the path with its test suffix stripped.
fn test_base_name(p: &str) -> String {
    let mut cur = strip_all_suffix(p, ".test.ts");
    cur = strip_all_suffix(cur.as_str(), ".test.tsx");
    cur = strip_all_suffix(cur.as_str(), ".test.js");
    cur = strip_all_suffix(cur.as_str(), ".test.jsx");
    cur = strip_all_suffix(cur.as_str(), ".spec.ts");
    cur = strip_all_suffix(cur.as_str(), ".spec.tsx");
    cur = strip_all_suffix(cur.as_str(), ".spec.js");
    cur = strip_all_suffix(cur.as_str(), ".spec.jsx");
    cur = strip_all_suffix(cur.as_str(), "_test.rs");
    cur = strip_all_suffix(cur.as_str(), "_test.py");
    cur = strip_all_suffix(cur.as_str(), "_test.go");
    cur = strip_all_suffix(cur.as_str(), "_spec.rb");
    cur = strip_all_suffix(cur.as_str(), "Test.java");
    cur = strip_all_suffix(cur.as_str(), "Test.kt");
    cur = strip_all_suffix(cur.as_str(), "Tests.swift");
    cur
}

/// The final path component: everything after the last slash.
fn last_component(p: &str) -> String {
    let n = p.unicode_len();
    let mut start: usize = 0;
    let mut i: usize = 0;
    while i < n
        invariant
            i <= n,
            n == p@.len(),
            start <= i,
        decreases n - i,
    {
        if p.get_char(i) == '/' {
            start = i + 1;
        }
        i += 1;
    }
    let mut out = String::new();
    let mut j = start;
    while j < n
        invariant
            start <= j <= n,
            n == p@.len(),
        decreases n - j,
    {
        crate::text::push_char(&mut out, p.get_char(j));
        j += 1;
    }
    out
}

/// Looks for a not-yet-paired test whose base name matches the
/// implementation file's base name, exactly or by final component.
fn find_matching_test_idx(impl_path: &str, tests: &Vec<Option<FileChangeStats>>) -> (r: Option<
    usize,
>)
    ensures
        (match r {
            Some(j) => j < tests@.len() && tests@[j as int] is Some,
            None => true,
        }),
{
    let base = impl_base_name(impl_path);
    let mut suffix = "/".to_owned();
    let lc = last_component(base.as_str());
    suffix.append(lc.as_str());
    let mut j: usize = 0;
    while j < tests.len()
        invariant
            j <= tests@.len(),
        decreases tests@.len() - j,
    {
        match &tests[j] {
            Some(t) => {
                let tb = test_base_name(t.path.as_str());
                if str_eq(tb.as_str(), base.as_str()) || str_ends_with(
                    tb.as_str(),
                    suffix.as_str(),
                ) {
                    return Some(j);
                }
            },
            None => {},
        }
        j += 1;
    }
    None
}

/// The non-test entries of a sequence, in their order.
pub open spec fn spec_non_tests(s: Seq<FileChangeStats>) -> Seq<FileChangeStats> {
    s.filter(|f: FileChangeStats| spec_tier(f.path@) != FileTier::Tests)
}

/// Ordered by the smart order, adjacent entry by adjacent entry.
pub open spec fn spec_smart_sorted(s: Seq<FileChangeStats>) -> bool {
    sorted_by(s, |a: FileChangeStats, b: FileChangeStats| spec_smart_le(a, b))
}

proof fn lemma_non_tests_mem(d: Seq<FileChangeStats>, i: int)
    requires
        0 <= i < spec_non_tests(d).len(),
    ensures
        exists|k: int| 0 <= k < d.len() && #[trigger] d[k] == spec_non_tests(d)[i],
    decreases d.len(),
{
    reveal(Seq::filter);
    let fd = spec_non_tests(d);
    let fdd = spec_non_tests(d.drop_last());
    if spec_tier(d.last().path@) != FileTier::Tests {
        if i < fdd.len() {
            lemma_non_tests_mem(d.drop_last(), i);
            let k = choose|k: int|
                0 <= k < d.drop_last().len() && #[trigger] d.drop_last()[k] == fdd[i];
            assert(d[k] == fd[i]);
        } else {
            assert(d[d.len() - 1] == fd[i]);
        }
    } else {
        lemma_non_tests_mem(d.drop_last(), i);
        let k = choose|k: int|
            0 <= k < d.drop_last().len() && #[trigger] d.drop_last()[k] == fdd[i];
        assert(d[k] == fd[i]);
    }
}

/// Filtering a fully smart-ordered sequence to its non-test entries
/// leaves a smart-ordered sequence.
proof fn lemma_non_tests_sorted(s: Seq<FileChangeStats>)
    requires
        forall|p: int, q: int| 0 <= p < q < s.len() ==> #[trigger] spec_smart_le(s[p], s[q]),
    ensures
        spec_smart_sorted(spec_non_tests(s)),
    decreases s.len(),
{
    reveal(Seq::filter);
    broadcast use vstd::seq_lib::group_seq_properties;

    if s.len() == 0 {
    } else {
        let d = s.drop_last();
        assert forall|p: int, q: int|
            0 <= p < q < d.len() implies #[trigger] spec_smart_le(d[p], d[q]) by {
            assert(d[p] == s[p] && d[q] == s[q]);
        }
        lemma_non_tests_sorted(d);
        let fd = spec_non_tests(d);
        if spec_tier(s.last().path@) != FileTier::Tests {
            assert(spec_non_tests(s) == fd.push(s.last()));
            assert forall|i: int|
                0 <= i < spec_non_tests(s).len() - 1 implies spec_smart_le(
                #[trigger] spec_non_tests(s)[i],
                spec_non_tests(s)[i + 1],
            ) by {
                if i + 1 < fd.len() {
                    assert(spec_non_tests(s)[i] == fd[i]);
                    assert(spec_non_tests(s)[i + 1] == fd[i + 1]);
                    assert(spec_smart_sorted(fd));
                } else {
                    assert(spec_non_tests(s)[i] == fd[i]);
                    lemma_non_tests_mem(d, i);
                    let k = choose|k: int| 0 <= k < d.len() && #[trigger] d[k] == fd[i];
                    assert(s[k] == fd[i]);
                    assert(spec_smart_le(s[k], s.last()));
                }
            }
        } else {
            assert(spec_non_tests(s) == fd);
        }
    }
}

/// Smart review ordering: the result is exactly the input files; its
/// non-test entries are ordered by tier, then change size (largest
/// first), then path; each implementation file's matched test follows it,
/// and the remaining tests close the sequence.
pub fn sort_files_smart(files: Vec<FileChangeStats>) -> (r: Vec<FileChangeStats>)
    ensures
        r@.to_multiset() == files@.to_multiset(),
        spec_smart_sorted(spec_non_tests(r@)),
{
    let ghost orig_ms = files@.to_multiset();
    let sorted = sort_smart_order(files);
    let ghost sorted0 = sorted@;
    proof {
        lemma_non_tests_sorted(sorted0);
    }
    let mut rest = sorted;
    let mut nontests: Vec<FileChangeStats> = Vec::new();
    let mut tests: Vec<Option<FileChangeStats>> = Vec::new();
    proof {
        crate::sorting::lemma_seq_empty_multiset(nontests@);
        assert(opts_ms(tests@) =~= Multiset::<FileChangeStats>::empty());
        assert(nontests@.to_multiset().add(opts_ms(tests@)).add(rest@.to_multiset())
            =~= rest@.to_multiset());
        reveal(Seq::filter);
        assert(spec_non_tests(nontests@) =~= Seq::<FileChangeStats>::empty());
        assert(spec_non_tests(sorted0) =~= nontests@ + spec_non_tests(rest@));
    }
    while rest.len() > 0
        invariant
            nontests@.to_multiset().add(opts_ms(tests@)).add(rest@.to_multiset()) == orig_ms,
            spec_non_tests(sorted0) == nontests@ + spec_non_tests(rest@),
            forall|q: int|
                0 <= q < nontests@.len() ==> spec_tier((#[trigger] nontests@[q]).path@)
                    != FileTier::Tests,
            forall|k: int|
                0 <= k < tests@.len() && (#[trigger] tests@[k]) is Some ==> spec_tier(
                    tests@[k].unwrap().path@,
                ) == FileTier::Tests,
        decreases rest@.len(),
    {
        proof {
            lemma_remove_multiset(rest@, 0);
        }
        let ghost rest0 = rest@;
        let f = rest.remove(0);
        proof {
            reveal(Seq::filter);
            assert(rest0 =~= seq![f] + rest@);
            Seq::filter_distributes_over_add(
                seq![f],
                rest@,
                |x: FileChangeStats| spec_tier(x.path@) != FileTier::Tests,
            );
            assert(seq![f].drop_last() =~= Seq::<FileChangeStats>::empty());
        }
        let tier = categorize_file(f.path.as_str()).tier;
        if tier == FileTier::Tests {
            proof {
                reveal_with_fuel(Seq::filter, 3);
                assert(spec_non_tests(Seq::<FileChangeStats>::empty())
                    =~= Seq::<FileChangeStats>::empty());
                assert(seq![f].drop_last() =~= Seq::<FileChangeStats>::empty());
                assert(spec_non_tests(seq![f]) =~= Seq::<FileChangeStats>::empty());
                assert(spec_non_tests(rest0) =~= spec_non_tests(rest@));
            }
            let ghost pre = tests@;
            tests.push(Some(f));
            proof {
                assert(tests@.drop_last() =~= pre);
                assert(opts_ms(tests@) == opts_ms(pre).insert(f));
                assert(nontests@.to_multiset().add(opts_ms(tests@)).add(rest@.to_multiset())
                    =~= orig_ms);
            }
        } else {
            proof {
                reveal_with_fuel(Seq::filter, 3);
                assert(spec_non_tests(Seq::<FileChangeStats>::empty())
                    =~= Seq::<FileChangeStats>::empty());
                assert(seq![f].drop_last() =~= Seq::<FileChangeStats>::empty());
                assert(spec_non_tests(seq![f]) =~= seq![f]);
                assert(spec_non_tests(rest0) =~= seq![f] + spec_non_tests(rest@));
                lemma_insert_multiset(nontests@, nontests@.len() as int, f);
                assert(nontests@.insert(nontests@.len() as int, f) =~= nontests@.push(f));
            }
            nontests.push(f);
            proof {
                assert(nontests@.to_multiset().add(opts_ms(tests@)).add(rest@.to_multiset())
                    =~= orig_ms);
                assert(spec_non_tests(sorted0) =~= nontests@ + spec_non_tests(rest@));
            }
        }
    }
    let ghost nt0 = nontests@;
    proof {
        crate::sorting::lemma_seq_empty_multiset(rest@);
        reveal(Seq::filter);
        assert(spec_non_tests(rest@) =~= Seq::<FileChangeStats>::empty());
        assert(nt0 =~= spec_non_tests(sorted0));
        assert(spec_smart_sorted(nt0));
    }
    let mut result: Vec<FileChangeStats> = Vec::new();
    proof {
        crate::sorting::lemma_seq_empty_multiset(result@);
        crate::sorting::lemma_seq_empty_multiset(rest@);
        assert(result@.to_multiset().add(opts_ms(tests@)).add(nontests@.to_multiset())
            =~= nontests@.to_multiset().add(opts_ms(tests@)).add(rest@.to_multiset()));
        reveal(Seq::filter);
        assert(spec_non_tests(result@) =~= nt0.take(0));
        assert(nontests@ =~= nt0.skip(0));
    }
    while nontests.len() > 0
        invariant
            result@.to_multiset().add(opts_ms(tests@)).add(nontests@.to_multiset()) == orig_ms,
            nontests@.len() <= nt0.len(),
            nontests@ == nt0.skip(nt0.len() - nontests@.len()),
            spec_non_tests(result@) == nt0.take(nt0.len() - nontests@.len()),
            forall|q: int|
                0 <= q < nt0.len() ==> spec_tier((#[trigger] nt0[q]).path@) != FileTier::Tests,
            forall|k: int|
                0 <= k < tests@.len() && (#[trigger] tests@[k]) is Some ==> spec_tier(
                    tests@[k].unwrap().path@,
                ) == FileTier::Tests,
        decreases nontests@.len(),
    {
        let ghost k = nt0.len() - nontests@.len();
        proof {
            lemma_remove_multiset(nontests@, 0);
            assert(nontests@[0] == nt0[k]);
        }
        let f = nontests.remove(0);
        proof {
            assert(f == nt0[k]);
            assert(nontests@ =~= nt0.skip(k + 1));
        }
        let is_impl = categorize_file(f.path.as_str()).tier == FileTier::Implementation;
        let mut paired: Option<FileChangeStats> = None;
        if is_impl {
            match find_matching_test_idx(f.path.as_str(), &tests) {
                Some(j) => {
                    let mut slot: Option<FileChangeStats> = None;
                    proof {
                        lemma_opts_ms_take(tests@, j as int);
                    }
                    tests.set_and_swap(j, &mut slot);
                    paired = slot;
                },
                None => {},
            }
        }
        let ghost pre_result = result@;
        proof {
            lemma_insert_multiset(result@, result@.len() as int, f);
            assert(result@.insert(result@.len() as int, f) =~= result@.push(f));
        }
        result.push(f);
        proof {
            reveal(Seq::filter);
            assert(result@.drop_last() =~= pre_result);
            assert(spec_tier(f.path@) != FileTier::Tests);
            assert(spec_non_tests(result@) == spec_non_tests(pre_result).push(f));
            assert(spec_non_tests(result@) =~= nt0.take(k + 1));
        }
        match paired {
            Some(t) => {
                let ghost pre2 = result@;
                proof {
                    lemma_insert_multiset(result@, result@.len() as int, t);
                    assert(result@.insert(result@.len() as int, t) =~= result@.push(t));
                }
                result.push(t);
                proof {
                    reveal(Seq::filter);
                    assert(result@.drop_last() =~= pre2);
                    assert(spec_tier(t.path@) == FileTier::Tests);
                    assert(spec_non_tests(result@) == spec_non_tests(pre2));
                    assert(result@.to_multiset().add(opts_ms(tests@)).add(nontests@.to_multiset())
                        =~= orig_ms);
                }
            },
            None => {
                proof {
                    assert(result@.to_multiset().add(opts_ms(tests@)).add(nontests@.to_multiset())
                        =~= orig_ms);
                }
            },
        }
    }
    proof {
        crate::sorting::lemma_seq_empty_multiset(nontests@);
        assert(result@.to_multiset().add(opts_ms(tests@)) =~= orig_ms);
        assert(nt0.take(nt0.len() as int) =~= nt0);
        assert(spec_non_tests(result@) == nt0);
    }
    let mut k: usize = 0;
    while k < tests.len()
        invariant
            k <= tests@.len(),
            result@.to_multiset().add(opts_ms(tests@)) == orig_ms,
            spec_non_tests(result@) == nt0,
            forall|i: int| 0 <= i < k ==> tests@[i] is None,
            forall|i: int|
                0 <= i < tests@.len() && (#[trigger] tests@[i]) is Some ==> spec_tier(
                    tests@[i].unwrap().path@,
                ) == FileTier::Tests,
        decreases tests@.len() - k,
    {
        let mut slot: Option<FileChangeStats> = None;
        proof {
            if tests@[k as int] is Some {
                lemma_opts_ms_take(tests@, k as int);
            } else {
                assert(tests@.update(k as int, None) =~= tests@);
            }
        }
        tests.set_and_swap(k, &mut slot);
        match slot {
            Some(t) => {
                let ghost pre_result = result@;
                proof {
                    lemma_insert_multiset(result@, result@.len() as int, t);
                    assert(result@.insert(result@.len() as int, t) =~= result@.push(t));
                }
                result.push(t);
                proof {
                    reveal(Seq::filter);
                    assert(result@.drop_last() =~= pre_result);
                    assert(spec_tier(t.path@) == FileTier::Tests);
                    assert(spec_non_tests(result@) == spec_non_tests(pre_result));
                    assert(result@.to_multiset().add(opts_ms(tests@)) =~= orig_ms);
                }
            },
            None => {},
        }
        k += 1;
    }
    proof {
        lemma_opts_all_none(tests@);
        assert(result@.to_multiset() =~= orig_ms);
    }
    result
}

proof fn lemma_opts_all_none<T>(s: Seq<Option<T>>)
    requires
        forall|i: int| 0 <= i < s.len() ==> s[i] is None,
    ensures
        opts_ms(s) == Multiset::<T>::empty(),
    decreases s.len(),
{
    if s.len() > 0 {
        lemma_opts_all_none(s.drop_last());
    }
}

/// Tier order between two files.
pub open spec fn spec_tier_le(a: FileChangeStats, b: FileChangeStats) -> bool {
    spec_tier_rank(spec_tier(a.path@)) <= spec_tier_rank(spec_tier(b.path@))
}

/// Ordered by tier, adjacent entry by adjacent entry.
pub open spec fn spec_tier_ordered(s: Seq<FileChangeStats>) -> bool {
    sorted_by(s, |a: FileChangeStats, b: FileChangeStats| spec_tier_le(a, b))
}

/// Smart ordering with dependency awareness inside the implementation
/// tier: the result is exactly the input files; its non-test entries are
/// emitted in tier order (configuration, types, implementation,
/// generated, documentation); implementation files are ordered by their
/// import dependencies, other tiers by size and path, and each
/// implementation file's matched test follows it.
pub fn sort_files_smart_dependencies(
    files: Vec<FileChangeStats>,
    file_contents: &Vec<(String, String)>,
) -> (r: Vec<FileChangeStats>)
    ensures
        r@.to_multiset() == files@.to_multiset(),
        spec_tier_ordered(spec_non_tests(r@)),
{
    let ghost orig_ms = files@.to_multiset();
    let mut rest = files;
    let mut tier0: Vec<FileChangeStats> = Vec::new();
    let mut tier1: Vec<FileChangeStats> = Vec::new();
    let mut tier2: Vec<FileChangeStats> = Vec::new();
    let mut tests: Vec<Option<FileChangeStats>> = Vec::new();
    let mut tier4: Vec<FileChangeStats> = Vec::new();
    let mut tier5: Vec<FileChangeStats> = Vec::new();
    proof {
        crate::sorting::lemma_seq_empty_multiset(tier0@);
        assert(opts_ms(tests@) =~= Multiset::<FileChangeStats>::empty());
        assert(tier0@.to_multiset().add(tier1@.to_multiset()).add(tier2@.to_multiset()).add(
            opts_ms(tests@),
        ).add(tier4@.to_multiset()).add(tier5@.to_multiset()).add(rest@.to_multiset())
            =~= rest@.to_multiset());
    }
    while rest.len() > 0
        invariant
            tier0@.to_multiset().add(tier1@.to_multiset()).add(tier2@.to_multiset()).add(
                opts_ms(tests@),
            ).add(tier4@.to_multiset()).add(tier5@.to_multiset()).add(rest@.to_multiset())
                == orig_ms,
            forall|q: int|
                0 <= q < tier0@.len() ==> spec_tier((#[trigger] tier0@[q]).path@)
                    == FileTier::ProjectConfig,
            forall|q: int|
                0 <= q < tier1@.len() ==> spec_tier((#[trigger] tier1@[q]).path@)
                    == FileTier::TypeDefinitions,
            forall|q: int|
                0 <= q < tier2@.len() ==> spec_tier((#[trigger] tier2@[q]).path@)
                    == FileTier::Implementation,
            forall|q: int|
                0 <= q < tier4@.len() ==> spec_tier((#[trigger] tier4@[q]).path@)
                    == FileTier::Generated,
            forall|q: int|
                0 <= q < tier5@.len() ==> spec_tier((#[trigger] tier5@[q]).path@)
                    == FileTier::Documentation,
            forall|k: int|
                0 <= k < tests@.len() && (#[trigger] tests@[k]) is Some ==> spec_tier(
                    tests@[k].unwrap().path@,
                ) == FileTier::Tests,
        decreases rest@.len(),
    {
        proof {
            lemma_remove_multiset(rest@, 0);
        }
        let f = rest.remove(0);
        let tier = categorize_file(f.path.as_str()).tier;
        if tier == FileTier::Tests {
            let ghost pre = tests@;
            tests.push(Some(f));
            proof {
                assert(tests@.drop_last() =~= pre);
                assert(opts_ms(tests@) == opts_ms(pre).insert(f));
            }
        } else {
            let target: &mut Vec<FileChangeStats> = if tier == FileTier::ProjectConfig {
                &mut tier0
            } else if tier == FileTier::TypeDefinitions {
                &mut tier1
            } else if tier == FileTier::Implementation {
                &mut tier2
            } else if tier == FileTier::Generated {
                &mut tier4
            } else {
                &mut tier5
            };
            proof {
                lemma_insert_multiset(target@, target@.len() as int, f);
                assert(target@.insert(target@.len() as int, f) =~= target@.push(f));
            }
            target.push(f);
        }
        proof {
            assert(tier0@.to_multiset().add(tier1@.to_multiset()).add(tier2@.to_multiset()).add(
                opts_ms(tests@),
            ).add(tier4@.to_multiset()).add(tier5@.to_multiset()).add(rest@.to_multiset())
                =~= orig_ms);
        }
    }
    let ghost t0pre = tier0@;
    let ghost t1pre = tier1@;
    let ghost t2pre = tier2@;
    let ghost t4pre = tier4@;
    let ghost t5pre = tier5@;
    let tier0 = sort_by_size_then_path(tier0);
    let tier1 = sort_by_size_then_path(tier1);
    let tier2 = if tier2.len() > 1 {
        crate::dependency_graph::sort_by_dependencies(tier2, file_contents)
    } else {
        tier2
    };
    let tier4 = sort_by_size_then_path(tier4);
    let tier5 = sort_by_size_then_path(tier5);
    proof {
        assert forall|q: int|
            0 <= q < tier0@.len() implies spec_tier((#[trigger] tier0@[q]).path@)
            == FileTier::ProjectConfig by {
            crate::sorting::lemma_ms_element(tier0@, t0pre, q);
        }
        assert forall|q: int|
            0 <= q < tier1@.len() implies spec_tier((#[trigger] tier1@[q]).path@)
            == FileTier::TypeDefinitions by {
            crate::sorting::lemma_ms_element(tier1@, t1pre, q);
        }
        assert forall|q: int|
            0 <= q < tier2@.len() implies spec_tier((#[trigger] tier2@[q]).path@)
            == FileTier::Implementation by {
            crate::sorting::lemma_ms_element(tier2@, t2pre, q);
        }
        assert forall|q: int|
            0 <= q < tier4@.len() implies spec_tier((#[trigger] tier4@[q]).path@)
            == FileTier::Generated by {
            crate::sorting::lemma_ms_element(tier4@, t4pre, q);
        }
        assert forall|q: int|
            0 <= q < tier5@.len() implies spec_tier((#[trigger] tier5@[q]).path@)
            == FileTier::Documentation by {
            crate::sorting::lemma_ms_element(tier5@, t5pre, q);
        }
    }
    let mut result: Vec<FileChangeStats> = Vec::new();
    proof {
        crate::sorting::lemma_seq_empty_multiset(result@);
        crate::sorting::lemma_seq_empty_multiset(rest@);
        reveal(Seq::filter);
    }
    let ghost block0 = tier0@;
    let mut rest = tier0;
    proof {
        assert(result@.to_multiset().add(rest@.to_multiset()).add(tier1@.to_multiset()).add(
            tier2@.to_multiset(),
        ).add(opts_ms(tests@)).add(tier4@.to_multiset()).add(tier5@.to_multiset()) =~= orig_ms);
        assert(spec_non_tests(result@) =~= block0.take(0));
        assert(rest@ =~= block0.skip(0));
    }
    while rest.len() > 0
        invariant
            result@.to_multiset().add(rest@.to_multiset()).add(tier1@.to_multiset()).add(
                tier2@.to_multiset(),
            ).add(opts_ms(tests@)).add(tier4@.to_multiset()).add(tier5@.to_multiset()) == orig_ms,
            rest@.len() <= block0.len(),
            rest@ == block0.skip(block0.len() - rest@.len()),
            spec_non_tests(result@) == block0.take(block0.len() - rest@.len()),
            forall|q: int|
                0 <= q < block0.len() ==> spec_tier((#[trigger] block0[q]).path@)
                    == FileTier::ProjectConfig,
        decreases rest@.len(),
    {
        let ghost k = block0.len() - rest@.len();
        proof {
            lemma_remove_multiset(rest@, 0);
            assert(rest@[0] == block0[k]);
            lemma_insert_multiset(result@, result@.len() as int, rest@[0]);
            assert(result@.insert(result@.len() as int, rest@[0]) =~= result@.push(rest@[0]));
        }
        let ghost pre_result = result@;
        let f = rest.remove(0);
        result.push(f);
        proof {
            reveal(Seq::filter);
            assert(f == block0[k]);
            assert(rest@ =~= block0.skip(k + 1));
            assert(result@.drop_last() =~= pre_result);
            assert(spec_tier(f.path@) != FileTier::Tests);
            assert(spec_non_tests(result@) == spec_non_tests(pre_result).push(f));
            assert(spec_non_tests(result@) =~= block0.take(k + 1));
            assert(result@.to_multiset().add(rest@.to_multiset()).add(tier1@.to_multiset()).add(
                tier2@.to_multiset(),
            ).add(opts_ms(tests@)).add(tier4@.to_multiset()).add(tier5@.to_multiset()) =~= orig_ms);
        }
    }
    let ghost done0 = spec_non_tests(result@);
    proof {
        crate::sorting::lemma_seq_empty_multiset(rest@);
        assert(done0 =~= block0);
    }
    let ghost block1 = tier1@;
    let mut rest = tier1;
    proof {
        assert(result@.to_multiset().add(rest@.to_multiset()).add(tier2@.to_multiset()).add(
            opts_ms(tests@),
        ).add(tier4@.to_multiset()).add(tier5@.to_multiset()) =~= orig_ms);
        assert(spec_non_tests(result@) =~= done0 + block1.take(0));
        assert(rest@ =~= block1.skip(0));
    }
    while rest.len() > 0
        invariant
            result@.to_multiset().add(rest@.to_multiset()).add(tier2@.to_multiset()).add(
                opts_ms(tests@),
            ).add(tier4@.to_multiset()).add(tier5@.to_multiset()) == orig_ms,
            rest@.len() <= block1.len(),
            rest@ == block1.skip(block1.len() - rest@.len()),
            spec_non_tests(result@) == done0 + block1.take(block1.len() - rest@.len()),
            forall|q: int|
                0 <= q < block1.len() ==> spec_tier((#[trigger] block1[q]).path@)
                    == FileTier::TypeDefinitions,
        decreases rest@.len(),
    {
        let ghost k = block1.len() - rest@.len();
        proof {
            lemma_remove_multiset(rest@, 0);
            assert(rest@[0] == block1[k]);
            lemma_insert_multiset(result@, result@.len() as int, rest@[0]);
            assert(result@.insert(result@.len() as int, rest@[0]) =~= result@.push(rest@[0]));
        }
        let ghost pre_result = result@;
        let f = rest.remove(0);
        result.push(f);
        proof {
            reveal(Seq::filter);
            assert(f == block1[k]);
            assert(rest@ =~= block1.skip(k + 1));
            assert(result@.drop_last() =~= pre_result);
            assert(spec_tier(f.path@) != FileTier::Tests);
            assert(spec_non_tests(result@) == spec_non_tests(pre_result).push(f));
            assert(spec_non_tests(result@) =~= done0 + block1.take(k + 1));
            assert(result@.to_multiset().add(rest@.to_multiset()).add(tier2@.to_multiset()).add(
                opts_ms(tests@),
            ).add(tier4@.to_multiset()).add(tier5@.to_multiset()) =~= orig_ms);
        }
    }
    let ghost done1 = spec_non_tests(result@);
    proof {
        crate::sorting::lemma_seq_empty_multiset(rest@);
        assert(done1 =~= done0 + block1);
    }
    let ghost block2 = tier2@;
    let mut rest = tier2;
    proof {
        assert(result@.to_multiset().add(rest@.to_multiset()).add(opts_ms(tests@)).add(
            tier4@.to_multiset(),
        ).add(tier5@.to_multiset()) =~= orig_ms);
        assert(spec_non_tests(result@) =~= done1 + block2.take(0));
        assert(rest@ =~= block2.skip(0));
    }
    while rest.len() > 0
        invariant
            result@.to_multiset().add(rest@.to_multiset()).add(opts_ms(tests@)).add(
                tier4@.to_multiset(),
            ).add(tier5@.to_multiset()) == orig_ms,
            rest@.len() <= block2.len(),
            rest@ == block2.skip(block2.len() - rest@.len()),
            spec_non_tests(result@) == done1 + block2.take(block2.len() - rest@.len()),
            forall|q: int|
                0 <= q < block2.len() ==> spec_tier((#[trigger] block2[q]).path@)
                    == FileTier::Implementation,
            forall|k: int|
                0 <= k < tests@.len() && (#[trigger] tests@[k]) is Some ==> spec_tier(
                    tests@[k].unwrap().path@,
                ) == FileTier::Tests,
        decreases rest@.len(),
    {
        let ghost k = block2.len() - rest@.len();
        proof {
            lemma_remove_multiset(rest@, 0);
            assert(rest@[0] == block2[k]);
        }
        let f = rest.remove(0);
        proof {
            assert(f == block2[k]);
            assert(rest@ =~= block2.skip(k + 1));
        }
        let mut paired: Option<FileChangeStats> = None;
        match find_matching_test_idx(f.path.as_str(), &tests) {
            Some(j) => {
                let mut slot: Option<FileChangeStats> = None;
                proof {
                    lemma_opts_ms_take(tests@, j as int);
                }
                tests.set_and_swap(j, &mut slot);
                paired = slot;
            },
            None => {},
        }
        let ghost pre_result = result@;
        proof {
            lemma_insert_multiset(result@, result@.len() as int, f);
            assert(result@.insert(result@.len() as int, f) =~= result@.push(f));
        }
        result.push(f);
        proof {
            reveal(Seq::filter);
            assert(result@.drop_last() =~= pre_result);
            assert(spec_tier(f.path@) != FileTier::Tests);
            assert(spec_non_tests(result@) == spec_non_tests(pre_result).push(f));
            assert(spec_non_tests(result@) =~= done1 + block2.take(k + 1));
        }
        match paired {
            Some(t) => {
                let ghost pre2 = result@;
                proof {
                    lemma_insert_multiset(result@, result@.len() as int, t);
                    assert(result@.insert(result@.len() as int, t) =~= result@.push(t));
                }
                result.push(t);
                proof {
                    reveal(Seq::filter);
                    assert(result@.drop_last() =~= pre2);
                    assert(spec_tier(t.path@) == FileTier::Tests);
                    assert(spec_non_tests(result@) == spec_non_tests(pre2));
                    assert(spec_non_tests(result@) =~= done1 + block2.take(k + 1));
                    assert(result@.to_multiset().add(rest@.to_multiset()).add(opts_ms(tests@)).add(
                        tier4@.to_multiset(),
                    ).add(tier5@.to_multiset()) =~= orig_ms);
                }
            },
            None => {
                proof {
                    assert(result@.to_multiset().add(rest@.to_multiset()).add(opts_ms(tests@)).add(
                        tier4@.to_multiset(),
                    ).add(tier5@.to_multiset()) =~= orig_ms);
                }
            },
        }
    }
    let ghost done2 = spec_non_tests(result@);
    proof {
        crate::sorting::lemma_seq_empty_multiset(rest@);
        assert(done2 =~= done1 + block2);
        assert(result@.to_multiset().add(opts_ms(tests@)).add(tier4@.to_multiset()).add(
            tier5@.to_multiset(),
        ) =~= orig_ms);
    }
    let mut k: usize = 0;
    while k < tests.len()
        invariant
            k <= tests@.len(),
            result@.to_multiset().add(opts_ms(tests@)).add(tier4@.to_multiset()).add(
                tier5@.to_multiset(),
            ) == orig_ms,
            spec_non_tests(result@) == done2,
            forall|i: int| 0 <= i < k ==> tests@[i] is None,
            forall|i: int|
                0 <= i < tests@.len() && (#[trigger] tests@[i]) is Some ==> spec_tier(
                    tests@[i].unwrap().path@,
                ) == FileTier::Tests,
        decreases tests@.len() - k,
    {
        let mut slot: Option<FileChangeStats> = None;
        proof {
            if tests@[k as int] is Some {
                lemma_opts_ms_take(tests@, k as int);
            } else {
                assert(tests@.update(k as int, None) =~= tests@);
            }
        }
        tests.set_and_swap(k, &mut slot);
        match slot {
            Some(t) => {
                let ghost pre_result = result@;
                proof {
                    lemma_insert_multiset(result@, result@.len() as int, t);
                    assert(result@.insert(result@.len() as int, t) =~= result@.push(t));
                }
                result.push(t);
                proof {
                    reveal(Seq::filter);
                    assert(result@.drop_last() =~= pre_result);
                    assert(spec_tier(t.path@) == FileTier::Tests);
                    assert(spec_non_tests(result@) == spec_non_tests(pre_result));
                    assert(result@.to_multiset().add(opts_ms(tests@)).add(tier4@.to_multiset()).add(
                        tier5@.to_multiset(),
                    ) =~= orig_ms);
                }
            },
            None => {},
        }
        k += 1;
    }
    proof {
        lemma_opts_all_none(tests@);
    }
    let ghost block4 = tier4@;
    let mut rest = tier4;
    proof {
        assert(result@.to_multiset().add(rest@.to_multiset()).add(tier5@.to_multiset())
            =~= orig_ms);
        assert(spec_non_tests(result@) =~= done2 + block4.take(0));
        assert(rest@ =~= block4.skip(0));
    }
    while rest.len() > 0
        invariant
            result@.to_multiset().add(rest@.to_multiset()).add(tier5@.to_multiset()) == orig_ms,
            rest@.len() <= block4.len(),
            rest@ == block4.skip(block4.len() - rest@.len()),
            spec_non_tests(result@) == done2 + block4.take(block4.len() - rest@.len()),
            forall|q: int|
                0 <= q < block4.len() ==> spec_tier((#[trigger] block4[q]).path@)
                    == FileTier::Generated,
        decreases rest@.len(),
    {
        let ghost k2 = block4.len() - rest@.len();
        proof {
            lemma_remove_multiset(rest@, 0);
            assert(rest@[0] == block4[k2]);
            lemma_insert_multiset(result@, result@.len() as int, rest@[0]);
            assert(result@.insert(result@.len() as int, rest@[0]) =~= result@.push(rest@[0]));
        }
        let ghost pre_result = result@;
        let f = rest.remove(0);
        result.push(f);
        proof {
            reveal(Seq::filter);
            assert(f == block4[k2]);
            assert(rest@ =~= block4.skip(k2 + 1));
            assert(result@.drop_last() =~= pre_result);
            assert(spec_tier(f.path@) != FileTier::Tests);
            assert(spec_non_tests(result@) == spec_non_tests(pre_result).push(f));
            assert(spec_non_tests(result@) =~= done2 + block4.take(k2 + 1));
            assert(result@.to_multiset().add(rest@.to_multiset()).add(tier5@.to_multiset())
                =~= orig_ms);
        }
    }
    let ghost done4 = spec_non_tests(result@);
    proof {
        crate::sorting::lemma_seq_empty_multiset(rest@);
        assert(done4 =~= done2 + block4);
    }
    let ghost block5 = tier5@;
    let mut rest = tier5;
    proof {
        assert(result@.to_multiset().add(rest@.to_multiset()) =~= orig_ms);
        assert(spec_non_tests(result@) =~= done4 + block5.take(0));
        assert(rest@ =~= block5.skip(0));
    }
    while rest.len() > 0
        invariant
            result@.to_multiset().add(rest@.to_multiset()) == orig_ms,
            rest@.len() <= block5.len(),
            rest@ == block5.skip(block5.len() - rest@.len()),
            spec_non_tests(result@) == done4 + block5.take(block5.len() - rest@.len()),
            forall|q: int|
                0 <= q < block5.len() ==> spec_tier((#[trigger] block5[q]).path@)
                    == FileTier::Documentation,
        decreases rest@.len(),
    {
        let ghost k2 = block5.len() - rest@.len();
        proof {
            lemma_remove_multiset(rest@, 0);
            assert(rest@[0] == block5[k2]);
            lemma_insert_multiset(result@, result@.len() as int, rest@[0]);
            assert(result@.insert(result@.len() as int, rest@[0]) =~= result@.push(rest@[0]));
        }
        let ghost pre_result = result@;
        let f = rest.remove(0);
        result.push(f);
        proof {
            reveal(Seq::filter);
            assert(f == block5[k2]);
            assert(rest@ =~= block5.skip(k2 + 1));
            assert(result@.drop_last() =~= pre_result);
            assert(spec_tier(f.path@) != FileTier::Tests);
            assert(spec_non_tests(result@) == spec_non_tests(pre_result).push(f));
            assert(spec_non_tests(result@) =~= done4 + block5.take(k2 + 1));
            assert(result@.to_multiset().add(rest@.to_multiset()) =~= orig_ms);
        }
    }
    proof {
        crate::sorting::lemma_seq_empty_multiset(rest@);
        assert(result@.to_multiset() =~= orig_ms);
        let done = spec_non_tests(result@);
        assert(done =~= block0 + block1 + block2 + block4 + block5);
        assert forall|i: int|
            0 <= i < done.len() - 1 implies spec_tier_le(#[trigger] done[i], done[i + 1]) by {
            lemma_block_tier(block0, block1, block2, block4, block5, done, i);
            lemma_block_tier(block0, block1, block2, block4, block5, done, i + 1);
        }
    }
    result
}

/// The tier of an entry of the concatenated blocks, by its region.
proof fn lemma_block_tier(
    block0: Seq<FileChangeStats>,
    block1: Seq<FileChangeStats>,
    block2: Seq<FileChangeStats>,
    block4: Seq<FileChangeStats>,
    block5: Seq<FileChangeStats>,
    done: Seq<FileChangeStats>,
    i: int,
)
    requires
        done == block0 + block1 + block2 + block4 + block5,
        forall|q: int|
            0 <= q < block0.len() ==> spec_tier((#[trigger] block0[q]).path@)
                == FileTier::ProjectConfig,
        forall|q: int|
            0 <= q < block1.len() ==> spec_tier((#[trigger] block1[q]).path@)
                == FileTier::TypeDefinitions,
        forall|q: int|
            0 <= q < block2.len() ==> spec_tier((#[trigger] block2[q]).path@)
                == FileTier::Implementation,
        forall|q: int|
            0 <= q < block4.len() ==> spec_tier((#[trigger] block4[q]).path@)
                == FileTier::Generated,
        forall|q: int|
            0 <= q < block5.len() ==> spec_tier((#[trigger] block5[q]).path@)
                == FileTier::Documentation,
        0 <= i < done.len(),
    ensures
        spec_tier_rank(spec_tier(done[i].path@)) == (if i < block0.len() {
            0int
        } else if i < block0.len() + block1.len() {
            1int
        } else if i < block0.len() + block1.len() + block2.len() {
            2int
        } else if i < block0.len() + block1.len() + block2.len() + block4.len() {
            4int
        } else {
            5int
        }),
{
    let n0 = block0.len() as int;
    let n1 = block1.len() as int;
    let n2 = block2.len() as int;
    let n4 = block4.len() as int;
    if i < n0 {
        assert(done[i] == block0[i]);
    } else if i < n0 + n1 {
        assert(done[i] == block1[i - n0]);
    } else if i < n0 + n1 + n2 {
        assert(done[i] == block2[i - n0 - n1]);
    } else if i < n0 + n1 + n2 + n4 {
        assert(done[i] == block4[i - n0 - n1 - n2]);
    } else {
        assert(done[i] == block5[i - n0 - n1 - n2 - n4]);
    }
}

fn sort_by_size_then_path(files: Vec<FileChangeStats>) -> (r: Vec<FileChangeStats>)
    ensures
        r@.to_multiset() == files@.to_multiset(),
        sorted_by(r@, |a: FileChangeStats, b: FileChangeStats| spec_size_path_le(a, b)),
{
    let mut rest = files;
    let mut r: Vec<FileChangeStats> = Vec::new();
    proof {
        crate::sorting::lemma_seq_empty_multiset(r@);
        assert(r@.to_multiset().add(rest@.to_multiset()) =~= rest@.to_multiset());
    }
    while rest.len() > 0
        invariant
            r@.to_multiset().add(rest@.to_multiset()) == files@.to_multiset(),
            sorted_by(r@, |a: FileChangeStats, b: FileChangeStats| spec_size_path_le(a, b)),
        decreases rest@.len(),
    {
        proof {
            lemma_remove_multiset(rest@, 0);
        }
        let x = rest.remove(0);
        let ghost pre = r@;
        let mut j: usize = 0;
        while j < r.len() && size_path_le(&r[j], &x)
            invariant
                j <= r@.len(),
                forall|k: int| 0 <= k < j ==> spec_size_path_le(#[trigger] r@[k], x),
                r@ == pre,
            decreases r@.len() - j,
        {
            j += 1;
        }
        proof {
            if j < r@.len() {
                lemma_str_le_total(r@[j as int].path@, x.path@);
            }
            lemma_insert_multiset(r@, j as int, x);
        }
        r.insert(j, x);
        proof {
            assert(r@.to_multiset().add(rest@.to_multiset()) =~= files@.to_multiset());
            assert(sorted_by(r@, |a: FileChangeStats, b: FileChangeStats| spec_size_path_le(a, b)));
        }
    }
    proof {
        crate::sorting::lemma_seq_empty_multiset(rest@);
        assert(r@.to_multiset() =~= files@.to_multiset());
    }
    r
}

} // verus!
