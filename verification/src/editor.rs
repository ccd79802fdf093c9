//! Monaco editor integration: configuration types, commands, and the
//! JavaScript generated for the bridge layer.

use vstd::prelude::*;

use crate::text::{spec_lower, str_eq_ignore_ascii_case};

pub mod actions;
pub mod bridge;
pub mod commands;
pub mod monaco;

verus! {

/// Monaco editor event types.
#[derive(Debug, Clone)]
pub enum MonacoEvent {
    Change { editor_id: String, content: String },
    Save { editor_id: String, content: String },
    CursorChange { editor_id: String, line: u32, column: u32 },
}

/// Language ID for Monaco.
#[derive(Debug, Clone, Copy, PartialEq, Eq, Structural)]
pub enum Language {
    Rust,
    TypeScript,
    JavaScript,
    Python,
    Go,
    Json,
    Toml,
    Yaml,
    Markdown,
    Html,
    Css,
    PlainText,
}

/// The Monaco language identifier of each language.
pub open spec fn spec_monaco_id(l: Language) -> Seq<char> {
    match l {
        Language::Rust => "rust"@,
        Language::TypeScript => "typescript"@,
        Language::JavaScript => "javascript"@,
        Language::Python => "python"@,
        Language::Go => "go"@,
        Language::Json => "json"@,
        Language::Toml => "toml"@,
        Language::Yaml => "yaml"@,
        Language::Markdown => "markdown"@,
        Language::Html => "html"@,
        Language::Css => "css"@,
        Language::PlainText => "plaintext"@,
    }
}

impl Language {
    /// The Monaco language ID string.
    pub fn monaco_id(&self) -> (r: &'static str)
        ensures
            r@ == spec_monaco_id(*self),
    {
        match self {
            Language::Rust => "rust",
            Language::TypeScript => "typescript",
            Language::JavaScript => "javascript",
            Language::Python => "python",
            Language::Go => "go",
            Language::Json => "json",
            Language::Toml => "toml",
            Language::Yaml => "yaml",
            Language::Markdown => "markdown",
            Language::Html => "html",
            Language::Css => "css",
            Language::PlainText => "plaintext",
        }
    }

    /// Detects the language from a file extension, case-insensitively;
    /// anything unknown is plain text.
    pub fn from_extension(ext: &str) -> (r: Self)
        ensures
            spec_lower(ext@) == "rs"@ ==> r == Language::Rust,
            spec_lower(ext@) == "ts"@ || spec_lower(ext@) == "tsx"@ ==> r == Language::TypeScript,
            spec_lower(ext@) == "js"@ || spec_lower(ext@) == "jsx"@ || spec_lower(ext@) == "mjs"@ || spec_lower(ext@) == "cjs"@ ==> r == Language::JavaScript,
            spec_lower(ext@) == "py"@ || spec_lower(ext@) == "pyi"@ ==> r == Language::Python,
            spec_lower(ext@) == "go"@ ==> r == Language::Go,
            spec_lower(ext@) == "json"@ ==> r == Language::Json,
            spec_lower(ext@) == "toml"@ ==> r == Language::Toml,
            spec_lower(ext@) == "yaml"@ || spec_lower(ext@) == "yml"@ ==> r == Language::Yaml,
            spec_lower(ext@) == "md"@ || spec_lower(ext@) == "markdown"@ ==> r == Language::Markdown,
            spec_lower(ext@) == "html"@ || spec_lower(ext@) == "htm"@ ==> r == Language::Html,
            spec_lower(ext@) == "css"@ || spec_lower(ext@) == "scss"@ || spec_lower(ext@) == "less"@ ==> r == Language::Css,
            spec_lower(ext@) != "rs"@ && spec_lower(ext@) != "ts"@ && spec_lower(ext@) != "tsx"@ && spec_lower(ext@) != "js"@ && spec_lower(ext@) != "jsx"@ && spec_lower(ext@) != "mjs"@ && spec_lower(ext@) != "cjs"@ && spec_lower(ext@) != "py"@ && spec_lower(ext@) != "pyi"@ && spec_lower(ext@) != "go"@ && spec_lower(ext@) != "json"@ && spec_lower(ext@) != "toml"@ && spec_lower(ext@) != "yaml"@ && spec_lower(ext@) != "yml"@ && spec_lower(ext@) != "md"@ && spec_lower(ext@) != "markdown"@ && spec_lower(ext@) != "html"@ && spec_lower(ext@) != "htm"@ && spec_lower(ext@) != "css"@ && spec_lower(ext@) != "scss"@ && spec_lower(ext@) != "less"@ ==> r == Language::PlainText,
    {
        proof {
            reveal_strlit("rs");
            reveal_strlit("ts");
            reveal_strlit("tsx");
            reveal_strlit("py");
            reveal_strlit("pyi");
            reveal_strlit("go");
            reveal_strlit("json");
            reveal_strlit("toml");
            reveal_strlit("md");
            reveal_strlit("css");
            reveal_strlit("js");
            reveal_strlit("jsx");
            reveal_strlit("mjs");
            reveal_strlit("cjs");
            reveal_strlit("yaml");
            reveal_strlit("yml");
            reveal_strlit("markdown");
            reveal_strlit("html");
            reveal_strlit("htm");
            reveal_strlit("scss");
            reveal_strlit("less");
            assert("rs"@.len() == 2);
            assert("ts"@.len() == 2);
            assert("tsx"@.len() == 3);
            assert("py"@.len() == 2);
            assert("pyi"@.len() == 3);
            assert("go"@.len() == 2);
            assert("json"@.len() == 4);
            assert("toml"@.len() == 4);
            assert("md"@.len() == 2);
            assert("css"@.len() == 3);
            assert("js"@.len() == 2);
            assert("jsx"@.len() == 3);
            assert("mjs"@.len() == 3);
            assert("cjs"@.len() == 3);
            assert("yaml"@.len() == 4);
            assert("yml"@.len() == 3);
            assert("markdown"@.len() == 8);
            assert("html"@.len() == 4);
            assert("htm"@.len() == 3);
            assert("scss"@.len() == 4);
            assert("less"@.len() == 4);
            assert("rs"@[0] != "ts"@[0]);
            assert("rs"@[0] != "py"@[0]);
            assert("rs"@[0] != "go"@[0]);
            assert("rs"@[0] != "md"@[0]);
            assert("rs"@[0] != "js"@[0]);
            assert("ts"@[0] != "py"@[0]);
            assert("ts"@[0] != "go"@[0]);
            assert("ts"@[0] != "md"@[0]);
            assert("ts"@[0] != "js"@[0]);
            assert("tsx"@[0] != "pyi"@[0]);
            assert("tsx"@[0] != "css"@[0]);
            assert("tsx"@[0] != "jsx"@[0]);
            assert("tsx"@[0] != "mjs"@[0]);
            assert("tsx"@[0] != "cjs"@[0]);
            assert("tsx"@[0] != "yml"@[0]);
            assert("tsx"@[0] != "htm"@[0]);
            assert("py"@[0] != "go"@[0]);
            assert("py"@[0] != "md"@[0]);
            assert("py"@[0] != "js"@[0]);
            assert("pyi"@[0] != "css"@[0]);
            assert("pyi"@[0] != "jsx"@[0]);
            assert("pyi"@[0] != "mjs"@[0]);
            assert("pyi"@[0] != "cjs"@[0]);
            assert("pyi"@[0] != "yml"@[0]);
            assert("pyi"@[0] != "htm"@[0]);
            assert("go"@[0] != "md"@[0]);
            assert("go"@[0] != "js"@[0]);
            assert("json"@[0] != "toml"@[0]);
            assert("json"@[0] != "yaml"@[0]);
            assert("json"@[0] != "html"@[0]);
            assert("json"@[0] != "scss"@[0]);
            assert("json"@[0] != "less"@[0]);
            assert("toml"@[0] != "yaml"@[0]);
            assert("toml"@[0] != "html"@[0]);
            assert("toml"@[0] != "scss"@[0]);
            assert("toml"@[0] != "less"@[0]);
            assert("md"@[0] != "js"@[0]);
            assert("css"@[0] != "jsx"@[0]);
            assert("css"@[0] != "mjs"@[0]);
            assert("css"@[1] != "cjs"@[1]);
            assert("css"@[0] != "yml"@[0]);
            assert("css"@[0] != "htm"@[0]);
            assert("jsx"@[0] != "mjs"@[0]);
            assert("jsx"@[0] != "cjs"@[0]);
            assert("jsx"@[0] != "yml"@[0]);
            assert("jsx"@[0] != "htm"@[0]);
            assert("mjs"@[0] != "cjs"@[0]);
            assert("mjs"@[0] != "yml"@[0]);
            assert("mjs"@[0] != "htm"@[0]);
            assert("cjs"@[0] != "yml"@[0]);
            assert("cjs"@[0] != "htm"@[0]);
            assert("yaml"@[0] != "html"@[0]);
            assert("yaml"@[0] != "scss"@[0]);
            assert("yaml"@[0] != "less"@[0]);
            assert("yml"@[0] != "htm"@[0]);
            assert("html"@[0] != "scss"@[0]);
            assert("html"@[0] != "less"@[0]);
            assert("scss"@[0] != "less"@[0]);
            assert(spec_lower("rs"@) =~= "rs"@);
            assert(spec_lower("ts"@) =~= "ts"@);
            assert(spec_lower("tsx"@) =~= "tsx"@);
            assert(spec_lower("py"@) =~= "py"@);
            assert(spec_lower("pyi"@) =~= "pyi"@);
            assert(spec_lower("go"@) =~= "go"@);
            assert(spec_lower("json"@) =~= "json"@);
            assert(spec_lower("toml"@) =~= "toml"@);
            assert(spec_lower("md"@) =~= "md"@);
            assert(spec_lower("css"@) =~= "css"@);
            assert(spec_lower("js"@) =~= "js"@);
            assert(spec_lower("jsx"@) =~= "jsx"@);
            assert(spec_lower("mjs"@) =~= "mjs"@);
            assert(spec_lower("cjs"@) =~= "cjs"@);
            assert(spec_lower("yaml"@) =~= "yaml"@);
            assert(spec_lower("yml"@) =~= "yml"@);
            assert(spec_lower("markdown"@) =~= "markdown"@);
            assert(spec_lower("html"@) =~= "html"@);
            assert(spec_lower("htm"@) =~= "htm"@);
            assert(spec_lower("scss"@) =~= "scss"@);
            assert(spec_lower("less"@) =~= "less"@);
        }
        if str_eq_ignore_ascii_case(ext, "rs") {
            Language::Rust
        } else if str_eq_ignore_ascii_case(ext, "ts") || str_eq_ignore_ascii_case(ext, "tsx") {
            Language::TypeScript
        } else if str_eq_ignore_ascii_case(ext, "js") || str_eq_ignore_ascii_case(ext, "jsx")
            || str_eq_ignore_ascii_case(ext, "mjs") || str_eq_ignore_ascii_case(ext, "cjs") {
            Language::JavaScript
        } else if str_eq_ignore_ascii_case(ext, "py") || str_eq_ignore_ascii_case(ext, "pyi") {
            Language::Python
        } else if str_eq_ignore_ascii_case(ext, "go") {
            Language::Go
        } else if str_eq_ignore_ascii_case(ext, "json") {
            Language::Json
        } else if str_eq_ignore_ascii_case(ext, "toml") {
            Language::Toml
        } else if str_eq_ignore_ascii_case(ext, "yaml") || str_eq_ignore_ascii_case(ext, "yml") {
            Language::Yaml
        } else if str_eq_ignore_ascii_case(ext, "md") || str_eq_ignore_ascii_case(
            ext,
            "markdown",
        ) {
            Language::Markdown
        } else if str_eq_ignore_ascii_case(ext, "html") || str_eq_ignore_ascii_case(ext, "htm") {
            Language::Html
        } else if str_eq_ignore_ascii_case(ext, "css") || str_eq_ignore_ascii_case(ext, "scss")
            || str_eq_ignore_ascii_case(ext, "less") {
            Language::Css
        } else {
            Language::PlainText
        }
    }
}

} // verus!
