//! Import analysis for dependency-aware file ordering: detecting the
//! language of a file, scanning its source for relative imports, and
//! resolving import specifiers to file paths.

use vstd::prelude::*;

use crate::text::{
    append_str, push_char, spec_ends_with, spec_lower, str_ends_with, str_eq, str_le,
    str_starts_with,
};

verus! {

/// Supported languages for import analysis.
#[derive(Debug, Clone, Copy, PartialEq, Eq, Structural)]
pub enum AnalysisLanguage {
    TypeScript,
    JavaScript,
    Python,
    Rust,
    Go,
}

/// The language of a path by its extension, compared case-insensitively.
pub open spec fn spec_language_of(p: Seq<char>) -> Option<AnalysisLanguage> {
    let l = spec_lower(p);
    if spec_ends_with(l, ".ts"@) || spec_ends_with(l, ".tsx"@) {
        Some(AnalysisLanguage::TypeScript)
    } else if spec_ends_with(l, ".js"@) || spec_ends_with(l, ".jsx"@) || spec_ends_with(
        l,
        ".mjs"@,
    ) {
        Some(AnalysisLanguage::JavaScript)
    } else if spec_ends_with(l, ".py"@) || spec_ends_with(l, ".pyi"@) {
        Some(AnalysisLanguage::Python)
    } else if spec_ends_with(l, ".rs"@) {
        Some(AnalysisLanguage::Rust)
    } else if spec_ends_with(l, ".go"@) {
        Some(AnalysisLanguage::Go)
    } else {
        None
    }
}

impl AnalysisLanguage {
    /// Detects the language from a file extension, case-insensitively.
    pub fn from_path(path: &str) -> (r: Option<Self>)
        ensures
            r == spec_language_of(path@),
    {
        let lowered = crate::text::ascii_lower(path);
        let l = lowered.as_str();
        if str_ends_with(l, ".ts") || str_ends_with(l, ".tsx") {
            Some(AnalysisLanguage::TypeScript)
        } else if str_ends_with(l, ".js") || str_ends_with(l, ".jsx") || str_ends_with(
            l,
            ".mjs",
        ) {
            Some(AnalysisLanguage::JavaScript)
        } else if str_ends_with(l, ".py") || str_ends_with(l, ".pyi") {
            Some(AnalysisLanguage::Python)
        } else if str_ends_with(l, ".rs") {
            Some(AnalysisLanguage::Rust)
        } else if str_ends_with(l, ".go") {
            Some(AnalysisLanguage::Go)
        } else {
            None
        }
    }
}

/// Index just past the last slash of a path, or 0 when it has none.
pub open spec fn spec_after_last_slash(s: Seq<char>) -> int
    decreases s.len(),
{
    if s.len() == 0 {
        0
    } else if s.last() == '/' {
        s.len() as int
    } else {
        spec_after_last_slash(s.drop_last())
    }
}

/// The parent directory of a path, as the platform's path type reports
/// it: the text before the final component, without its trailing slash
/// except at the root; an empty or root path has none.
pub open spec fn spec_parent(s: Seq<char>) -> Option<Seq<char>> {
    if s.len() == 0 || s == "/"@ {
        None
    } else {
        let e = spec_after_last_slash(s);
        if e == 0 {
            Some(Seq::empty())
        } else if e == 1 {
            Some("/"@)
        } else {
            Some(s.take(e - 1))
        }
    }
}

proof fn lemma_after_last_slash_bounds(s: Seq<char>)
    ensures
        0 <= spec_after_last_slash(s) <= s.len(),
    decreases s.len(),
{
    if s.len() > 0 && s.last() != '/' {
        lemma_after_last_slash_bounds(s.drop_last());
    }
}

/// A parent directory is strictly shorter than its child path.
pub proof fn lemma_parent_shorter(s: Seq<char>)
    requires
        spec_parent(s) is Some,
    ensures
        spec_parent(s).unwrap().len() < s.len(),
{
    lemma_after_last_slash_bounds(s);
    reveal_strlit("/");
    assert("/"@.len() == 1);
    let e = spec_after_last_slash(s);
    if e == 1 {
        if s.len() == 1 {
            proof_last_is_slash(s);
            assert("/"@[0] == '/');
            assert(s =~= "/"@);
        }
    }
}

proof fn proof_last_is_slash(s: Seq<char>)
    requires
        s.len() == 1,
        spec_after_last_slash(s) == 1,
    ensures
        s[0] == '/',
{
    if s.last() != '/' {
        assert(spec_after_last_slash(s) == spec_after_last_slash(s.drop_last()));
    }
}

/// The parent directory of a slash-separated path.
pub fn parent_dir(s: &str) -> (r: Option<String>)
    ensures
        (match r {
            Some(p) => spec_parent(s@) == Some(p@),
            None => spec_parent(s@) is None,
        }),
{
    let n = s.unicode_len();
    if n == 0 {
        return None;
    }
    if str_eq(s, "/") {
        return None;
    }
    let mut e: usize = 0;
    let mut i: usize = 0;
    while i < n
        invariant
            i <= n,
            n == s@.len(),
            e as int == spec_after_last_slash(s@.take(i as int)),
            e <= i,
        decreases n - i,
    {
        proof {
            assert(s@.take(i + 1).drop_last() =~= s@.take(i as int));
            assert(s@.take(i + 1).last() == s@[i as int]);
        }
        if s.get_char(i) == '/' {
            e = i + 1;
        }
        i += 1;
    }
    proof {
        assert(s@.take(n as int) =~= s@);
    }
    if e == 0 {
        Some(String::new())
    } else if e == 1 {
        Some("/".to_owned())
    } else {
        let mut out = String::new();
        let mut j: usize = 0;
        while j < e - 1
            invariant
                e >= 2,
                e <= n,
                n == s@.len(),
                j <= e - 1,
                out@ == s@.take(e - 1).take(j as int),
            decreases e - 1 - j,
        {
            push_char(&mut out, s.get_char(j));
            proof {
                assert(s@.take(e - 1).take(j + 1) =~= s@.take(e - 1).take(j as int).push(
                    s@[j as int],
                ));
            }
            j += 1;
        }
        proof {
            assert(s@.take(e - 1).take(e - 1) =~= s@.take(e - 1));
        }
        Some(out)
    }
}

/// A relative path joined onto a base directory.
pub open spec fn spec_join(base: Seq<char>, rel: Seq<char>) -> Seq<char> {
    if base.len() == 0 {
        rel
    } else if base.last() == '/' {
        base + rel
    } else {
        base + "/"@ + rel
    }
}

/// Joins a relative path onto a base directory.
pub fn join_path(base: &str, rel: &str) -> (r: String)
    ensures
        r@ == spec_join(base@, rel@),
{
    let n = base.unicode_len();
    if n == 0 {
        return rel.to_owned();
    }
    let mut out = base.to_owned();
    if base.get_char(n - 1) != '/' {
        push_char(&mut out, '/');
    }
    append_str(&mut out, rel);
    proof {
        reveal_strlit("/");
        if base@.last() == '/' {
            assert(out@ =~= base@ + rel@);
        } else {
            assert(out@ =~= base@ + "/"@ + rel@);
        }
    }
    out
}

/// A module path with every `::` separator replaced by `/`, scanned left
/// to right.
pub open spec fn spec_mod_path(s: Seq<char>) -> Seq<char>
    decreases s.len(),
{
    if s.len() == 0 {
        Seq::empty()
    } else if s.len() >= 2 && s[0] == ':' && s[1] == ':' {
        seq!['/'] + spec_mod_path(s.skip(2))
    } else {
        seq![s[0]] + spec_mod_path(s.skip(1))
    }
}

/// Replaces every `::` with `/`.
pub fn module_path_to_file_path(s: &str) -> (r: String)
    ensures
        r@ == spec_mod_path(s@),
{
    let n = s.unicode_len();
    let mut out = String::new();
    let mut i: usize = 0;
    proof {
        assert(s@.skip(0) =~= s@);
        assert(out@ + spec_mod_path(s@) =~= spec_mod_path(s@));
    }
    while i < n
        invariant
            i <= n,
            n == s@.len(),
            spec_mod_path(s@) == out@ + spec_mod_path(s@.skip(i as int)),
        decreases n - i,
    {
        proof {
            assert(s@.skip(i as int)[0] == s@[i as int]);
            assert(s@.skip(i as int).skip(1) =~= s@.skip(i + 1));
            if i + 1 < n {
                assert(s@.skip(i as int)[1] == s@[i + 1]);
                assert(s@.skip(i as int).skip(2) =~= s@.skip(i + 2));
            }
        }
        if i + 1 < n && s.get_char(i) == ':' && s.get_char(i + 1) == ':' {
            let ghost pre = out@;
            push_char(&mut out, '/');
            proof {
                assert(out@ + spec_mod_path(s@.skip(i + 2)) =~= pre + spec_mod_path(
                    s@.skip(i as int),
                ));
            }
            i += 2;
        } else {
            let ghost pre = out@;
            push_char(&mut out, s.get_char(i));
            proof {
                assert(out@ + spec_mod_path(s@.skip(i + 1)) =~= pre + spec_mod_path(
                    s@.skip(i as int),
                ));
            }
            i += 1;
        }
    }
    proof {
        assert(spec_mod_path(s@.skip(n as int)) =~= Seq::<char>::empty());
        assert(out@ =~= out@ + spec_mod_path(s@.skip(n as int)));
    }
    out
}

/// A string with every repetition of a prefix stripped off the front.
pub open spec fn spec_strip_prefix_all(s: Seq<char>, p: Seq<char>) -> Seq<char>
    decreases s.len(),
{
    if p.len() > 0 && crate::text::spec_starts_with(s, p) {
        spec_strip_prefix_all(s.skip(p.len() as int), p)
    } else {
        s
    }
}

/// Strips every leading repetition of a prefix.
pub fn strip_prefix_all(s: &str, p: &str) -> (r: String)
    ensures
        r@ == spec_strip_prefix_all(s@, p@),
    decreases s@.len(),
{
    let pn = p.unicode_len();
    if pn > 0 && str_starts_with(s, p) {
        let n = s.unicode_len();
        let rest = s.substring_char(pn, n);
        proof {
            assert(rest@ =~= s@.skip(pn as int));
        }
        strip_prefix_all(rest, p)
    } else {
        s.to_owned()
    }
}

/// Number of leading dots of a relative Python import.
pub open spec fn spec_leading_dots(s: Seq<char>) -> int
    decreases s.len(),
{
    if s.len() > 0 && s[0] == '.' {
        1 + spec_leading_dots(s.drop_first())
    } else {
        0
    }
}

proof fn lemma_leading_dots_exact(s: Seq<char>, k: int)
    requires
        0 <= k <= s.len(),
        forall|j: int| 0 <= j < k ==> s[j] == '.',
        k == s.len() || s[k] != '.',
    ensures
        spec_leading_dots(s) == k,
    decreases k,
{
    if k == 0 {
    } else {
        assert(s[0] == '.');
        lemma_leading_dots_exact(s.drop_first(), k - 1);
    }
}

/// The directory a number of parent steps above `dir`.
pub open spec fn spec_climb(dir: Seq<char>, times: int) -> Option<Seq<char>>
    decreases times,
{
    if times <= 0 {
        Some(dir)
    } else {
        match spec_parent(dir) {
            None => None,
            Some(p) => spec_climb(p, times - 1),
        }
    }
}

/// A dotted module name as a slash-separated path.
pub open spec fn spec_dots_to_slashes(s: Seq<char>) -> Seq<char> {
    s.map_values(|c: char| if c == '.' { '/' } else { c })
}

/// A Go import string with its quote characters dropped.
pub open spec fn spec_unquoted(s: Seq<char>) -> Seq<char> {
    s.filter(|c: char| c != '"')
}

/// Resolves an import specifier to a file path, as the review ordering
/// uses it: relative TypeScript and JavaScript imports get the language's
/// extension, `crate::` and `super::` paths map into the source tree, and
/// relative Python imports climb the package structure. Anything else is
/// not a local file.
pub fn resolve_import_path(
    importing_file: &str,
    import_specifier: &str,
    language: AnalysisLanguage,
) -> (r: Option<String>)
    ensures
        (match spec_parent(importing_file@) {
            None => r is None,
            Some(dir) => (match language {
                AnalysisLanguage::TypeScript => (if crate::text::spec_starts_with(
                    import_specifier@,
                    "."@,
                ) {
                    r is Some && r.unwrap()@ == spec_join(dir, import_specifier@) + ".ts"@
                } else {
                    r is None
                }),
                AnalysisLanguage::JavaScript => (if crate::text::spec_starts_with(
                    import_specifier@,
                    "."@,
                ) {
                    r is Some && r.unwrap()@ == spec_join(dir, import_specifier@) + ".js"@
                } else {
                    r is None
                }),
                AnalysisLanguage::Rust => (if crate::text::spec_starts_with(
                    import_specifier@,
                    "crate::"@,
                ) {
                    r is Some && r.unwrap()@ == "src/"@ + spec_mod_path(
                        spec_strip_prefix_all(import_specifier@, "crate::"@),
                    ) + ".rs"@
                } else if crate::text::spec_starts_with(import_specifier@, "super::"@) {
                    match spec_parent(dir) {
                        None => r is None,
                        Some(p) => r is Some && r.unwrap()@ == p + "/"@ + spec_mod_path(
                            spec_strip_prefix_all(import_specifier@, "super::"@),
                        ) + ".rs"@,
                    }
                } else {
                    r is None
                }),
                AnalysisLanguage::Python => (if crate::text::spec_starts_with(
                    import_specifier@,
                    "."@,
                ) {
                    match spec_climb(dir, spec_leading_dots(import_specifier@) - 1) {
                        None => r is None,
                        Some(c) => r is Some && r.unwrap()@ == spec_join(
                            c,
                            spec_dots_to_slashes(
                                import_specifier@.skip(spec_leading_dots(import_specifier@)),
                            ),
                        ) + ".py"@,
                    }
                } else {
                    r is None
                }),
                AnalysisLanguage::Go => (if crate::text::spec_starts_with(
                    import_specifier@,
                    "."@,
                ) {
                    r is Some && r.unwrap()@ == spec_join(dir, spec_unquoted(import_specifier@))
                } else {
                    r is None
                }),
            }),
        }),
{
    let dir = match parent_dir(importing_file) {
        Some(d) => d,
        None => {
            return None;
        },
    };
    match language {
        AnalysisLanguage::TypeScript => {
            if str_starts_with(import_specifier, ".") {
                let mut out = join_path(dir.as_str(), import_specifier);
                append_str(&mut out, ".ts");
                proof {
                    assert(out@ =~= spec_join(dir@, import_specifier@) + ".ts"@);
                }
                Some(out)
            } else {
                None
            }
        },
        AnalysisLanguage::JavaScript => {
            if str_starts_with(import_specifier, ".") {
                let mut out = join_path(dir.as_str(), import_specifier);
                append_str(&mut out, ".js");
                proof {
                    assert(out@ =~= spec_join(dir@, import_specifier@) + ".js"@);
                }
                Some(out)
            } else {
                None
            }
        },
        AnalysisLanguage::Rust => {
            if str_starts_with(import_specifier, "crate::") {
                let stripped = strip_prefix_all(import_specifier, "crate::");
                let path = module_path_to_file_path(stripped.as_str());
                let mut out = "src/".to_owned();
                append_str(&mut out, path.as_str());
                append_str(&mut out, ".rs");
                proof {
                    assert(out@ =~= "src/"@ + spec_mod_path(
                        spec_strip_prefix_all(import_specifier@, "crate::"@),
                    ) + ".rs"@);
                }
                Some(out)
            } else if str_starts_with(import_specifier, "super::") {
                let parent = match parent_dir(dir.as_str()) {
                    Some(p) => p,
                    None => {
                        return None;
                    },
                };
                let stripped = strip_prefix_all(import_specifier, "super::");
                let path = module_path_to_file_path(stripped.as_str());
                let mut out = parent;
                append_str(&mut out, "/");
                append_str(&mut out, path.as_str());
                append_str(&mut out, ".rs");
                proof {
                    assert(out@ =~= spec_parent(dir@).unwrap() + "/"@ + spec_mod_path(
                        spec_strip_prefix_all(import_specifier@, "super::"@),
                    ) + ".rs"@);
                }
                Some(out)
            } else {
                None
            }
        },
        AnalysisLanguage::Python => {
            if str_starts_with(import_specifier, ".") {
                let n = import_specifier.unicode_len();
                let mut level: usize = 0;
                while level < n && import_specifier.get_char(level) == '.'
                    invariant
                        level <= n,
                        n == import_specifier@.len(),
                        forall|j: int| 0 <= j < level ==> import_specifier@[j] == '.',
                    decreases n - level,
                {
                    level += 1;
                }
                proof {
                    lemma_leading_dots_exact(import_specifier@, level as int);
                    reveal_strlit(".");
                    assert("."@.len() == 1);
                    assert(import_specifier@.subrange(0, 1)[0] == import_specifier@[0]);
                    assert(import_specifier@[0] == '.');
                }
                let module = import_specifier.substring_char(level, n);
                proof {
                    assert(module@ =~= import_specifier@.skip(level as int));
                }
                let ghost dir0 = dir@;
                let mut current = dir;
                let mut up: usize = 1;
                while up < level
                    invariant
                        1 <= up <= level,
                        1 <= level,
                        language == AnalysisLanguage::Python,
                        spec_parent(importing_file@) == Some(dir0),
                        crate::text::spec_starts_with(import_specifier@, "."@),
                        spec_leading_dots(import_specifier@) == level as int,
                        spec_climb(dir0, level - 1) == spec_climb(current@, level - up),
                    decreases level - up,
                {
                    match parent_dir(current.as_str()) {
                        Some(p) => {
                            current = p;
                        },
                        None => {
                            return None;
                        },
                    }
                    up += 1;
                }
                proof {
                    assert(spec_climb(current@, 0) == Some(current@));
                }
                let mut modpath = String::new();
                let mn = module.unicode_len();
                let mut i: usize = 0;
                while i < mn
                    invariant
                        i <= mn,
                        mn == module@.len(),
                        modpath@ == spec_dots_to_slashes(module@).take(i as int),
                    decreases mn - i,
                {
                    let c = module.get_char(i);
                    if c == '.' {
                        push_char(&mut modpath, '/');
                    } else {
                        push_char(&mut modpath, c);
                    }
                    proof {
                        assert(modpath@ =~= spec_dots_to_slashes(module@).take(i + 1));
                    }
                    i += 1;
                }
                proof {
                    assert(spec_dots_to_slashes(module@).take(mn as int) =~= spec_dots_to_slashes(
                        module@,
                    ));
                }
                let mut out = join_path(current.as_str(), modpath.as_str());
                append_str(&mut out, ".py");
                proof {
                    assert(out@ =~= spec_join(current@, modpath@) + ".py"@);
                }
                Some(out)
            } else {
                None
            }
        },
        AnalysisLanguage::Go => {
            if str_starts_with(import_specifier, ".") {
                let mut trimmed = String::new();
                let n = import_specifier.unicode_len();
                let mut i: usize = 0;
                proof {
                    reveal(Seq::<char>::filter);
                    assert(trimmed@ =~= spec_unquoted(import_specifier@.take(0)));
                }
                while i < n
                    invariant
                        i <= n,
                        n == import_specifier@.len(),
                        trimmed@ == spec_unquoted(import_specifier@.take(i as int)),
                    decreases n - i,
                {
                    let c = import_specifier.get_char(i);
                    proof {
                        reveal(Seq::<char>::filter);
                        let pre = import_specifier@.take(i as int);
                        let nxt = import_specifier@.take(i + 1);
                        assert(nxt.drop_last() =~= pre);
                        assert(nxt.drop_last() == pre);
                        assert(nxt.last() == c);
                        assert(nxt.len() == i + 1);
                        if c != '"' {
                            assert(spec_unquoted(nxt) == spec_unquoted(pre).push(c));
                        } else {
                            assert(spec_unquoted(nxt) == spec_unquoted(pre));
                        }
                    }
                    if c != '"' {
                        push_char(&mut trimmed, c);
                    }
                    proof {
                        assert(trimmed@ =~= spec_unquoted(import_specifier@.take(i + 1)));
                    }
                    i += 1;
                }
                proof {
                    assert(import_specifier@.take(n as int) =~= import_specifier@);
                }
                Some(join_path(dir.as_str(), trimmed.as_str()))
            } else {
                None
            }
        },
    }
}

/// The shape of a specifier that names a local file: relative (leading
/// dot) for TypeScript, JavaScript, Python and Go; a crate, super or self
/// path for Rust.
pub open spec fn spec_local_specifier(lang: AnalysisLanguage, s: Seq<char>) -> bool {
    match lang {
        AnalysisLanguage::Rust => crate::text::spec_starts_with(s, "crate::"@)
            || crate::text::spec_starts_with(s, "super::"@) || crate::text::spec_starts_with(
            s,
            "self::"@,
        ),
        _ => crate::text::spec_starts_with(s, "."@),
    }
}

/// Inserts a string into a sorted list, keeping it sorted and free of
/// duplicates. Every entry of the result is the inserted string or one
/// already present.
fn insert_sorted_unique(v: &mut Vec<String>, x: String)
    ensures
        forall|q: int|
            0 <= q < final(v)@.len() ==> #[trigger] final(v)@[q] == x || old(v)@.contains(
                final(v)@[q],
            ),
{
    let ghost v0 = v@;
    let mut j: usize = 0;
    while j < v.len() && str_le(v[j].as_str(), x.as_str())
        invariant
            j <= v@.len(),
            v@ == v0,
        decreases v@.len() - j,
    {
        if str_eq(v[j].as_str(), x.as_str()) {
            proof {
                assert forall|q: int|
                    0 <= q < v@.len() implies #[trigger] v@[q] == x || v0.contains(v@[q]) by {
                    assert(v0[q] == v@[q]);
                }
            }
            return ;
        }
        j += 1;
    }
    v.insert(j, x);
    proof {
        assert forall|q: int|
            0 <= q < v@.len() implies #[trigger] v@[q] == x || v0.contains(v@[q]) by {
            if q < j {
                assert(v@[q] == v0[q]);
            } else if q > j {
                assert(v@[q] == v0[q - 1]);
            }
        }
    }
}

fn scan_quoted_after(line: &Vec<char>, start: usize) -> (r: Option<(usize, usize)>)
    ensures
        (match r {
            Some((a, b)) => start <= a && a <= b && b <= line@.len(),
            None => true,
        }),
{
    let n = line.len();
    if start > n {
        return None;
    }
    let mut i = start;
    while i < n && line[i] == ' '
        invariant
            start <= i <= n,
            n == line@.len(),
        decreases n - i,
    {
        i += 1;
    }
    if i >= n {
        return None;
    }
    let q = line[i];
    if q != '\'' && q != '"' {
        return None;
    }
    let begin = i + 1;
    let mut j = begin;
    while j < n && line[j] != q
        invariant
            begin <= j <= n,
            n == line@.len(),
        decreases n - j,
    {
        j += 1;
    }
    if j < n {
        Some((begin, j))
    } else {
        None
    }
}

fn chars_of(s: &str) -> (r: Vec<char>)
    ensures
        r@ == s@,
{
    let n = s.unicode_len();
    let mut r: Vec<char> = Vec::new();
    let mut i: usize = 0;
    while i < n
        invariant
            i <= n,
            n == s@.len(),
            r@ == s@.take(i as int),
        decreases n - i,
    {
        r.push(s.get_char(i));
        proof {
            assert(s@.take(i + 1) =~= s@.take(i as int).push(s@[i as int]));
        }
        i += 1;
    }
    proof {
        assert(s@.take(n as int) =~= s@);
    }
    r
}

fn string_of_range(line: &Vec<char>, a: usize, b: usize) -> (r: String)
    requires
        a <= b <= line@.len(),
    ensures
        r@ == line@.subrange(a as int, b as int),
{
    let mut out = String::new();
    let mut i = a;
    while i < b
        invariant
            a <= i <= b <= line@.len(),
            out@ == line@.subrange(a as int, i as int),
        decreases b - i,
    {
        push_char(&mut out, line[i]);
        proof {
            assert(line@.subrange(a as int, i + 1) =~= line@.subrange(a as int, i as int).push(
                line@[i as int],
            ));
        }
        i += 1;
    }
    out
}

fn find_in_line(line: &Vec<char>, start: usize, pat: &str) -> (r: Option<usize>)
    ensures
        (match r {
            Some(i) => start <= i && i + pat@.len() <= line@.len(),
            None => true,
        }),
{
    let n = line.len();
    let pn = pat.unicode_len();
    if pn == 0 || pn > n || start > n - pn {
        return None;
    }
    let mut i = start;
    while i <= n - pn
        invariant
            start <= i <= n - pn + 1,
            1 <= pn <= n,
            n == line@.len(),
            pn == pat@.len(),
        decreases n - pn + 1 - i,
    {
        let mut k: usize = 0;
        let mut m = true;
        while k < pn
            invariant
                k <= pn,
                pn == pat@.len(),
                n == line@.len(),
                i + pn <= n,
            decreases pn - k,
        {
            if line[i + k] != pat.get_char(k) {
                m = false;
                k = pn;
            } else {
                k += 1;
            }
        }
        if m {
            return Some(i);
        }
        i += 1;
    }
    None
}

fn is_word_char(c: char) -> bool {
    let v = c as u32;
    (48 <= v && v <= 57) || (65 <= v && v <= 90) || (97 <= v && v <= 122) || c == '_'
}

/// Scans source text for the imports that matter to local dependency
/// analysis: relative `import ... from` targets in TypeScript and
/// JavaScript, relative `from ... import` modules in Python, `crate`,
/// `super` and `self` use paths in Rust, and relative import strings in
/// Go. The result is sorted and free of duplicates. Unsupported file
/// types yield no imports.
pub fn extract_imports(file_path: &str, content: &str) -> (r: Result<Vec<String>, String>)
    ensures
        r is Ok,
        (match spec_language_of(file_path@) {
            Some(lang) => forall|q: int|
                0 <= q < r.unwrap()@.len() ==> spec_local_specifier(
                    lang,
                    (#[trigger] r.unwrap()@[q])@,
                ),
            None => r.unwrap()@.len() == 0,
        }),
{
    let language = match AnalysisLanguage::from_path(file_path) {
        Some(l) => l,
        None => {
            return Ok(Vec::new());
        },
    };
    let mut imports: Vec<String> = Vec::new();
    let chars = chars_of(content);
    if chars.len() == usize::MAX {
        return Ok(imports);
    }
    let n = chars.len();
    let mut line_start: usize = 0;
    let mut pos: usize = 0;
    while pos <= n
        invariant
            line_start <= pos,
            pos <= n + 1,
            n < usize::MAX,
            n == chars@.len(),
            spec_language_of(file_path@) == Some(language),
            forall|q: int|
                0 <= q < imports@.len() ==> spec_local_specifier(
                    language,
                    (#[trigger] imports@[q])@,
                ),
        decreases n + 1 - pos,
    {
        if pos == n || chars[pos] == '\n' {
            let line = string_of_range(&chars, line_start, pos);
            let lchars = chars_of(line.as_str());
            scan_line_imports(&lchars, language, &mut imports);
            line_start = pos + 1;
        }
        pos += 1;
    }
    Ok(imports)
}

fn scan_line_imports(line: &Vec<char>, language: AnalysisLanguage, imports: &mut Vec<String>)
    ensures
        forall|q: int|
            0 <= q < final(imports)@.len() ==> old(imports)@.contains(#[trigger] final(imports)@[q])
                || spec_local_specifier(language, final(imports)@[q]@),
{
    match language {
        AnalysisLanguage::TypeScript | AnalysisLanguage::JavaScript => {
            proof {
                reveal_strlit("import ");
                reveal_strlit(" from ");
                assert("import "@.len() == 7);
                assert(" from "@.len() == 6);
            }
            // binding the length keeps its machine bound in scope for the
            // offset arithmetic below
            let _line_len = line.len();
            match find_in_line(line, 0, "import ") {
                Some(ipos) => {
                    match find_in_line(line, ipos, " from ") {
                        Some(fpos) => {
                            match scan_quoted_after(line, fpos + 6) {
                                Some((a, b)) => {
                                    let path = string_of_range(line, a, b);
                                    if str_starts_with(path.as_str(), ".") {
                                        insert_sorted_unique(imports, path);
                                    }
                                },
                                None => {},
                            }
                        },
                        None => {},
                    }
                },
                None => {},
            }
        },
        AnalysisLanguage::Python => {
            proof {
                reveal_strlit("from ");
                reveal_strlit("import");
                assert("from "@.len() == 5);
            }
            match find_in_line(line, 0, "from ") {
                Some(fpos) => {
                    let n = line.len();
                    let mut i = fpos + 5;
                    while i < n && line[i] == ' '
                        invariant
                            i <= n,
                            n == line@.len(),
                        decreases n - i,
                    {
                        i += 1;
                    }
                    let start = i;
                    let mut j = i;
                    while j < n && (line[j] == '.' || is_word_char(line[j]))
                        invariant
                            start <= j <= n,
                            n == line@.len(),
                        decreases n - j,
                    {
                        j += 1;
                    }
                    if j > start && line[start] == '.' {
                        match find_in_line(line, j, "import") {
                            Some(_) => {
                                let path = string_of_range(line, start, j);
                                proof {
                                    reveal_strlit(".");
                                    assert("."@ =~= seq!['.']);
                                    assert(path@[0] == line@[start as int]);
                                    assert(path@.subrange(0, 1) =~= seq![path@[0]]);
                                    assert(crate::text::spec_starts_with(path@, "."@));
                                }
                                insert_sorted_unique(imports, path);
                            },
                            None => {},
                        }
                    }
                },
                None => {},
            }
        },
        AnalysisLanguage::Rust => {
            proof {
                reveal_strlit("use ");
                assert("use "@.len() == 4);
            }
            match find_in_line(line, 0, "use ") {
                Some(upos) => {
                    let n = line.len();
                    let mut i = upos + 4;
                    while i < n && line[i] == ' '
                        invariant
                            i <= n,
                            n == line@.len(),
                        decreases n - i,
                    {
                        i += 1;
                    }
                    let start = i;
                    let mut j = i;
                    while j < n && line[j] != ' '
                        invariant
                            start <= j <= n,
                            n == line@.len(),
                        decreases n - j,
                    {
                        j += 1;
                    }
                    if j > start {
                        let path = string_of_range(line, start, j);
                        if str_starts_with(path.as_str(), "crate::") || str_starts_with(
                            path.as_str(),
                            "super::",
                        ) || str_starts_with(path.as_str(), "self::") {
                            insert_sorted_unique(imports, path);
                        }
                    }
                },
                None => {},
            }
        },
        AnalysisLanguage::Go => {
            proof {
                reveal_strlit("import ");
                assert("import "@.len() == 7);
            }
            // binding the length keeps its machine bound in scope for the
            // offset arithmetic below
            let _line_len = line.len();
            match find_in_line(line, 0, "import ") {
                Some(ipos) => {
                    match scan_quoted_after(line, ipos + 7) {
                        Some((a, b)) => {
                            let path = string_of_range(line, a, b);
                            if str_starts_with(path.as_str(), ".") {
                                insert_sorted_unique(imports, path);
                            }
                        },
                        None => {},
                    }
                },
                None => {},
            }
        },
    }
}

} // verus!
