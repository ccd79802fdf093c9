//! Dependency graph construction from import relationships, and
//! topological ordering of changed files.
//!
//! The graph is a list of `(path, dependencies)` pairs, one entry per
//! changed file, in the files' order. An ordering puts every file after
//! the changed files it depends on; when that is impossible — that is,
//! when some nonempty set of the files depend on one another in a cycle —
//! no ordering is produced.

use vstd::prelude::*;

use crate::git::FileChangeStats;
use crate::import_analyzer::{self, AnalysisLanguage};
use crate::sorting::{lemma_opts_ms_take, lemma_remove_multiset, opts_ms};
use crate::text::str_eq;
use vstd::multiset::Multiset;
use vstd::pervasive::VecAdditionalExecFns;

verus! {

broadcast use vstd::multiset::group_multiset_axioms;

/// A path normalized for comparison: leading `./` and `../` runs are
/// dropped.
pub fn normalize_path(path: &str) -> (r: String)
    ensures
        r@ == crate::import_analyzer::spec_strip_prefix_all(
            crate::import_analyzer::spec_strip_prefix_all(path@, "./"@),
            "../"@,
        ),
{
    let s1 = import_analyzer::strip_prefix_all(path, "./");
    import_analyzer::strip_prefix_all(s1.as_str(), "../")
}

/// The normalized form of a path.
pub open spec fn spec_normalized(p: Seq<char>) -> Seq<char> {
    crate::import_analyzer::spec_strip_prefix_all(
        crate::import_analyzer::spec_strip_prefix_all(p, "./"@),
        "../"@,
    )
}

/// Whether a normalized path is the normalized path of some input file.
pub open spec fn spec_in_changed(files: Seq<FileChangeStats>, p: Seq<char>) -> bool {
    exists|k: int| 0 <= k < files.len() && spec_normalized((#[trigger] files[k]).path@) == p
}

fn contains_normalized(paths: &Vec<String>, x: &str) -> (r: bool)
    ensures
        r == (exists|k: int| 0 <= k < paths@.len() && (#[trigger] paths@[k])@ == x@),
{
    let mut i: usize = 0;
    while i < paths.len()
        invariant
            i <= paths@.len(),
            forall|k: int| 0 <= k < i ==> (#[trigger] paths@[k])@ != x@,
        decreases paths@.len() - i,
    {
        if str_eq(paths[i].as_str(), x) {
            return true;
        }
        i += 1;
    }
    false
}

/// Whether the caller read contents for a path.
pub open spec fn spec_has_content(file_contents: Seq<(String, String)>, p: Seq<char>) -> bool {
    exists|k: int| 0 <= k < file_contents.len() && (#[trigger] file_contents[k]).0@ == p
}

/// The contents of one changed file, if the caller read it.
fn lookup_content<'a>(file_contents: &'a Vec<(String, String)>, path: &str) -> (r: Option<
    &'a String,
>)
    ensures
        r is None ==> !spec_has_content(file_contents@, path@),
        r is Some ==> spec_has_content(file_contents@, path@),
{
    let mut i: usize = 0;
    while i < file_contents.len()
        invariant
            i <= file_contents@.len(),
            forall|k: int| 0 <= k < i ==> (#[trigger] file_contents@[k]).0@ != path@,
        decreases file_contents@.len() - i,
    {
        if str_eq(file_contents[i].0.as_str(), path) {
            proof {
                assert(file_contents@[i as int].0@ == path@);
            }
            return Some(&file_contents[i].1);
        }
        i += 1;
    }
    None
}

/// The local dependencies of one changed file: its imports, resolved to
/// paths and normalized. A file with no read content or an unsupported
/// language has none.
fn extract_file_dependencies(
    file_path: &str,
    file_contents: &Vec<(String, String)>,
) -> (r: Vec<String>)
    ensures
        !spec_has_content(file_contents@, file_path@) || crate::import_analyzer::spec_language_of(
            file_path@,
        ) is None ==> r@.len() == 0,
{
    let content = match lookup_content(file_contents, file_path) {
        Some(c) => c,
        None => {
            return Vec::new();
        },
    };
    let language = match AnalysisLanguage::from_path(file_path) {
        Some(l) => l,
        None => {
            return Vec::new();
        },
    };
    let specifiers = match import_analyzer::extract_imports(file_path, content.as_str()) {
        Ok(s) => s,
        Err(_) => {
            return Vec::new();
        },
    };
    let mut dependencies: Vec<String> = Vec::new();
    let mut i: usize = 0;
    while i < specifiers.len()
        invariant
            i <= specifiers@.len(),
            spec_has_content(file_contents@, file_path@),
            crate::import_analyzer::spec_language_of(file_path@) is Some,
        decreases specifiers@.len() - i,
    {
        match import_analyzer::resolve_import_path(file_path, specifiers[i].as_str(), language) {
            Some(resolved) => {
                dependencies.push(normalize_path(resolved.as_str()));
            },
            None => {},
        }
        i += 1;
    }
    dependencies
}

/// Builds the dependency graph of the changed files: one entry per file,
/// in order, holding only those of the file's dependencies that are
/// themselves among the changed files — imports of unchanged or external
/// files are filtered out.
pub fn build_dependency_graph(
    files: &Vec<FileChangeStats>,
    file_contents: &Vec<(String, String)>,
) -> (r: Vec<(String, Vec<String>)>)
    ensures
        r@.len() == files@.len(),
        forall|i: int| 0 <= i < r@.len() ==> (#[trigger] r@[i]).0 == files@[i].path,
        forall|i: int, t: int|
            0 <= i < r@.len() && 0 <= t < r@[i].1@.len() ==> spec_in_changed(
                files@,
                spec_normalized((#[trigger] r@[i].1@[t])@),
            ),
        forall|i: int|
            0 <= i < r@.len() && (!spec_has_content(file_contents@, files@[i].path@)
                || crate::import_analyzer::spec_language_of(files@[i].path@) is None)
                ==> (#[trigger] r@[i]).1@.len() == 0,
{
    let mut changed: Vec<String> = Vec::new();
    let mut i: usize = 0;
    while i < files.len()
        invariant
            i <= files@.len(),
            changed@.len() == i,
            forall|k: int|
                0 <= k < i ==> (#[trigger] changed@[k])@ == spec_normalized(files@[k].path@),
        decreases files@.len() - i,
    {
        changed.push(normalize_path(files[i].path.as_str()));
        i += 1;
    }
    let ghost n = files@.len();
    let mut graph: Vec<(String, Vec<String>)> = Vec::new();
    let mut i: usize = 0;
    while i < files.len()
        invariant
            i <= files@.len(),
            graph@.len() == i,
            changed@.len() == n,
            n == files@.len(),
            forall|k: int|
                0 <= k < n ==> (#[trigger] changed@[k])@ == spec_normalized(files@[k].path@),
            forall|j: int| 0 <= j < i ==> (#[trigger] graph@[j]).0 == files@[j].path,
            forall|j: int, t: int|
                0 <= j < i && 0 <= t < graph@[j].1@.len() ==> spec_in_changed(
                    files@,
                    spec_normalized((#[trigger] graph@[j].1@[t])@),
                ),
            forall|j: int|
                0 <= j < i && (!spec_has_content(file_contents@, files@[j].path@)
                    || crate::import_analyzer::spec_language_of(files@[j].path@) is None)
                    ==> (#[trigger] graph@[j]).1@.len() == 0,
        decreases files@.len() - i,
    {
        let deps = extract_file_dependencies(files[i].path.as_str(), file_contents);
        let mut kept: Vec<String> = Vec::new();
        let mut k: usize = 0;
        while k < deps.len()
            invariant
                k <= deps@.len(),
                changed@.len() == n,
                n == files@.len(),
                forall|q: int|
                    0 <= q < n ==> (#[trigger] changed@[q])@ == spec_normalized(files@[q].path@),
                kept@.len() <= k,
                forall|t: int|
                    0 <= t < kept@.len() ==> spec_in_changed(
                        files@,
                        spec_normalized((#[trigger] kept@[t])@),
                    ),
            decreases deps@.len() - k,
        {
            let nd = normalize_path(deps[k].as_str());
            if contains_normalized(&changed, nd.as_str()) {
                kept.push(deps[k].clone());
            }
            k += 1;
        }
        let ghost kept_snapshot = kept@;
        let ghost pre_graph = graph@;
        let entry = (files[i].path.clone(), kept);
        proof {
            assert(entry.1@ == kept_snapshot);
        }
        graph.push(entry);
        proof {
            assert(graph@[i as int] == entry);
            assert forall|j: int, t: int|
                0 <= j < i + 1 && 0 <= t < graph@[j].1@.len() implies spec_in_changed(
                files@,
                spec_normalized((#[trigger] graph@[j].1@[t])@),
            ) by {
                if j < i {
                    assert(graph@[j] == pre_graph[j]);
                    assert(spec_in_changed(files@, spec_normalized((pre_graph[j].1@[t])@)));
                } else {
                    assert(graph@[j].1@[t] == kept_snapshot[t]);
                    assert(spec_in_changed(files@, spec_normalized((kept_snapshot[t])@)));
                }
            }
        }
        i += 1;
    }
    graph
}

/// The dependency list the graph holds for a path: the first entry with
/// that key, or nothing.
pub open spec fn spec_graph_deps(graph: Seq<(String, Vec<String>)>, p: Seq<char>) -> Seq<String>
    decreases graph.len(),
{
    if graph.len() == 0 {
        Seq::empty()
    } else if graph[0].0@ == p {
        graph[0].1@
    } else {
        spec_graph_deps(graph.drop_first(), p)
    }
}

/// Whether some input file carries the path.
pub open spec fn spec_path_in(files: Seq<FileChangeStats>, p: Seq<char>) -> bool {
    exists|k: int| 0 <= k < files.len() && (#[trigger] files[k]).path@ == p
}

/// Dependencies first: every dependency of an entry that names another
/// input file appears strictly earlier in the sequence.
pub open spec fn spec_deps_first(
    v: Seq<FileChangeStats>,
    files: Seq<FileChangeStats>,
    graph: Seq<(String, Vec<String>)>,
) -> bool {
    forall|i: int, d: int|
        0 <= i < v.len() && 0 <= d < spec_graph_deps(graph, v[i].path@).len() && spec_path_in(
            files,
            (#[trigger] spec_graph_deps(graph, v[i].path@)[d])@,
        ) ==> exists|j: int| 0 <= j < i && (#[trigger] v[j]).path@ == spec_graph_deps(
            graph,
            v[i].path@,
        )[d]@
}

/// A dependency cycle among the input files: a nonempty collection of
/// files (flagged by position) each of which depends on a member of the
/// collection. No dependencies-first order exists for such files.
pub open spec fn spec_blocked(
    files: Seq<FileChangeStats>,
    graph: Seq<(String, Vec<String>)>,
    blocked: Seq<bool>,
) -> bool {
    &&& blocked.len() == files.len()
    &&& (exists|i: int| 0 <= i < files.len() && blocked[i])
    &&& (forall|i: int|
        0 <= i < files.len() && #[trigger] blocked[i] ==> exists|k: int, d: int|
            #![trigger blocked[k], spec_graph_deps(graph, files[i].path@)[d]]
            {
                &&& 0 <= k < files.len()
                &&& blocked[k]
                &&& 0 <= d < spec_graph_deps(graph, files[i].path@).len()
                &&& spec_graph_deps(graph, files[i].path@)[d]@ == files[k].path@
            })
}

fn deps_of<'a>(graph: &'a Vec<(String, Vec<String>)>, p: &str) -> (r: Option<&'a Vec<String>>)
    ensures
        (match r {
            Some(v) => v@ == spec_graph_deps(graph@, p@),
            None => spec_graph_deps(graph@, p@) == Seq::<String>::empty(),
        }),
{
    let mut i: usize = 0;
    proof {
        assert(graph@.skip(0) =~= graph@);
    }
    while i < graph.len()
        invariant
            i <= graph@.len(),
            spec_graph_deps(graph@, p@) == spec_graph_deps(graph@.skip(i as int), p@),
        decreases graph@.len() - i,
    {
        proof {
            assert(graph@.skip(i as int)[0] == graph@[i as int]);
            assert(graph@.skip(i as int).drop_first() =~= graph@.skip(i + 1));
        }
        if str_eq(graph[i].0.as_str(), p) {
            return Some(&graph[i].1);
        }
        i += 1;
    }
    None
}

/// Whether some already-emitted file carries the path.
pub open spec fn spec_emitted_has(
    files: Seq<FileChangeStats>,
    emitted: Seq<bool>,
    p: Seq<char>,
) -> bool {
    exists|j: int| 0 <= j < files.len() && emitted[j] && (#[trigger] files[j]).path@ == p
}

fn emitted_has_path(files: &Vec<FileChangeStats>, emitted: &Vec<bool>, p: &str) -> (r: bool)
    requires
        emitted@.len() == files@.len(),
    ensures
        r == spec_emitted_has(files@, emitted@, p@),
{
    let mut j: usize = 0;
    while j < files.len()
        invariant
            j <= files@.len(),
            emitted@.len() == files@.len(),
            forall|k: int| 0 <= k < j ==> !(emitted@[k] && (#[trigger] files@[k]).path@ == p@),
        decreases files@.len() - j,
    {
        if emitted[j] && str_eq(files[j].path.as_str(), p) {
            return true;
        }
        j += 1;
    }
    false
}

/// A file may be emitted when each of its dependencies either names no
/// input file or names one already emitted.
pub open spec fn spec_eligible(
    files: Seq<FileChangeStats>,
    graph: Seq<(String, Vec<String>)>,
    emitted: Seq<bool>,
    i: int,
) -> bool {
    forall|d: int|
        0 <= d < spec_graph_deps(graph, files[i].path@).len() ==> {
            ||| !spec_path_in(files, (#[trigger] spec_graph_deps(graph, files[i].path@)[d])@)
            ||| spec_emitted_has(files, emitted, spec_graph_deps(graph, files[i].path@)[d]@)
        }
}

fn eligible(
    files: &Vec<FileChangeStats>,
    graph: &Vec<(String, Vec<String>)>,
    emitted: &Vec<bool>,
    i: usize,
) -> (r: bool)
    requires
        emitted@.len() == files@.len(),
        i < files@.len(),
    ensures
        r == spec_eligible(files@, graph@, emitted@, i as int),
{
    let deps = match deps_of(graph, files[i].path.as_str()) {
        Some(d) => d,
        None => {
            return true;
        },
    };
    let ghost dseq = spec_graph_deps(graph@, files@[i as int].path@);
    let mut d: usize = 0;
    while d < deps.len()
        invariant
            d <= deps@.len(),
            deps@ == dseq,
            emitted@.len() == files@.len(),
            i < files@.len(),
            dseq == spec_graph_deps(graph@, files@[i as int].path@),
            forall|t: int|
                0 <= t < d ==> !spec_path_in(files@, (#[trigger] dseq[t])@) || spec_emitted_has(
                    files@,
                    emitted@,
                    dseq[t]@,
                ),
        decreases deps@.len() - d,
    {
        let among = path_among(files, deps[d].as_str());
        if among && !emitted_has_path(files, emitted, deps[d].as_str()) {
            return false;
        }
        d += 1;
    }
    true
}

fn path_among(files: &Vec<FileChangeStats>, p: &str) -> (r: bool)
    ensures
        r == spec_path_in(files@, p@),
{
    let mut k: usize = 0;
    while k < files.len()
        invariant
            k <= files@.len(),
            forall|q: int| 0 <= q < k ==> (#[trigger] files@[q]).path@ != p@,
        decreases files@.len() - k,
    {
        if str_eq(files[k].path.as_str(), p) {
            return true;
        }
        k += 1;
    }
    false
}

/// The emit order is consistent: every emitted file's in-set dependencies
/// were emitted before it.
pub open spec fn spec_order_ok(
    order: Seq<usize>,
    files: Seq<FileChangeStats>,
    graph: Seq<(String, Vec<String>)>,
) -> bool {
    forall|q: int, d: int|
        0 <= q < order.len() && 0 <= d < spec_graph_deps(
            graph,
            files[order[q] as int].path@,
        ).len() && spec_path_in(
            files,
            (#[trigger] spec_graph_deps(graph, files[order[q] as int].path@)[d])@,
        ) ==> exists|p: int|
            0 <= p < q && files[#[trigger] order[p] as int].path@ == spec_graph_deps(
                graph,
                files[order[q] as int].path@,
            )[d]@
}

/// Bookkeeping tying the emitted flags to the emit order: flags and order
/// list exactly the same files, each at most once.
pub open spec fn spec_emit_state(order: Seq<usize>, emitted: Seq<bool>, n: int) -> bool {
    &&& emitted.len() == n
    &&& (forall|q: int| 0 <= q < order.len() ==> (#[trigger] order[q]) < n)
    &&& (forall|q: int| 0 <= q < order.len() ==> emitted[#[trigger] order[q] as int])
    &&& (forall|i: int|
        0 <= i < n && emitted[i] ==> exists|q: int| 0 <= q < order.len() && #[trigger] order[q] == i)
    &&& (forall|p: int, q: int| 0 <= p < q < order.len() ==> #[trigger] order[p] != #[trigger] order[q])
    &&& order.len() <= n
}

/// One scan over all files, emitting every file whose dependencies are
/// settled. Reports whether anything was emitted.
fn run_pass(
    files: &Vec<FileChangeStats>,
    graph: &Vec<(String, Vec<String>)>,
    emitted: &mut Vec<bool>,
    order: &mut Vec<usize>,
) -> (progress: bool)
    requires
        spec_emit_state(old(order)@, old(emitted)@, files@.len() as int),
        spec_order_ok(old(order)@, files@, graph@),
    ensures
        spec_emit_state(final(order)@, final(emitted)@, files@.len() as int),
        spec_order_ok(final(order)@, files@, graph@),
        final(order)@.len() >= old(order)@.len(),
        progress ==> final(order)@.len() > old(order)@.len(),
        !progress ==> final(order)@ == old(order)@ && final(emitted)@ == old(emitted)@ && (
        forall|i: int|
            0 <= i < files@.len() && !final(emitted)@[i] ==> !spec_eligible(
                files@,
                graph@,
                final(emitted)@,
                i,
            )),
{
    let ghost n = files@.len() as int;
    let mut progress = false;
    let mut i: usize = 0;
    while i < files.len()
        invariant
            i <= files@.len(),
            n == files@.len(),
            spec_emit_state(order@, emitted@, n),
            spec_order_ok(order@, files@, graph@),
            order@.len() >= old(order)@.len(),
            progress ==> order@.len() > old(order)@.len(),
            !progress ==> order@ == old(order)@ && emitted@ == old(emitted)@ && (forall|k: int|
                0 <= k < i && !emitted@[k] ==> !spec_eligible(files@, graph@, emitted@, k)),
        decreases files@.len() - i,
    {
        if !emitted[i] && eligible(files, graph, emitted, i) {
            let ghost pre_order = order@;
            let ghost pre_emitted = emitted@;
            emitted.set(i, true);
            order.push(i);
            proof {
                assert(order@.len() == pre_order.len() + 1);
                assert(order@[order@.len() - 1] == i);
                assert(pre_order.len() < n) by {
                    let values = Set::new(
                        |v: int| exists|q: int|
                            0 <= q < pre_order.len() && (#[trigger] pre_order[q]) as int == v,
                    );
                    lemma_distinct_seq_set_card_gen(pre_order, values, pre_order.len() as int, n);
                    assert(!values.contains(i as int)) by {
                        if values.contains(i as int) {
                            let q = choose|q: int|
                                0 <= q < pre_order.len() && (#[trigger] pre_order[q]) as int
                                    == i as int;
                            assert(pre_emitted[pre_order[q] as int]);
                        }
                    }
                    lemma_punctured_range_card(n, i as int);
                    assert forall|v: int| values.contains(v) implies Set::new(
                        |v: int| 0 <= v < n && v != i as int,
                    ).contains(v) by {
                        let q = choose|q: int|
                            0 <= q < pre_order.len() && (#[trigger] pre_order[q]) as int == v;
                    }
                    vstd::set_lib::lemma_len_subset(
                        values,
                        Set::new(|v: int| 0 <= v < n && v != i as int),
                    );
                }
                assert(spec_emit_state(order@, emitted@, n)) by {
                    assert forall|k: int|
                        0 <= k < n && emitted@[k] implies exists|q: int|
                        0 <= q < order@.len() && #[trigger] order@[q] == k by {
                        if k == i as int {
                            assert(order@[order@.len() - 1] == i);
                        } else {
                            assert(pre_emitted[k]);
                            let q = choose|q: int|
                                0 <= q < pre_order.len() && #[trigger] pre_order[q] == k;
                            assert(order@[q] == pre_order[q]);
                        }
                    }
                    assert forall|p: int, q: int|
                        0 <= p < q < order@.len() implies #[trigger] order@[p]
                        != #[trigger] order@[q] by {
                        if q == order@.len() - 1 {
                            if order@[p] == i {
                                assert(pre_emitted[pre_order[p] as int]);
                            }
                        }
                    }
                }
                assert forall|q: int, d: int|
                    0 <= q < order@.len() && 0 <= d < spec_graph_deps(
                        graph@,
                        files@[order@[q] as int].path@,
                    ).len() && spec_path_in(
                        files@,
                        (#[trigger] spec_graph_deps(graph@, files@[order@[q] as int].path@)[d])@,
                    ) implies exists|p: int|
                    0 <= p < q && files@[#[trigger] order@[p] as int].path@ == spec_graph_deps(
                        graph@,
                        files@[order@[q] as int].path@,
                    )[d]@ by {
                    let deps = spec_graph_deps(graph@, files@[order@[q] as int].path@);
                    if q < pre_order.len() {
                        assert(spec_order_ok(pre_order, files@, graph@));
                        assert(order@[q] == pre_order[q]);
                        let p = choose|p: int|
                            0 <= p < q && files@[pre_order[p] as int].path@ == deps[d]@;
                        assert(files@[order@[p] as int].path@ == deps[d]@);
                    } else {
                        assert(order@[q] == i);
                        assert(spec_eligible(files@, graph@, pre_emitted, i as int));
                        assert(!spec_path_in(files@, deps[d]@) || spec_emitted_has(
                            files@,
                            pre_emitted,
                            deps[d]@,
                        ));
                        let j = choose|j: int|
                            0 <= j < files@.len() && pre_emitted[j] && (#[trigger] files@[j]).path@
                                == deps[d]@;
                        let p = choose|p: int|
                            0 <= p < pre_order.len() && #[trigger] pre_order[p] == j;
                        assert(files@[order@[p] as int].path@ == deps[d]@);
                    }
                }
            }
            progress = true;
        }
        i += 1;
    }
    progress
}

fn topo_order(files: &Vec<FileChangeStats>, graph: &Vec<(String, Vec<String>)>) -> (r: Option<
    Vec<usize>,
>)
    ensures
        (match r {
            Some(o) => spec_emit_state(o@, Seq::new(files@.len(), |i: int| true), files@.len() as int)
                && o@.len() == files@.len() && spec_order_ok(o@, files@, graph@),
            None => exists|blocked: Seq<bool>| spec_blocked(files@, graph@, blocked),
        }),
{
    let n = files.len();
    let mut emitted: Vec<bool> = Vec::new();
    let mut i: usize = 0;
    while i < n
        invariant
            i <= n,
            emitted@.len() == i,
            forall|k: int| 0 <= k < i ==> !(#[trigger] emitted@[k]),
        decreases n - i,
    {
        emitted.push(false);
        i += 1;
    }
    let mut order: Vec<usize> = Vec::new();
    loop
        invariant
            n == files@.len(),
            spec_emit_state(order@, emitted@, n as int),
            spec_order_ok(order@, files@, graph@),
        ensures
            (order@.len() == files@.len() && spec_emit_state(order@, emitted@, n as int)
                && spec_order_ok(order@, files@, graph@)) || (exists|blocked: Seq<bool>|
                spec_blocked(files@, graph@, blocked)),
        decreases n - order@.len(),
    {
        if order.len() == n {
            break ;
        }
        let progress = run_pass(files, graph, &mut emitted, &mut order);
        if !progress {
            proof {
                lemma_blocked_witness(files@, graph@, emitted@, order@);
            }
            break ;
        }
    }
    if order.len() == n {
        proof {
            assert forall|k: int| 0 <= k < n implies emitted@[k] by {
                lemma_full_order_emits_all(order@, emitted@, n as int, k);
            }
            assert(emitted@ =~= Seq::new(files@.len(), |i: int| true));
        }
        Some(order)
    } else {
        None
    }
}

/// With as many distinct in-range entries as files, every file is
/// emitted.
proof fn lemma_full_order_emits_all(order: Seq<usize>, emitted: Seq<bool>, n: int, k: int)
    requires
        spec_emit_state(order, emitted, n),
        order.len() == n,
        0 <= k < n,
    ensures
        emitted[k],
{
    if !emitted[k] {
        // order holds n distinct values drawn from n values other than k:
        // impossible; expose it by mapping order into the n-1 remaining
        // slots via a pigeonhole on the set of values
        let values = Set::new(|v: int| exists|q: int| 0 <= q < order.len() && order[q] == v);
        assert forall|q: int| 0 <= q < order.len() implies values.contains(
            #[trigger] order[q] as int,
        ) by {}
        lemma_distinct_seq_set_card_gen(order, values, n, n);
        assert(values.contains(k)) by {
            lemma_range_minus_one_card(values, n, k);
        }
        let q = choose|q: int| 0 <= q < order.len() && order[q] == k;
        assert(emitted[order[q] as int]);
    }
}

/// A sequence of `m` distinct values bounded by `n` has a value set of
/// size `m`.
proof fn lemma_distinct_seq_set_card_gen(order: Seq<usize>, values: Set<int>, m: int, n: int)
    requires
        values == Set::new(
            |v: int| exists|q: int| 0 <= q < order.len() && (#[trigger] order[q]) as int == v,
        ),
        forall|q: int| 0 <= q < order.len() ==> (#[trigger] order[q]) < n,
        forall|p: int, q: int| 0 <= p < q < order.len() ==> #[trigger] order[p] != #[trigger] order[q],
        order.len() == m,
        0 <= m,
    ensures
        values.finite(),
        values.len() == m,
    decreases m,
{
    if m == 0 {
        assert(values =~= Set::<int>::empty());
    } else {
        let last = order.last() as int;
        let rest = order.drop_last();
        let rest_values = Set::new(
            |v: int| exists|q: int| 0 <= q < rest.len() && (#[trigger] rest[q]) as int == v,
        );
        assert forall|q: int| 0 <= q < rest.len() implies (#[trigger] rest[q]) == order[q] by {}
        lemma_distinct_seq_set_card_gen(rest, rest_values, m - 1, n);
        assert(!rest_values.contains(last)) by {
            if rest_values.contains(last) {
                let q = choose|q: int| 0 <= q < rest.len() && (#[trigger] rest[q]) as int == last;
                assert(order[q] == order[order.len() - 1]);
            }
        }
        assert forall|v: int| values.contains(v) implies rest_values.insert(last).contains(
            v,
        ) by {
            let q = choose|q: int| 0 <= q < order.len() && (#[trigger] order[q]) as int == v;
            if q < order.len() - 1 {
                assert(rest[q] == order[q]);
                assert(rest_values.contains(v));
            } else {
                assert(v == last);
            }
        }
        assert forall|v: int| rest_values.insert(last).contains(v) implies values.contains(
            v,
        ) by {
            if v == last {
                assert((order[order.len() - 1]) as int == v);
            } else {
                let q = choose|q: int| 0 <= q < rest.len() && (#[trigger] rest[q]) as int == v;
                assert((order[q]) as int == v);
            }
        }
        assert(values =~= rest_values.insert(last));
    }
}

/// A set of `n` distinct values below `n` that misses `k < n` cannot
/// exist: its size would exceed the `n - 1` remaining values.
proof fn lemma_range_minus_one_card(values: Set<int>, n: int, k: int)
    requires
        values.finite(),
        values.len() == n,
        forall|v: int| #[trigger] values.contains(v) ==> 0 <= v < n,
        0 <= k < n,
    ensures
        values.contains(k),
{
    if !values.contains(k) {
        let range = Set::new(|v: int| 0 <= v < n && v != k);
        assert(values.subset_of(range));
        lemma_punctured_range_card(n, k);
        vstd::set_lib::lemma_len_subset(values, range);
    }
}

proof fn lemma_punctured_range_card(n: int, k: int)
    requires
        0 <= k < n,
    ensures
        Set::new(|v: int| 0 <= v < n && v != k).finite(),
        Set::new(|v: int| 0 <= v < n && v != k).len() == n - 1,
{
    let range = vstd::set_lib::set_int_range(0, n);
    vstd::set_lib::lemma_int_range(0, n);
    assert(Set::new(|v: int| 0 <= v < n && v != k) =~= range.remove(k));
}

/// An ineligible unemitted file depends on some unemitted input file.
proof fn lemma_unemitted_dep(
    files: Seq<FileChangeStats>,
    graph: Seq<(String, Vec<String>)>,
    emitted: Seq<bool>,
    i: int,
)
    requires
        emitted.len() == files.len(),
        0 <= i < files.len(),
        !emitted[i],
        !spec_eligible(files, graph, emitted, i),
    ensures
        exists|d: int, k: int|
            #![trigger spec_graph_deps(graph, files[i].path@)[d], files[k]]
            {
                &&& 0 <= d < spec_graph_deps(graph, files[i].path@).len()
                &&& 0 <= k < files.len()
                &&& spec_graph_deps(graph, files[i].path@)[d]@ == files[k].path@
                &&& !emitted[k]
            },
{
    let deps = spec_graph_deps(graph, files[i].path@);
    let d = choose|d: int|
        !(0 <= d < deps.len() ==> {
            ||| !spec_path_in(files, (#[trigger] deps[d])@)
            ||| spec_emitted_has(files, emitted, deps[d]@)
        });
    assert(spec_path_in(files, deps[d]@));
    let k = choose|k: int| 0 <= k < files.len() && (#[trigger] files[k]).path@ == deps[d]@;
    assert(!emitted[k]) by {
        if emitted[k] {
            assert(spec_emitted_has(files, emitted, deps[d]@));
        }
    }
    assert(0 <= d < spec_graph_deps(graph, files[i].path@).len() && 0 <= k < files.len()
        && spec_graph_deps(graph, files[i].path@)[d]@ == files[k].path@ && !emitted[k]);
}

/// With fewer order entries than files, some file is unemitted.
proof fn lemma_some_unemitted(order: Seq<usize>, emitted: Seq<bool>, n: int)
    requires
        spec_emit_state(order, emitted, n),
        order.len() < n,
    ensures
        exists|i: int| 0 <= i < n && !emitted[i],
{
    if forall|i: int| 0 <= i < n ==> #[trigger] emitted[i] {
        let values = Set::new(
            |v: int| exists|q: int| 0 <= q < order.len() && (#[trigger] order[q]) as int == v,
        );
        lemma_distinct_seq_set_card_gen(order, values, order.len() as int, n);
        let range = vstd::set_lib::set_int_range(0, n);
        vstd::set_lib::lemma_int_range(0, n);
        assert forall|v: int| range.contains(v) implies values.contains(v) by {
            assert(emitted[v]);
            let q = choose|q: int| 0 <= q < order.len() && #[trigger] order[q] == v;
            assert(0 <= q < order.len() && (order[q]) as int == v);
        }
        vstd::set_lib::lemma_len_subset(range, values);
    }
}

/// One blocked file's edge: it depends on another blocked file.
proof fn lemma_blocked_one(
    files: Seq<FileChangeStats>,
    graph: Seq<(String, Vec<String>)>,
    emitted: Seq<bool>,
    blocked: Seq<bool>,
    i: int,
)
    requires
        emitted.len() == files.len(),
        blocked.len() == files.len(),
        forall|t: int| 0 <= t < files.len() ==> ((#[trigger] blocked[t]) <==> !emitted[t]),
        0 <= i < files.len(),
        blocked[i],
        !spec_eligible(files, graph, emitted, i),
    ensures
        exists|k: int, d: int|
            #![trigger blocked[k], spec_graph_deps(graph, files[i].path@)[d]]
            {
                &&& 0 <= k < files.len()
                &&& blocked[k]
                &&& 0 <= d < spec_graph_deps(graph, files[i].path@).len()
                &&& spec_graph_deps(graph, files[i].path@)[d]@ == files[k].path@
            },
{
    lemma_unemitted_dep(files, graph, emitted, i);
    let (d, k): (int, int) = choose|d: int, k: int|
        #![trigger spec_graph_deps(graph, files[i].path@)[d], files[k]]
        {
            &&& 0 <= d < spec_graph_deps(graph, files[i].path@).len()
            &&& 0 <= k < files.len()
            &&& spec_graph_deps(graph, files[i].path@)[d]@ == files[k].path@
            &&& !emitted[k]
        };
    assert(blocked[k]);
    assert(0 <= d < spec_graph_deps(graph, files[i].path@).len() && spec_graph_deps(
        graph,
        files[i].path@,
    )[d]@ == files[k].path@);
}

/// When a pass emits nothing and files remain, the remaining files block
/// one another: each has a dependency on another remaining file.
proof fn lemma_blocked_witness(
    files: Seq<FileChangeStats>,
    graph: Seq<(String, Vec<String>)>,
    emitted: Seq<bool>,
    order: Seq<usize>,
)
    requires
        spec_emit_state(order, emitted, files.len() as int),
        order.len() < files.len(),
        forall|i: int|
            0 <= i < files.len() && !emitted[i] ==> !spec_eligible(files, graph, emitted, i),
    ensures
        exists|blocked: Seq<bool>| spec_blocked(files, graph, blocked),
{
    let n = files.len() as int;
    lemma_some_unemitted(order, emitted, n);
    let blocked = Seq::new(n as nat, |i: int| !emitted[i]);
    let w = choose|i: int| 0 <= i < n && !emitted[i];
    assert(blocked[w]);
    assert forall|i: int| 0 <= i < n && #[trigger] blocked[i] implies exists|k: int, d: int|
        #![trigger blocked[k], spec_graph_deps(graph, files[i].path@)[d]]
        {
            &&& 0 <= k < files.len()
            &&& blocked[k]
            &&& 0 <= d < spec_graph_deps(graph, files[i].path@).len()
            &&& spec_graph_deps(graph, files[i].path@)[d]@ == files[k].path@
        } by {
        lemma_blocked_one(files, graph, emitted, blocked, i);
    }
    assert(spec_blocked(files, graph, blocked));
}

/// Moves the files out in the given index order. The order holds each
/// index exactly once, so the result is exactly the input files, in that
/// order.
fn extract_in_order(files: Vec<FileChangeStats>, order: &Vec<usize>) -> (r: Vec<FileChangeStats>)
    requires
        order@.len() == files@.len(),
        forall|q: int| 0 <= q < order@.len() ==> (#[trigger] order@[q]) < files@.len(),
        forall|p: int, q: int|
            0 <= p < q < order@.len() ==> #[trigger] order@[p] != #[trigger] order@[q],
    ensures
        r@.to_multiset() == files@.to_multiset(),
        r@.len() == files@.len(),
        forall|p: int| 0 <= p < r@.len() ==> #[trigger] r@[p] == files@[order@[p] as int],
{
    let ghost orig_ms = files@.to_multiset();
    let ghost files0 = files@;
    let ghost n = files@.len();
    let mut slots: Vec<Option<FileChangeStats>> = Vec::new();
    let mut rest = files;
    proof {
        assert(opts_ms(slots@) =~= Multiset::<FileChangeStats>::empty());
        assert(opts_ms(slots@).add(rest@.to_multiset()) =~= rest@.to_multiset());
    }
    while rest.len() > 0
        invariant
            opts_ms(slots@).add(rest@.to_multiset()) == orig_ms,
            slots@.len() + rest@.len() == n,
            files0.len() == n,
            forall|k: int| 0 <= k < slots@.len() ==> #[trigger] slots@[k] == Some(files0[k]),
            rest@ =~= files0.skip(slots@.len() as int),
        decreases rest@.len(),
    {
        proof {
            lemma_remove_multiset(rest@, 0);
        }
        let x = rest.remove(0);
        let ghost pre = slots@;
        slots.push(Some(x));
        proof {
            assert(slots@.drop_last() =~= pre);
            assert(opts_ms(slots@) == opts_ms(pre).insert(x));
            assert(opts_ms(slots@).add(rest@.to_multiset()) =~= orig_ms);
            assert(rest@ =~= files0.skip(slots@.len() as int));
        }
    }
    let mut result: Vec<FileChangeStats> = Vec::new();
    proof {
        crate::sorting::lemma_seq_empty_multiset(result@);
        crate::sorting::lemma_seq_empty_multiset(rest@);
        assert(result@.to_multiset().add(opts_ms(slots@)) =~= opts_ms(slots@));
    }
    let mut p: usize = 0;
    while p < order.len()
        invariant
            p <= order@.len(),
            slots@.len() == n,
            files0.len() == n,
            order@.len() == n,
            forall|q: int| 0 <= q < order@.len() ==> (#[trigger] order@[q]) < n,
            forall|p2: int, q: int|
                0 <= p2 < q < order@.len() ==> #[trigger] order@[p2] != #[trigger] order@[q],
            result@.to_multiset().add(opts_ms(slots@)) == orig_ms,
            result@.len() == p,
            forall|q: int| 0 <= q < p ==> #[trigger] result@[q] == files0[order@[q] as int],
            forall|k: int|
                0 <= k < n ==> #[trigger] slots@[k] == (if (exists|q: int|
                    0 <= q < p && (#[trigger] order@[q]) as int == k) {
                    Option::<FileChangeStats>::None
                } else {
                    Some(files0[k])
                }),
        decreases order@.len() - p,
    {
        let idx = order[p];
        proof {
            assert(!(exists|q: int| 0 <= q < p && (#[trigger] order@[q]) as int == idx as int));
            assert(slots@[idx as int] == Some(files0[idx as int]));
            lemma_opts_ms_take(slots@, idx as int);
        }
        let mut slot: Option<FileChangeStats> = None;
        slots.set_and_swap(idx, &mut slot);
        match slot {
            Some(x) => {
                proof {
                    crate::sorting::lemma_insert_multiset(result@, result@.len() as int, x);
                    assert(result@.insert(result@.len() as int, x) =~= result@.push(x));
                }
                result.push(x);
                proof {
                    assert(result@.to_multiset().add(opts_ms(slots@)) =~= orig_ms);
                }
            },
            None => {
                proof {
                    assert(false);
                }
            },
        }
        p += 1;
    }
    proof {
        assert forall|k: int| 0 <= k < n implies slots@[k] is None by {
            lemma_full_order_emits_all_positions(order@, n as int, k);
        }
        lemma_slots_all_none(slots@);
        assert(result@.to_multiset() =~= orig_ms);
    }
    result
}

/// Every slot was taken: the order covers every index.
proof fn lemma_full_order_emits_all_positions(order: Seq<usize>, n: int, k: int)
    requires
        order.len() == n,
        forall|q: int| 0 <= q < order.len() ==> (#[trigger] order[q]) < n,
        forall|p: int, q: int| 0 <= p < q < order.len() ==> #[trigger] order[p] != #[trigger] order[q],
        0 <= k < n,
    ensures
        exists|q: int| 0 <= q < order.len() && (#[trigger] order[q]) as int == k,
{
    if !(exists|q: int| 0 <= q < order.len() && (#[trigger] order[q]) as int == k) {
        let values = Set::new(
            |v: int| exists|q: int| 0 <= q < order.len() && (#[trigger] order[q]) as int == v,
        );
        lemma_distinct_seq_set_card_gen(order, values, n, n);
        lemma_range_minus_one_card(values, n, k);
        let q = choose|q: int| 0 <= q < order.len() && (#[trigger] order[q]) as int == k;
    }
}

proof fn lemma_slots_all_none<T>(s: Seq<Option<T>>)
    requires
        forall|i: int| 0 <= i < s.len() ==> s[i] is None,
    ensures
        opts_ms(s) == Multiset::<T>::empty(),
    decreases s.len(),
{
    if s.len() > 0 {
        lemma_slots_all_none(s.drop_last());
    }
}

/// Topological order of the changed files, dependencies first: the
/// result, when there is one, holds exactly the input files, and every
/// file comes after each of its dependencies that is itself among the
/// files. When the files block one another — a dependency cycle, under
/// which no such order exists — nothing is produced, and a blocking
/// collection witnesses it.
pub fn topological_sort(
    files: Vec<FileChangeStats>,
    graph: &Vec<(String, Vec<String>)>,
) -> (r: Option<Vec<FileChangeStats>>)
    ensures
        (match r {
            Some(v) => v@.to_multiset() == files@.to_multiset() && spec_deps_first(
                v@,
                files@,
                graph@,
            ),
            None => exists|blocked: Seq<bool>| spec_blocked(files@, graph@, blocked),
        }),
{
    match topo_order(&files, graph) {
        Some(order) => {
            let ghost files0 = files@;
            let v = extract_in_order(files, &order);
            proof {
                assert forall|i: int, d: int|
                    0 <= i < v@.len() && 0 <= d < spec_graph_deps(graph@, v@[i].path@).len()
                        && spec_path_in(
                        files0,
                        (#[trigger] spec_graph_deps(graph@, v@[i].path@)[d])@,
                    ) implies exists|j: int|
                    0 <= j < i && (#[trigger] v@[j]).path@ == spec_graph_deps(
                        graph@,
                        v@[i].path@,
                    )[d]@ by {
                    let deps = spec_graph_deps(graph@, v@[i].path@);
                    assert(v@[i] == files0[order@[i] as int]);
                    assert(spec_order_ok(order@, files0, graph@));
                    let p = choose|p: int|
                        0 <= p < i && files0[#[trigger] order@[p] as int].path@ == deps[d]@;
                    assert(v@[p] == files0[order@[p] as int]);
                }
            }
            Some(v)
        },
        None => None,
    }
}

/// Orders files so that dependencies come first, keeping the given order
/// when there is at most one file, when no dependencies are found, or
/// when the files cycle. The result is exactly the input files.
pub fn sort_by_dependencies(
    files: Vec<FileChangeStats>,
    file_contents: &Vec<(String, String)>,
) -> (r: Vec<FileChangeStats>)
    ensures
        r@.to_multiset() == files@.to_multiset(),
        files@.len() <= 1 ==> r@ == files@,
{
    if files.len() <= 1 {
        return files;
    }
    let graph = build_dependency_graph(&files, file_contents);
    let mut any_deps = false;
    let mut i: usize = 0;
    while i < graph.len()
        invariant
            i <= graph@.len(),
        decreases graph@.len() - i,
    {
        if graph[i].1.len() > 0 {
            any_deps = true;
            i = graph.len();
        } else {
            i += 1;
        }
    }
    if !any_deps {
        return files;
    }
    match topo_order(&files, &graph) {
        Some(order) => extract_in_order(files, &order),
        None => files,
    }
}

} // verus!
