//! Result types of the git commands surfaced to the host UI. The git
//! processes themselves run on the host; these carry what they report.

use vstd::prelude::*;

use crate::text::push_char;

verus! {

/// Result of a git status operation.
#[derive(Debug, Clone)]
pub struct GitStatusResult {
    /// Current branch name.
    pub branch: Option<String>,
    /// Staged files.
    pub staged: Vec<FileStatus>,
    /// Unstaged (modified) files.
    pub unstaged: Vec<FileStatus>,
    /// Untracked files.
    pub untracked: Vec<String>,
}

/// Status of a single file.
#[derive(Debug, Clone)]
pub struct FileStatus {
    /// File path relative to the repository root.
    pub path: String,
    /// Status type: "modified", "added", "deleted", "renamed", "copied".
    pub status: String,
}

/// Information about a single commit.
#[derive(Debug, Clone)]
pub struct GitCommit {
    /// Full commit hash.
    pub hash: String,
    /// Short commit hash (7 characters).
    pub short_hash: String,
    /// Commit message (first line).
    pub message: String,
    /// Author name.
    pub author: String,
    /// Commit date in ISO format.
    pub date: String,
}

/// Branch information.
#[derive(Debug, Clone)]
pub struct GitBranchInfo {
    /// Current branch name (None if detached HEAD).
    pub current: Option<String>,
    /// List of all local branches.
    pub branches: Vec<String>,
}

/// File change with statistics.
#[derive(Debug, Clone)]
pub struct FileChangeStats {
    /// File path relative to the repository root.
    pub path: String,
    /// Status type: "modified", "added", "deleted", "renamed", "copied".
    pub status: String,
    /// Number of lines added.
    pub additions: u32,
    /// Number of lines deleted.
    pub deletions: u32,
}

/// Information about a git worktree.
#[derive(Debug, Clone)]
pub struct WorktreeInfo {
    /// Path to the worktree directory.
    pub path: String,
    /// HEAD commit hash.
    pub head: String,
    /// Branch name (if checked out to a branch).
    pub branch: Option<String>,
    /// Whether this is the main worktree.
    pub is_main: bool,
}

/// The label of an index (staged) status letter in porcelain output.
pub open spec fn spec_index_label(c: char) -> Seq<char> {
    if c == 'M' {
        "modified"@
    } else if c == 'A' {
        "added"@
    } else if c == 'D' {
        "deleted"@
    } else if c == 'R' {
        "renamed"@
    } else if c == 'C' {
        "copied"@
    } else if c == 'T' {
        "typechange"@
    } else {
        "unknown"@
    }
}

/// The label of a worktree (unstaged) status letter in porcelain output.
pub open spec fn spec_worktree_label(c: char) -> Seq<char> {
    if c == 'M' {
        "modified"@
    } else if c == 'D' {
        "deleted"@
    } else if c == 'T' {
        "typechange"@
    } else {
        "unknown"@
    }
}

/// The label of an index status letter.
pub fn index_status_label(c: char) -> (r: &'static str)
    ensures
        r@ == spec_index_label(c),
{
    if c == 'M' {
        "modified"
    } else if c == 'A' {
        "added"
    } else if c == 'D' {
        "deleted"
    } else if c == 'R' {
        "renamed"
    } else if c == 'C' {
        "copied"
    } else if c == 'T' {
        "typechange"
    } else {
        "unknown"
    }
}

/// The label of a worktree status letter.
pub fn worktree_status_label(c: char) -> (r: &'static str)
    ensures
        r@ == spec_worktree_label(c),
{
    if c == 'M' {
        "modified"
    } else if c == 'D' {
        "deleted"
    } else if c == 'T' {
        "typechange"
    } else {
        "unknown"
    }
}

/// Position of the first line feed at or after `start`, or the length.
pub open spec fn next_nl(s: Seq<char>, start: int) -> int
    decreases s.len() - start,
{
    if start >= s.len() {
        s.len() as int
    } else if s[start] == '\n' {
        start
    } else {
        next_nl(s, start + 1)
    }
}

proof fn lemma_next_nl_bounds(s: Seq<char>, start: int)
    requires
        0 <= start <= s.len(),
    ensures
        start <= next_nl(s, start) <= s.len(),
    decreases s.len() - start,
{
    if start < s.len() && s[start] != '\n' {
        lemma_next_nl_bounds(s, start + 1);
    }
}

#[via_fn]
proof fn spec_lines_from_decreases(s: Seq<char>, start: int) {
    lemma_next_nl_bounds(s, start);
}

/// The lines of the output from `start` on: pieces split at line feeds,
/// with a trailing piece kept only when it is nonempty.
pub open spec fn spec_lines_from(s: Seq<char>, start: int) -> Seq<Seq<char>>
    decreases s.len() - start,
    when 0 <= start <= s.len()
    via spec_lines_from_decreases
{
    let j = next_nl(s, start);
    if j >= s.len() {
        if start == s.len() {
            Seq::empty()
        } else {
            seq![s.subrange(start, s.len() as int)]
        }
    } else {
        seq![s.subrange(start, j)] + spec_lines_from(s, j + 1)
    }
}

/// Whether a porcelain line marks an untracked file.
pub open spec fn spec_line_untracked(l: Seq<char>) -> bool {
    l.len() >= 3 && l[0] == '?' && l[1] == '?'
}

/// Whether a porcelain line carries a staged (index) change.
pub open spec fn spec_line_staged(l: Seq<char>) -> bool {
    l.len() >= 3 && !spec_line_untracked(l) && l[0] != ' ' && l[0] != '?'
}

/// Whether a porcelain line carries an unstaged (worktree) change.
pub open spec fn spec_line_unstaged(l: Seq<char>) -> bool {
    l.len() >= 3 && !spec_line_untracked(l) && l[1] != ' ' && l[1] != '?'
}

/// The staged `(path, status)` pairs of a line list, in order.
pub open spec fn spec_staged_of(lines: Seq<Seq<char>>) -> Seq<(Seq<char>, Seq<char>)>
    decreases lines.len(),
{
    if lines.len() == 0 {
        Seq::empty()
    } else {
        let rest = spec_staged_of(lines.drop_last());
        let l = lines.last();
        if spec_line_staged(l) {
            rest.push((l.skip(3), spec_index_label(l[0])))
        } else {
            rest
        }
    }
}

/// The unstaged `(path, status)` pairs of a line list, in order.
pub open spec fn spec_unstaged_of(lines: Seq<Seq<char>>) -> Seq<(Seq<char>, Seq<char>)>
    decreases lines.len(),
{
    if lines.len() == 0 {
        Seq::empty()
    } else {
        let rest = spec_unstaged_of(lines.drop_last());
        let l = lines.last();
        if spec_line_unstaged(l) {
            rest.push((l.skip(3), spec_worktree_label(l[1])))
        } else {
            rest
        }
    }
}

/// The untracked paths of a line list, in order.
pub open spec fn spec_untracked_of(lines: Seq<Seq<char>>) -> Seq<Seq<char>>
    decreases lines.len(),
{
    if lines.len() == 0 {
        Seq::empty()
    } else {
        let rest = spec_untracked_of(lines.drop_last());
        let l = lines.last();
        if spec_line_untracked(l) {
            rest.push(l.skip(3))
        } else {
            rest
        }
    }
}

/// Whether a status list carries exactly the given `(path, status)`
/// pairs, entry by entry.
pub open spec fn spec_statuses_match(v: Seq<FileStatus>, pairs: Seq<(Seq<char>, Seq<char>)>) -> bool {
    v.len() == pairs.len() && (forall|k: int|
        0 <= k < v.len() ==> (#[trigger] v[k]).path@ == pairs[k].0 && v[k].status@ == pairs[k].1)
}

/// Whether a path list carries exactly the given paths, entry by entry.
pub open spec fn spec_paths_match(v: Seq<String>, paths: Seq<Seq<char>>) -> bool {
    v.len() == paths.len() && (forall|k: int| 0 <= k < v.len() ==> (#[trigger] v[k])@ == paths[k])
}

proof fn lemma_next_nl_exact(s: Seq<char>, start: int, j: int)
    requires
        0 <= start <= j <= s.len(),
        forall|k: int| start <= k < j ==> s[k] != '\n',
        j == s.len() || s[j] == '\n',
    ensures
        next_nl(s, start) == j,
    decreases j - start,
{
    if start < j {
        lemma_next_nl_exact(s, start + 1, j);
    }
}

/// One status entry appended: the new list is the old list plus an entry
/// with the given path and status texts.
pub open spec fn spec_pushed_status(
    oldv: Seq<FileStatus>,
    newv: Seq<FileStatus>,
    path: Seq<char>,
    label: Seq<char>,
) -> bool {
    &&& newv.len() == oldv.len() + 1
    &&& newv.drop_last() == oldv
    &&& newv.last().path@ == path
    &&& newv.last().status@ == label
}

/// One path appended.
pub open spec fn spec_pushed_path(oldv: Seq<String>, newv: Seq<String>, path: Seq<char>) -> bool {
    &&& newv.len() == oldv.len() + 1
    &&& newv.drop_last() == oldv
    &&& newv.last()@ == path
}

/// Classifies one porcelain status line: the first two characters are the
/// index and worktree status, the path follows the separator. A line with
/// `??` is an untracked file.
fn classify_status_line(
    line: &str,
    staged: &mut Vec<FileStatus>,
    unstaged: &mut Vec<FileStatus>,
    untracked: &mut Vec<String>,
)
    ensures
        (if spec_line_staged(line@) {
            spec_pushed_status(
                old(staged)@,
                final(staged)@,
                line@.skip(3),
                spec_index_label(line@[0]),
            )
        } else {
            final(staged)@ == old(staged)@
        }),
        (if spec_line_unstaged(line@) {
            spec_pushed_status(
                old(unstaged)@,
                final(unstaged)@,
                line@.skip(3),
                spec_worktree_label(line@[1]),
            )
        } else {
            final(unstaged)@ == old(unstaged)@
        }),
        (if spec_line_untracked(line@) {
            spec_pushed_path(old(untracked)@, final(untracked)@, line@.skip(3))
        } else {
            final(untracked)@ == old(untracked)@
        }),
{
    let n = line.unicode_len();
    if n < 3 {
        return ;
    }
    let index_status = line.get_char(0);
    let worktree_status = line.get_char(1);
    let file_path = line.substring_char(3, n).to_owned();
    proof {
        assert(file_path@ =~= line@.skip(3));
    }
    if index_status == '?' && worktree_status == '?' {
        untracked.push(file_path);
        proof {
            assert(untracked@.drop_last() =~= old(untracked)@);
        }
        return ;
    }
    if index_status != ' ' && index_status != '?' {
        staged.push(
            FileStatus {
                path: file_path.clone(),
                status: index_status_label(index_status).to_owned(),
            },
        );
        proof {
            assert(staged@.drop_last() =~= old(staged)@);
        }
    }
    if worktree_status != ' ' && worktree_status != '?' {
        unstaged.push(
            FileStatus { path: file_path, status: worktree_status_label(worktree_status).to_owned() },
        );
        proof {
            assert(unstaged@.drop_last() =~= old(unstaged)@);
        }
    }
}

/// Parses `git status --porcelain=v1` output into the status result: each
/// line classifies its file as untracked (`??`), staged (by its index
/// letter), unstaged (by its worktree letter), or both, in the lines'
/// order.
pub fn parse_status_porcelain(status_output: &str, branch: Option<String>) -> (r: GitStatusResult)
    ensures
        r.branch == branch,
        spec_statuses_match(r.staged@, spec_staged_of(spec_lines_from(status_output@, 0))),
        spec_statuses_match(r.unstaged@, spec_unstaged_of(spec_lines_from(status_output@, 0))),
        spec_paths_match(r.untracked@, spec_untracked_of(spec_lines_from(status_output@, 0))),
{
    let ghost s = status_output@;
    let ghost all_lines = spec_lines_from(s, 0);
    let mut staged: Vec<FileStatus> = Vec::new();
    let mut unstaged: Vec<FileStatus> = Vec::new();
    let mut untracked: Vec<String> = Vec::new();
    let n = status_output.unicode_len();
    let mut start: usize = 0;
    let ghost mut done: Seq<Seq<char>> = Seq::empty();
    proof {
        assert(spec_staged_of(done) =~= Seq::<(Seq<char>, Seq<char>)>::empty());
        assert(spec_unstaged_of(done) =~= Seq::<(Seq<char>, Seq<char>)>::empty());
        assert(spec_untracked_of(done) =~= Seq::<Seq<char>>::empty());
    }
    while start < n
        invariant
            start <= n,
            n == s.len(),
            s == status_output@,
            all_lines == spec_lines_from(s, 0),
            all_lines == done + spec_lines_from(s, start as int),
            spec_statuses_match(staged@, spec_staged_of(done)),
            spec_statuses_match(unstaged@, spec_unstaged_of(done)),
            spec_paths_match(untracked@, spec_untracked_of(done)),
        decreases n - start,
    {
        let mut j = start;
        while j < n && status_output.get_char(j) != '\n'
            invariant
                start <= j <= n,
                n == s.len(),
                s == status_output@,
                forall|k: int| start <= k < j ==> s[k] != '\n',
            decreases n - j,
        {
            j += 1;
        }
        proof {
            lemma_next_nl_exact(s, start as int, j as int);
        }
        let line = status_output.substring_char(start, j);
        proof {
            assert(line@ =~= s.subrange(start as int, j as int));
        }
        let ghost pre_staged = staged@;
        let ghost pre_unstaged = unstaged@;
        let ghost pre_untracked = untracked@;
        classify_status_line(line, &mut staged, &mut unstaged, &mut untracked);
        proof {
            let piece = s.subrange(start as int, j as int);
            if j == n {
                assert(spec_lines_from(s, start as int) =~= seq![piece]);
            } else {
                assert(spec_lines_from(s, start as int) == seq![piece] + spec_lines_from(
                    s,
                    j + 1,
                ));
            }
            let done2 = done.push(piece);
            assert(done2.drop_last() =~= done);
            assert(done2.last() == piece);
            assert(spec_staged_of(done2) == (if spec_line_staged(piece) {
                spec_staged_of(done).push((piece.skip(3), spec_index_label(piece[0])))
            } else {
                spec_staged_of(done)
            }));
            assert(spec_unstaged_of(done2) == (if spec_line_unstaged(piece) {
                spec_unstaged_of(done).push((piece.skip(3), spec_worktree_label(piece[1])))
            } else {
                spec_unstaged_of(done)
            }));
            assert(spec_untracked_of(done2) == (if spec_line_untracked(piece) {
                spec_untracked_of(done).push(piece.skip(3))
            } else {
                spec_untracked_of(done)
            }));
            done = done2;
            assert(spec_statuses_match(staged@, spec_staged_of(done))) by {
                assert forall|k: int|
                    0 <= k < staged@.len() implies (#[trigger] staged@[k]).path@ == spec_staged_of(
                    done,
                )[k].0 && staged@[k].status@ == spec_staged_of(done)[k].1 by {
                    if k < pre_staged.len() {
                        assert(staged@.drop_last() =~= staged@.drop_last());
                        if spec_line_staged(piece) {
                            assert(staged@[k] == staged@.drop_last()[k]);
                            assert(staged@[k] == pre_staged[k]);
                        }
                        assert(spec_statuses_match(pre_staged, spec_staged_of(done2.drop_last())));
                    }
                }
            }
            assert(spec_statuses_match(unstaged@, spec_unstaged_of(done))) by {
                assert forall|k: int|
                    0 <= k < unstaged@.len() implies (#[trigger] unstaged@[k]).path@
                    == spec_unstaged_of(done)[k].0 && unstaged@[k].status@ == spec_unstaged_of(
                    done,
                )[k].1 by {
                    if k < pre_unstaged.len() {
                        if spec_line_unstaged(piece) {
                            assert(unstaged@[k] == unstaged@.drop_last()[k]);
                            assert(unstaged@[k] == pre_unstaged[k]);
                        }
                        assert(spec_statuses_match(
                            pre_unstaged,
                            spec_unstaged_of(done2.drop_last()),
                        ));
                    }
                }
            }
            assert(spec_paths_match(untracked@, spec_untracked_of(done))) by {
                assert forall|k: int|
                    0 <= k < untracked@.len() implies (#[trigger] untracked@[k])@
                    == spec_untracked_of(done)[k] by {
                    if k < pre_untracked.len() {
                        if spec_line_untracked(piece) {
                            assert(untracked@[k] == untracked@.drop_last()[k]);
                            assert(untracked@[k] == pre_untracked[k]);
                        }
                        assert(spec_paths_match(
                            pre_untracked,
                            spec_untracked_of(done2.drop_last()),
                        ));
                    }
                }
            }
            if j == n {
                assert(done + spec_lines_from(s, n as int) =~= done);
                assert(all_lines =~= done);
            } else {
                assert((done.drop_last() + (seq![piece] + spec_lines_from(s, j + 1))) =~= done
                    + spec_lines_from(s, j + 1));
            }
        }
        if j == n {
            start = n;
        } else {
            start = j + 1;
        }
    }
    proof {
        if start == n {
            assert(spec_lines_from(s, n as int) =~= Seq::<Seq<char>>::empty());
            assert(all_lines =~= done);
        }
    }
    GitStatusResult { branch, staged, unstaged, untracked }
}

} // verus!
