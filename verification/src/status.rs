//! Working-tree status tracking.

use vstd::prelude::*;

verus! {

/// File status in the working tree.
#[derive(Debug, Clone, Copy, PartialEq, Eq, Structural)]
pub enum FileStatus {
    /// File is untracked.
    Untracked,
    /// File is modified.
    Modified,
    /// File is added (staged).
    Added,
    /// File is deleted.
    Deleted,
    /// File is renamed.
    Renamed,
    /// File is copied.
    Copied,
    /// File has merge conflicts.
    Conflicted,
}

/// Status entry for a file.
#[derive(Debug, Clone)]
pub struct StatusEntry {
    /// File path relative to repository root.
    pub path: String,
    /// Status in the index (staging area).
    pub index_status: Option<FileStatus>,
    /// Status in the working tree.
    pub worktree_status: Option<FileStatus>,
}

impl StatusEntry {
    /// Whether the file has a staged change.
    pub fn is_staged(&self) -> (r: bool)
        ensures
            r == (self.index_status is Some),
    {
        self.index_status.is_some()
    }

    /// Whether the file has unstaged changes.
    pub fn has_unstaged_changes(&self) -> (r: bool)
        ensures
            r == (self.worktree_status is Some),
    {
        self.worktree_status.is_some()
    }
}

/// Repository status summary.
#[derive(Debug, Clone)]
pub struct StatusSummary {
    /// Files with changes.
    pub entries: Vec<StatusEntry>,
    /// Current branch name.
    pub branch: Option<String>,
    /// Number of commits ahead of upstream.
    pub ahead: u32,
    /// Number of commits behind upstream.
    pub behind: u32,
}

impl Default for StatusSummary {
    /// An empty summary: no entries, no branch, in sync.
    fn default() -> (r: Self)
        ensures
            r.entries@.len() == 0,
            r.branch is None,
            r.ahead == 0,
            r.behind == 0,
    {
        StatusSummary { entries: Vec::new(), branch: None, ahead: 0, behind: 0 }
    }
}

} // verus!
