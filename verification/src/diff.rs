//! Diff model: hunks, lines and per-file change summaries.

use vstd::prelude::*;

verus! {

/// Change type for a diff line.
#[derive(Debug, Clone, Copy, PartialEq, Eq, Structural)]
pub enum ChangeType {
    /// Lines were added.
    Added,
    /// Lines were removed.
    Removed,
    /// Lines were modified.
    Modified,
    /// Context (unchanged) lines.
    Context,
}

/// A single line in a diff.
#[derive(Debug, Clone)]
pub struct DiffLine {
    /// Line content.
    pub content: String,
    /// Original line number (None for added lines).
    pub old_line: Option<u32>,
    /// New line number (None for removed lines).
    pub new_line: Option<u32>,
    /// Change type.
    pub change_type: ChangeType,
}

/// A diff hunk: a contiguous block of changes.
#[derive(Debug, Clone)]
pub struct DiffHunk {
    /// Starting line in the old file.
    pub old_start: u32,
    /// Number of lines in the old file.
    pub old_lines: u32,
    /// Starting line in the new file.
    pub new_start: u32,
    /// Number of lines in the new file.
    pub new_lines: u32,
    /// Lines in this hunk.
    pub lines: Vec<DiffLine>,
    /// AI-generated explanation (optional).
    pub explanation: Option<String>,
}

/// File-level change type.
#[derive(Debug, Clone, Copy, PartialEq, Eq, Structural)]
pub enum FileChangeType {
    Added,
    Deleted,
    Modified,
    Renamed,
    Copied,
}

/// Diff for a single file.
#[derive(Debug, Clone)]
pub struct FileDiff {
    /// File path.
    pub path: String,
    /// Old path (if renamed).
    pub old_path: Option<String>,
    /// Overall change type.
    pub change_type: FileChangeType,
    /// Diff hunks.
    pub hunks: Vec<DiffHunk>,
    /// Whether this is a binary file.
    pub is_binary: bool,
}

/// Complete diff result.
#[derive(Debug, Clone)]
pub struct DiffResult {
    /// Files with changes.
    pub files: Vec<FileDiff>,
    /// Total lines added.
    pub additions: u32,
    /// Total lines deleted.
    pub deletions: u32,
}

impl Default for DiffResult {
    /// An empty diff.
    fn default() -> (r: Self)
        ensures
            r.files@.len() == 0,
            r.additions == 0,
            r.deletions == 0,
    {
        DiffResult { files: Vec::new(), additions: 0, deletions: 0 }
    }
}

} // verus!
