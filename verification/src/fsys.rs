//! Filesystem entries as the directory commands report them, and the
//! listing order: directories first, then names case-insensitively.

use vstd::prelude::*;
use vstd::multiset::Multiset;

use crate::sorting::{lemma_insert_multiset, lemma_remove_multiset, sorted_by};
use crate::text::{ascii_lower, lemma_str_le_total, spec_lower, spec_str_le, str_le};

verus! {

broadcast use vstd::multiset::group_multiset_axioms;

/// File entry information.
#[derive(Debug, Clone)]
pub struct FileEntry {
    pub name: String,
    pub path: String,
    pub is_dir: bool,
    pub is_file: bool,
    pub is_symlink: bool,
    pub size: Option<u64>,
    /// Unix timestamp.
    pub modified: Option<u64>,
}

/// File watch event.
#[derive(Debug, Clone)]
pub struct FileWatchEvent {
    pub watch_id: String,
    pub path: String,
    /// "create", "modify", "delete" or "rename".
    pub kind: String,
}

/// File stats for external change detection.
#[derive(Debug, Clone)]
pub struct FileStats {
    pub modified: Option<u64>,
    pub size: u64,
}

/// The directory listing order: directories before files, and within
/// each group by name, lowercased.
pub open spec fn spec_entry_le(a: FileEntry, b: FileEntry) -> bool {
    if a.is_dir != b.is_dir {
        a.is_dir
    } else {
        spec_str_le(spec_lower(a.name@), spec_lower(b.name@))
    }
}

fn entry_le(a: &FileEntry, b: &FileEntry) -> (r: bool)
    ensures
        r == spec_entry_le(*a, *b),
{
    if a.is_dir != b.is_dir {
        a.is_dir
    } else {
        let la = ascii_lower(a.name.as_str());
        let lb = ascii_lower(b.name.as_str());
        str_le(la.as_str(), lb.as_str())
    }
}

/// Sorts directory entries: directories first, then alphabetically by
/// lowercased name. The result is exactly the input entries.
pub fn sort_file_entries(entries: Vec<FileEntry>) -> (r: Vec<FileEntry>)
    ensures
        r@.to_multiset() == entries@.to_multiset(),
        sorted_by(r@, |a: FileEntry, b: FileEntry| spec_entry_le(a, b)),
{
    let mut rest = entries;
    let mut r: Vec<FileEntry> = Vec::new();
    proof {
        crate::sorting::lemma_seq_empty_multiset(r@);
        assert(r@.to_multiset().add(rest@.to_multiset()) =~= rest@.to_multiset());
    }
    while rest.len() > 0
        invariant
            r@.to_multiset().add(rest@.to_multiset()) == entries@.to_multiset(),
            sorted_by(r@, |a: FileEntry, b: FileEntry| spec_entry_le(a, b)),
        decreases rest@.len(),
    {
        proof {
            lemma_remove_multiset(rest@, 0);
        }
        let x = rest.remove(0);
        let ghost pre = r@;
        let mut j: usize = 0;
        while j < r.len() && entry_le(&r[j], &x)
            invariant
                j <= r@.len(),
                forall|k: int| 0 <= k < j ==> spec_entry_le(#[trigger] r@[k], x),
                r@ == pre,
            decreases r@.len() - j,
        {
            j += 1;
        }
        proof {
            if j < r@.len() {
                lemma_str_le_total(spec_lower(r@[j as int].name@), spec_lower(x.name@));
            }
            lemma_insert_multiset(r@, j as int, x);
        }
        r.insert(j, x);
        proof {
            assert(r@.to_multiset().add(rest@.to_multiset()) =~= entries@.to_multiset());
            assert(sorted_by(r@, |a: FileEntry, b: FileEntry| spec_entry_le(a, b)));
        }
    }
    proof {
        crate::sorting::lemma_seq_empty_multiset(rest@);
        assert(r@.to_multiset() =~= entries@.to_multiset());
    }
    r
}

} // verus!
