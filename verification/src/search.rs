//! Project-wide search: the registry of active searches with their
//! cancel flags, the match and payload shapes, and the bounds the search
//! runs under. Walking the tree and reading files is the host's part.

use vstd::prelude::*;

use crate::text::str_eq;

verus! {

/// Largest file size searched, in bytes (1 MB).
pub const MAX_FILE_SIZE: u64 = 1048576;

/// Number of matches batched before an event is emitted.
pub const BATCH_SIZE: usize = 50;

/// Number of context lines kept before and after a match.
pub const CONTEXT_LINES: usize = 2;

/// Default maximum matches returned (0 = unlimited).
pub const DEFAULT_MAX_MATCHES: u32 = 1000;

/// State for managing active searches: each has an id and a cancel flag.
pub struct SearchState {
    pub searches: Vec<(String, bool)>,
}

/// Whether a search id is registered.
pub open spec fn spec_registered(s: Seq<(String, bool)>, id: Seq<char>) -> bool {
    exists|i: int| 0 <= i < s.len() && (#[trigger] s[i]).0@ == id
}

impl SearchState {
    /// A fresh state with no active searches.
    pub fn new() -> (r: Self)
        ensures
            r.searches@.len() == 0,
    {
        SearchState { searches: Vec::new() }
    }

    /// Registers a search id, not yet cancelled.
    pub fn register(&mut self, id: String)
        ensures
            final(self).searches@ == old(self).searches@.push((id, false)),
    {
        self.searches.push((id, false));
    }

    /// Marks a search cancelled; reports whether it was found.
    pub fn cancel(&mut self, id: &str) -> (r: bool)
        ensures
            r == spec_registered(old(self).searches@, id@),
            final(self).searches@.len() == old(self).searches@.len(),
    {
        let mut i: usize = 0;
        while i < self.searches.len()
            invariant
                i <= self.searches@.len(),
                self.searches@.len() == old(self).searches@.len(),
                forall|j: int| 0 <= j < i ==> (#[trigger] old(self).searches@[j]).0@ != id@,
                forall|j: int|
                    0 <= j < self.searches@.len() ==> (#[trigger] self.searches@[j]).0
                        == old(self).searches@[j].0,
                forall|j: int|
                    i <= j < self.searches@.len() ==> #[trigger] self.searches@[j]
                        == old(self).searches@[j],
            decreases self.searches@.len() - i,
        {
            if str_eq(self.searches[i].0.as_str(), id) {
                let sid = self.searches[i].0.clone();
                let ghost pre = self.searches@;
                self.searches.set(i, (sid, true));
                return true;
            }
            i += 1;
        }
        false
    }

    /// Removes a search id; reports whether it was found.
    pub fn remove(&mut self, id: &str) -> (r: bool)
        ensures
            r == spec_registered(old(self).searches@, id@),
    {
        let mut i: usize = 0;
        while i < self.searches.len()
            invariant
                i <= self.searches@.len(),
                self.searches@ == old(self).searches@,
                forall|j: int| 0 <= j < i ==> (#[trigger] old(self).searches@[j]).0@ != id@,
            decreases self.searches@.len() - i,
        {
            if str_eq(self.searches[i].0.as_str(), id) {
                let _ = self.searches.remove(i);
                return true;
            }
            i += 1;
        }
        false
    }
}

impl Default for SearchState {
    fn default() -> Self {
        Self::new()
    }
}

/// A single search match.
#[derive(Debug, Clone)]
pub struct SearchMatch {
    /// Absolute file path.
    pub file_path: String,
    /// 1-indexed line number.
    pub line_number: u32,
    /// 0-indexed column where the match starts.
    pub column: u32,
    /// Full line content.
    pub line_content: String,
    /// The matched text.
    pub match_text: String,
    /// Context lines before the match.
    pub context_before: Vec<String>,
    /// Context lines after the match.
    pub context_after: Vec<String>,
}

/// Payload for search result events.
#[derive(Clone)]
pub struct SearchResultPayload {
    pub search_id: String,
    pub matches: Vec<SearchMatch>,
    pub files_searched: u32,
}

/// Payload for search complete events.
#[derive(Clone)]
pub struct SearchCompletePayload {
    pub search_id: String,
    pub total_matches: u32,
    pub total_files: u32,
    pub cancelled: bool,
    /// Whether results were cut short by the match limit.
    pub truncated: bool,
}

/// Payload for search error events.
#[derive(Clone)]
pub struct SearchErrorPayload {
    pub search_id: String,
    pub message: String,
}

} // verus!
