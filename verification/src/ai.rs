//! AI code-review integration model: the prompt handed to a local CLI
//! tool and the result carried back. Running the tool is the host's part.

use vstd::prelude::*;

use crate::text::append_str;

verus! {

/// Result of one AI review run.
#[derive(Debug, Clone)]
pub struct AIReviewResult {
    pub success: bool,
    pub content: String,
    pub error: Option<String>,
}

/// The full prompt handed to the review tool: the caller's prompt, the
/// diff fenced as a code block, and the closing instruction.
pub open spec fn spec_review_prompt(prompt: Seq<char>, diff: Seq<char>) -> Seq<char> {
    prompt + "\n\n# Code Changes\n\n```diff\n"@ + diff
        + "\n```\n\nPlease provide a concise summary and feedback."@
}

/// Builds the full review prompt around a diff.
pub fn build_review_prompt(prompt: &str, diff_content: &str) -> (r: String)
    ensures
        r@ == spec_review_prompt(prompt@, diff_content@),
{
    let mut r = prompt.to_owned();
    append_str(&mut r, "\n\n# Code Changes\n\n```diff\n");
    append_str(&mut r, diff_content);
    append_str(&mut r, "\n```\n\nPlease provide a concise summary and feedback.");
    proof {
        assert(r@ =~= spec_review_prompt(prompt@, diff_content@));
    }
    r
}

} // verus!
