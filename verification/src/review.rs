//! Review model: status and checklists.

use vstd::prelude::*;

verus! {

/// Review status.
#[derive(Debug, Clone, Copy, PartialEq, Eq, Structural)]
pub enum ReviewStatus {
    /// Review is in progress.
    InProgress,
    /// Changes approved.
    Approved,
    /// Changes requested.
    ChangesRequested,
    /// Review dismissed.
    Dismissed,
}

/// A checklist item.
#[derive(Debug, Clone)]
pub struct ChecklistItem {
    /// Item description.
    pub description: String,
    /// Whether this item is checked.
    pub checked: bool,
    /// Whether this item is required.
    pub required: bool,
}

/// A review checklist.
#[derive(Debug, Clone)]
pub struct Checklist {
    /// Checklist items.
    pub items: Vec<ChecklistItem>,
}

/// Completeness of a checklist: every required item is checked.
pub open spec fn spec_complete(items: Seq<ChecklistItem>) -> bool {
    forall|i: int| 0 <= i < items.len() && (#[trigger] items[i]).required ==> items[i].checked
}

impl Checklist {
    /// The default code review checklist: five items, three of them
    /// required, all initially unchecked.
    pub fn default_review() -> (r: Self)
        ensures
            r.items@.len() == 5,
            forall|i: int| 0 <= i < 5 ==> !(#[trigger] r.items@[i]).checked,
            r.items@[0].required && r.items@[1].required && r.items@[3].required,
            !r.items@[2].required && !r.items@[4].required,
    {
        let mut items: Vec<ChecklistItem> = Vec::new();
        items.push(
            ChecklistItem {
                description: "Code follows project style guidelines".to_owned(),
                checked: false,
                required: true,
            },
        );
        items.push(
            ChecklistItem {
                description: "Tests are included for new functionality".to_owned(),
                checked: false,
                required: true,
            },
        );
        items.push(
            ChecklistItem {
                description: "Documentation is updated".to_owned(),
                checked: false,
                required: false,
            },
        );
        items.push(
            ChecklistItem {
                description: "No security vulnerabilities introduced".to_owned(),
                checked: false,
                required: true,
            },
        );
        items.push(
            ChecklistItem {
                description: "Performance implications considered".to_owned(),
                checked: false,
                required: false,
            },
        );
        Checklist { items }
    }

    /// Whether every required item is checked.
    pub fn is_complete(&self) -> (r: bool)
        ensures
            r == spec_complete(self.items@),
    {
        let mut i: usize = 0;
        while i < self.items.len()
            invariant
                i <= self.items@.len(),
                forall|j: int|
                    0 <= j < i && (#[trigger] self.items@[j]).required ==> self.items@[j].checked,
            decreases self.items@.len() - i,
        {
            if self.items[i].required && !self.items[i].checked {
                return false;
            }
            i += 1;
        }
        true
    }
}

} // verus!
