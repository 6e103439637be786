//! Issues, the leaves of the document.

use vstd::prelude::*;

use crate::item::HyphaItem;

verus! {

/// A leaf of the document: a title and a free-text description.
#[derive(Debug, Clone, PartialEq, Eq)]
pub struct HyphaIssue {
    pub title: String,
    pub description: String,
}

/// What an issue holds, as mathematical values.
pub ghost struct IssueModel {
    pub title: Seq<char>,
    pub description: Seq<char>,
}

impl View for HyphaIssue {
    type V = IssueModel;

    open spec fn view(&self) -> IssueModel {
        IssueModel { title: self.title@, description: self.description@ }
    }
}

impl HyphaItem for HyphaIssue {
    open spec fn spec_title(&self) -> Seq<char> {
        self.title@
    }

    fn title(&self) -> (r: &str) {
        self.title.as_str()
    }
}

/// The issue that a lookup for update creates where none was found: an
/// empty title and an empty description.
pub open spec fn blank_issue() -> IssueModel {
    IssueModel { title: Seq::empty(), description: Seq::empty() }
}

impl Default for HyphaIssue {
    fn default() -> (r: HyphaIssue)
        ensures
            r@ == blank_issue(),
    {
        HyphaIssue { title: String::new(), description: String::new() }
    }
}

impl HyphaIssue {
    /// A fresh issue with the given title and an empty description.
    pub fn new(title: String) -> (r: HyphaIssue)
        ensures
            r.title == title,
            r@ == (IssueModel { title: title@, description: Seq::empty() }),
    {
        HyphaIssue { title, description: String::new() }
    }
}

} // verus!
