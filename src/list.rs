//! Lists, which hold issues.

use vstd::prelude::*;

use crate::container::{
    first_by_key,
    keep_first_of_each_title,
    lemma_first_by_key_map,
    lemma_map_update,
    titles_of,
    HyphaContainer,
};
use crate::issue::{HyphaIssue, IssueModel};
use crate::item::HyphaItem;

verus! {

broadcast use lemma_map_update;

/// A column of a board: a title and an ordered sequence of issues.
#[derive(Debug, Clone, PartialEq, Eq)]
pub struct HyphaList {
    pub title: String,
    pub issues: Vec<HyphaIssue>,
}

/// What a list holds, as mathematical values.
pub ghost struct ListModel {
    pub title: Seq<char>,
    pub issues: Seq<IssueModel>,
}

impl ListModel {
    pub open spec fn issue_titles(self) -> Seq<Seq<char>> {
        self.issues.map_values(|i: IssueModel| i.title)
    }

    pub open spec fn with_issues(self, issues: Seq<IssueModel>) -> ListModel {
        ListModel { issues, ..self }
    }

    /// The list without the issues whose title occurs earlier in it.
    pub open spec fn deduplicated(self) -> ListModel {
        self.with_issues(first_by_key(self.issues, |i: IssueModel| i.title))
    }

    /// No two issues of the list share a title.
    pub open spec fn wf(self) -> bool {
        self.issue_titles().no_duplicates()
    }
}

impl View for HyphaList {
    type V = ListModel;

    open spec fn view(&self) -> ListModel {
        ListModel { title: self.title@, issues: self.issues@.map_values(|i: HyphaIssue| i@) }
    }
}

impl HyphaItem for HyphaList {
    open spec fn spec_title(&self) -> Seq<char> {
        self.title@
    }

    fn title(&self) -> (r: &str) {
        self.title.as_str()
    }
}

impl HyphaContainer for HyphaList {
    type Item = HyphaIssue;

    open spec fn spec_items(&self) -> Seq<HyphaIssue> {
        self.issues@
    }

    open spec fn same_besides_items(&self, other: Self) -> bool {
        self.title == other.title
    }

    fn items(&self) -> (r: &Vec<HyphaIssue>) {
        &self.issues
    }

    fn items_mut(&mut self) -> (r: &mut Vec<HyphaIssue>) {
        &mut self.issues
    }
}

/// The titles that the generic lookup sees are the titles of the model.
pub broadcast proof fn lemma_issue_titles(l: &HyphaList)
    ensures
        #[trigger] titles_of(l.issues@) == l@.issue_titles(),
{
    assert(titles_of(l.issues@) =~= l@.issue_titles());
}

impl HyphaList {
    /// Drops every issue whose title occurs earlier in the list.
    pub fn uniq(&mut self)
        ensures
            final(self)@ == old(self)@.deduplicated(),
    {
        proof {
            lemma_first_by_key_map(
                self.issues@,
                |i: HyphaIssue| i.spec_title(),
                |i: HyphaIssue| i@,
                |m: IssueModel| m.title,
            );
        }
        keep_first_of_each_title(&mut self.issues);
    }
    /// The issue at position `i`, to be changed in place.
    pub fn issue_at_mut(&mut self, i: usize) -> (r: &mut HyphaIssue)
        requires
            i < old(self).issues@.len(),
        ensures
            *r == old(self).issues@[i as int],
            final(self)@ == old(self)@.with_issues(old(self)@.issues.update(i as int, (*final(r))@)),
    {
        &mut self.issues[i]
    }
    /// A fresh list with the given title, holding the one issue given.
    pub fn new(title: String, issue: HyphaIssue) -> (r: HyphaList)
        ensures
            r@ == (ListModel { title: title@, issues: seq![issue@] }),
            r@.wf(),
    {
        let mut issues: Vec<HyphaIssue> = Vec::new();
        issues.push(issue);
        let r = HyphaList { title, issues };
        assert(r@.issues =~= seq![r.issues@[0]@]);
        r
    }
}

} // verus!
