//! Boards, which hold lists and the edges between their issues.

use vstd::prelude::*;

use crate::container::{
    first_by_key,
    keep_first_of_each_title,
    lemma_first_by_key_map,
    lemma_map_update,
    titles_of,
    HyphaContainer,
};
use crate::dep::{DepModel, HyphaDep};
use crate::item::HyphaItem;
use crate::list::{HyphaList, ListModel};
use crate::refs::{BoardIssueRefModel, HyphaBoardIssueRef};

verus! {

/// A board: a title, an ordered sequence of lists, and the dependency edges
/// between issues of this board.
#[derive(Debug, Clone, PartialEq, Eq)]
pub struct HyphaBoard {
    pub title: String,
    pub lists: Vec<HyphaList>,
    pub deps: Vec<HyphaDep<HyphaBoardIssueRef>>,
}

/// What a board holds, as mathematical values.
pub ghost struct BoardModel {
    pub title: Seq<char>,
    pub lists: Seq<ListModel>,
    pub deps: Seq<DepModel<BoardIssueRefModel>>,
}

impl BoardModel {
    pub open spec fn list_titles(self) -> Seq<Seq<char>> {
        self.lists.map_values(|l: ListModel| l.title)
    }

    pub open spec fn with_lists(self, lists: Seq<ListModel>) -> BoardModel {
        BoardModel { lists, ..self }
    }

    pub open spec fn with_deps(self, deps: Seq<DepModel<BoardIssueRefModel>>) -> BoardModel {
        BoardModel { deps, ..self }
    }

    /// The board without the lists whose title occurs earlier in it, and
    /// each list without the issues whose title occurs earlier in it.
    pub open spec fn deduplicated(self) -> BoardModel {
        self.with_lists(
            first_by_key(self.lists, |l: ListModel| l.title).map_values(|l: ListModel| l.deduplicated()),
        )
    }

    /// No two lists of the board share a title, nor two issues of one list.
    pub open spec fn wf(self) -> bool {
        &&& self.list_titles().no_duplicates()
        &&& forall|i: int| 0 <= i < self.lists.len() ==> #[trigger] self.lists[i].wf()
    }
}

impl View for HyphaBoard {
    type V = BoardModel;

    open spec fn view(&self) -> BoardModel {
        BoardModel {
            title: self.title@,
            lists: self.lists@.map_values(|l: HyphaList| l@),
            deps: self.deps@.map_values(|d: HyphaDep<HyphaBoardIssueRef>| d@),
        }
    }
}

impl HyphaItem for HyphaBoard {
    open spec fn spec_title(&self) -> Seq<char> {
        self.title@
    }

    fn title(&self) -> (r: &str) {
        self.title.as_str()
    }
}

impl HyphaContainer for HyphaBoard {
    type Item = HyphaList;

    open spec fn spec_items(&self) -> Seq<HyphaList> {
        self.lists@
    }

    open spec fn same_besides_items(&self, other: Self) -> bool {
        self.title == other.title && self.deps == other.deps
    }

    fn items(&self) -> (r: &Vec<HyphaList>) {
        &self.lists
    }

    fn items_mut(&mut self) -> (r: &mut Vec<HyphaList>) {
        &mut self.lists
    }
}

broadcast use lemma_map_update;

impl HyphaBoard {
    /// A fresh board with the given title and lists, and no edges. A list
    /// whose title occurs earlier among `lists` is left out.
    pub fn new(title: String, lists: Vec<HyphaList>) -> (r: HyphaBoard)
        ensures
            r@ == (BoardModel {
                title: title@,
                lists: first_by_key(lists@.map_values(|l: HyphaList| l@), |l: ListModel| l.title),
                deps: Seq::empty(),
            }),
    {
        proof {
            lemma_first_by_key_map(lists@, |l: HyphaList| l.spec_title(), |l: HyphaList| l@, |m: ListModel| m.title);
        }
        let mut lists = lists;
        keep_first_of_each_title(&mut lists);
        let r = HyphaBoard { title, lists, deps: Vec::new() };
        assert(r@.deps =~= Seq::empty());
        r
    }

    /// The list at position `i`, to be changed in place.
    pub fn list_at_mut(&mut self, i: usize) -> (r: &mut HyphaList)
        requires
            i < old(self).lists@.len(),
        ensures
            *r == old(self).lists@[i as int],
            final(self)@ == old(self)@.with_lists(old(self)@.lists.update(i as int, (*final(r))@)),
    {
        &mut self.lists[i]
    }

    /// Drops every list whose title occurs earlier in the board, and every
    /// issue whose title occurs earlier in its list.
    pub fn uniq(&mut self)
        ensures
            final(self)@ == old(self)@.deduplicated(),
    {
        proof {
            lemma_first_by_key_map(
                self.lists@,
                |l: HyphaList| l.spec_title(),
                |l: HyphaList| l@,
                |m: ListModel| m.title,
            );
        }
        keep_first_of_each_title(&mut self.lists);
        let ghost kept = self@;
        let mut i: usize = 0;
        while i < self.lists.len()
            invariant
                i <= kept.lists.len(),
                self@.lists.len() == kept.lists.len(),
                self.lists@.len() == self@.lists.len(),
                self@.title == kept.title,
                self@.deps == kept.deps,
                forall|k: int| 0 <= k < i ==> #[trigger] self@.lists[k] == kept.lists[k].deduplicated(),
                forall|k: int| i <= k < kept.lists.len() ==> #[trigger] self@.lists[k] == kept.lists[k],
            decreases kept.lists.len() - i,
        {
            assert(self@.lists[i as int] == kept.lists[i as int]);
            let list = self.list_at_mut(i);
            list.uniq();
            i = i + 1;
        }
        assert(self@.lists =~= kept.lists.map_values(|l: ListModel| l.deduplicated()));
    }
}

/// The titles that the generic lookup sees are the titles of the model.
pub broadcast proof fn lemma_list_titles(b: &HyphaBoard)
    ensures
        #[trigger] titles_of(b.lists@) == b@.list_titles(),
{
    assert(titles_of(b.lists@) =~= b@.list_titles());
}

} // verus!
