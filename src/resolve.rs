//! Looking references up in their containers, for reading, for update, and
//! for removal.

use vstd::prelude::*;

use crate::board::{lemma_list_titles, BoardModel, HyphaBoard};
use crate::container::{
    find_by_title,
    lemma_first_position,
    lemma_map_push,
    lemma_map_remove,
    lemma_map_update,
    HyphaContainer,
};
use crate::file::{lemma_board_titles, FileModel, HyphaFile};
use crate::issue::{blank_issue, HyphaIssue, IssueModel};
use crate::item::HyphaItem;
use crate::list::{lemma_issue_titles, HyphaList, ListModel};
use crate::refs::{HyphaBoardIssueRef, HyphaFileBoardRef, HyphaFileIssueRef, HyphaFileListRef};

verus! {

/// A reference that can be looked up in, and removed from, its container.
pub trait HyphaRef: View {
    type Item: HyphaItem + View;
    type Container: HyphaContainer + View;

    /// The item that this reference names in `c`, if it resolves.
    spec fn target(&self, c: <Self::Container as View>::V) -> Option<<Self::Item as View>::V>;

    /// The item that a lookup for update hands out in `c`, if any.
    spec fn slot(&self, c: <Self::Container as View>::V) -> Option<<Self::Item as View>::V>;

    /// `c` once the item handed out by a lookup for update holds `item`.
    spec fn fill(
        &self,
        c: <Self::Container as View>::V,
        item: <Self::Item as View>::V,
    ) -> <Self::Container as View>::V;

    /// `c` without the item that this reference names, where a removal
    /// takes place.
    spec fn without(&self, c: <Self::Container as View>::V) -> Option<
        <Self::Container as View>::V,
    >;

    fn get_item_from_container<'a>(&self, container: &'a Self::Container) -> (r: Option<
        &'a Self::Item,
    >)
        ensures
            match r {
                Some(x) => self.target(container@) == Some((*x)@),
                None => self.target(container@) is None,
            },
    ;

    fn get_item_from_container_mut<'a>(&self, container: &'a mut Self::Container) -> (r: Option<
        &'a mut Self::Item,
    >)
        ensures
            match r {
                Some(x) => {
                    &&& self.slot(old(container)@) == Some((*x)@)
                    &&& final(container)@ == self.fill(old(container)@, (*final(x))@)
                },
                None => {
                    &&& self.slot(old(container)@) is None
                    &&& final(container)@ == old(container)@
                },
            },
    ;

    fn remove_item_from_container(&self, container: &mut Self::Container) -> (r: bool)
        ensures
            match self.without(old(container)@) {
                Some(c) => r && final(container)@ == c,
                None => !r && final(container)@ == old(container)@,
            },
    ;
}

broadcast use {
    lemma_board_titles,
    lemma_list_titles,
    lemma_issue_titles,
    lemma_first_position,
    lemma_map_update,
    lemma_map_remove,
    lemma_map_push,
};

impl HyphaRef for HyphaBoardIssueRef {
    type Item = HyphaIssue;
    type Container = HyphaBoard;

    open spec fn target(&self, c: BoardModel) -> Option<IssueModel> {
        match c.list_titles().index_of_first(self.list@) {
            Some(li) => match c.lists[li].issue_titles().index_of_first(self.issue@) {
                Some(ii) => Some(c.lists[li].issues[ii]),
                None => None,
            },
            None => None,
        }
    }

    open spec fn slot(&self, c: BoardModel) -> Option<IssueModel> {
        self.target(c)
    }

    open spec fn fill(&self, c: BoardModel, item: IssueModel) -> BoardModel {
        match c.list_titles().index_of_first(self.list@) {
            Some(li) => match c.lists[li].issue_titles().index_of_first(self.issue@) {
                Some(ii) => c.with_lists(
                    c.lists.update(li, c.lists[li].with_issues(c.lists[li].issues.update(ii, item))),
                ),
                None => c,
            },
            None => c,
        }
    }

    open spec fn without(&self, c: BoardModel) -> Option<BoardModel> {
        match c.list_titles().index_of_first(self.list@) {
            Some(li) => match c.lists[li].issue_titles().index_of_first(self.issue@) {
                Some(ii) => Some(
                    c.with_lists(
                        c.lists.update(li, c.lists[li].with_issues(c.lists[li].issues.remove(ii))),
                    ),
                ),
                None => None,
            },
            None => None,
        }
    }

    fn get_item_from_container<'a>(&self, container: &'a HyphaBoard) -> (r: Option<
        &'a HyphaIssue,
    >) {
        match find_by_title(&container.lists, self.list.as_str()) {
            Some(li) => {
                let list = &container.lists[li];
                match find_by_title(&list.issues, self.issue.as_str()) {
                    Some(ii) => Some(&list.issues[ii]),
                    None => None,
                }
            },
            None => None,
        }
    }

    fn get_item_from_container_mut<'a>(&self, container: &'a mut HyphaBoard) -> (r: Option<
        &'a mut HyphaIssue,
    >) {
        let li = match find_by_title(&container.lists, self.list.as_str()) {
            Some(li) => li,
            None => return None,
        };
        let ii = match find_by_title(&container.lists[li].issues, self.issue.as_str()) {
            Some(ii) => ii,
            None => return None,
        };
        let list = &mut container.lists[li];
        Some(&mut list.issues[ii])
    }

    fn remove_item_from_container(&self, container: &mut HyphaBoard) -> (r: bool) {
        let li = match find_by_title(&container.lists, self.list.as_str()) {
            Some(li) => li,
            None => return false,
        };
        let ii = match find_by_title(&container.lists[li].issues, self.issue.as_str()) {
            Some(ii) => ii,
            None => return false,
        };
        let list = &mut container.lists[li];
        list.issues.remove(ii);
        true
    }
}

impl HyphaFileIssueRef {
    /// The positions of the board and the list that this reference names.
    pub open spec fn list_position(&self, c: FileModel) -> Option<(int, int)> {
        match c.board_titles().index_of_first(self.board@) {
            Some(bi) => match c.boards[bi].list_titles().index_of_first(self.list@) {
                Some(li) => Some((bi, li)),
                None => None,
            },
            None => None,
        }
    }

    /// The list that this reference names.
    pub open spec fn named_list(&self, c: FileModel) -> ListModel
        recommends
            self.list_position(c) is Some,
    {
        let (bi, li) = self.list_position(c).unwrap();
        c.boards[bi].lists[li]
    }

    /// `c` with the list that this reference names holding `issues`.
    pub open spec fn with_named_issues(&self, c: FileModel, issues: Seq<IssueModel>) -> FileModel
        recommends
            self.list_position(c) is Some,
    {
        let (bi, li) = self.list_position(c).unwrap();
        let b = c.boards[bi];
        c.with_boards(c.boards.update(bi, b.with_lists(b.lists.update(li, b.lists[li].with_issues(issues)))))
    }
}

impl HyphaFileIssueRef {
    /// Appends a blank issue to the list at `(bi, li)`, which this reference
    /// names and which holds no issue of the title named, and hands it out.
    fn append_blank<'a>(&self, container: &'a mut HyphaFile, bi: usize, li: usize) -> (r:
        &'a mut HyphaIssue)
        requires
            self.list_position(old(container)@) == Some((bi as int, li as int)),
            self.target(old(container)@) is None,
        ensures
            (*r)@ == blank_issue(),
            final(container)@ == self.fill(old(container)@, (*final(r))@),
    {
        let ghost l = container@.boards[bi as int].lists[li as int].issues;
        let board = container.board_at_mut(bi);
        let list = board.list_at_mut(li);
        list.issues.push(HyphaIssue::default());
        let last = list.issues.len() - 1;
        proof {
            assert forall|item: IssueModel| #[trigger] l.push(blank_issue()).update(last as int, item) == l.push(item) by {
                assert(l.push(blank_issue()).update(last as int, item) =~= l.push(item));
            }
        }
        list.issue_at_mut(last)
    }
}

impl HyphaRef for HyphaFileIssueRef {
    type Item = HyphaIssue;
    type Container = HyphaFile;

    open spec fn target(&self, c: FileModel) -> Option<IssueModel> {
        match self.list_position(c) {
            Some(_) => {
                let l = self.named_list(c);
                match l.issue_titles().index_of_first(self.issue@) {
                    Some(ii) => Some(l.issues[ii]),
                    None => None,
                }
            },
            None => None,
        }
    }

    /// Where the board and the list resolve but the issue does not, a blank
    /// issue is appended to the list and handed out.
    open spec fn slot(&self, c: FileModel) -> Option<IssueModel> {
        match self.list_position(c) {
            Some(_) => match self.target(c) {
                Some(i) => Some(i),
                None => Some(blank_issue()),
            },
            None => None,
        }
    }

    open spec fn fill(&self, c: FileModel, item: IssueModel) -> FileModel {
        match self.list_position(c) {
            Some(_) => {
                let l = self.named_list(c);
                match l.issue_titles().index_of_first(self.issue@) {
                    Some(ii) => self.with_named_issues(c, l.issues.update(ii, item)),
                    None => self.with_named_issues(c, l.issues.push(item)),
                }
            },
            None => c,
        }
    }

    open spec fn without(&self, c: FileModel) -> Option<FileModel> {
        match self.list_position(c) {
            Some(_) => {
                let l = self.named_list(c);
                match l.issue_titles().index_of_first(self.issue@) {
                    Some(ii) => Some(self.with_named_issues(c, l.issues.remove(ii))),
                    None => None,
                }
            },
            None => None,
        }
    }

    fn get_item_from_container<'a>(&self, container: &'a HyphaFile) -> (r: Option<
        &'a HyphaIssue,
    >) {
        let bi = match find_by_title(&container.boards, self.board.as_str()) {
            Some(bi) => bi,
            None => return None,
        };
        let board = &container.boards[bi];
        let li = match find_by_title(&board.lists, self.list.as_str()) {
            Some(li) => li,
            None => return None,
        };
        let list = &board.lists[li];
        match find_by_title(&list.issues, self.issue.as_str()) {
            Some(ii) => Some(&list.issues[ii]),
            None => None,
        }
    }

    fn get_item_from_container_mut<'a>(&self, container: &'a mut HyphaFile) -> (r: Option<
        &'a mut HyphaIssue,
    >) {
        let bi = match find_by_title(&container.boards, self.board.as_str()) {
            Some(bi) => bi,
            None => return None,
        };
        let li = match find_by_title(&container.boards[bi].lists, self.list.as_str()) {
            Some(li) => li,
            None => return None,
        };
        let found = find_by_title(&container.boards[bi].lists[li].issues, self.issue.as_str());
        match found {
            Some(ii) => Some(container.issue_at_mut(bi, li, ii)),
            None => Some(self.append_blank(container, bi, li)),
        }
    }

    fn remove_item_from_container(&self, container: &mut HyphaFile) -> (r: bool) {
        let bi = match find_by_title(&container.boards, self.board.as_str()) {
            Some(bi) => bi,
            None => return false,
        };
        let li = match find_by_title(&container.boards[bi].lists, self.list.as_str()) {
            Some(li) => li,
            None => return false,
        };
        let ii = match find_by_title(&container.boards[bi].lists[li].issues, self.issue.as_str()) {
            Some(ii) => ii,
            None => return false,
        };
        let board = &mut container.boards[bi];
        let list = &mut board.lists[li];
        list.issues.remove(ii);
        true
    }
}

/// Lists are looked up by their position (the stage), and removed by title.
impl HyphaRef for HyphaFileListRef {
    type Item = HyphaList;
    type Container = HyphaFile;

    open spec fn target(&self, c: FileModel) -> Option<ListModel> {
        match c.board_titles().index_of_first(self.board@) {
            Some(bi) => if self.stage < c.boards[bi].lists.len() {
                Some(c.boards[bi].lists[self.stage as int])
            } else {
                None
            },
            None => None,
        }
    }

    open spec fn slot(&self, c: FileModel) -> Option<ListModel> {
        self.target(c)
    }

    open spec fn fill(&self, c: FileModel, item: ListModel) -> FileModel {
        match self.target(c) {
            Some(_) => {
                let bi = c.board_titles().index_of_first(self.board@).unwrap();
                let b = c.boards[bi];
                c.with_boards(c.boards.update(bi, b.with_lists(b.lists.update(self.stage as int, item))))
            },
            None => c,
        }
    }

    open spec fn without(&self, c: FileModel) -> Option<FileModel> {
        match c.board_titles().index_of_first(self.board@) {
            Some(bi) => {
                let b = c.boards[bi];
                match b.list_titles().index_of_first(self.list@) {
                    Some(li) => Some(c.with_boards(c.boards.update(bi, b.with_lists(b.lists.remove(li))))),
                    None => None,
                }
            },
            None => None,
        }
    }

    fn get_item_from_container<'a>(&self, container: &'a HyphaFile) -> (r: Option<
        &'a HyphaList,
    >) {
        let bi = match find_by_title(&container.boards, self.board.as_str()) {
            Some(bi) => bi,
            None => return None,
        };
        let board = &container.boards[bi];
        if self.stage < board.lists.len() {
            Some(&board.lists[self.stage])
        } else {
            None
        }
    }

    fn get_item_from_container_mut<'a>(&self, container: &'a mut HyphaFile) -> (r: Option<
        &'a mut HyphaList,
    >) {
        let bi = match find_by_title(&container.boards, self.board.as_str()) {
            Some(bi) => bi,
            None => return None,
        };
        if self.stage >= container.boards[bi].lists.len() {
            return None;
        }
        let board = &mut container.boards[bi];
        Some(&mut board.lists[self.stage])
    }

    fn remove_item_from_container(&self, container: &mut HyphaFile) -> (r: bool) {
        let bi = match find_by_title(&container.boards, self.board.as_str()) {
            Some(bi) => bi,
            None => return false,
        };
        let li = match find_by_title(&container.boards[bi].lists, self.list.as_str()) {
            Some(li) => li,
            None => return false,
        };
        let board = &mut container.boards[bi];
        board.lists.remove(li);
        true
    }
}

impl HyphaRef for HyphaFileBoardRef {
    type Item = HyphaBoard;
    type Container = HyphaFile;

    open spec fn target(&self, c: FileModel) -> Option<BoardModel> {
        match c.board_titles().index_of_first(self.board@) {
            Some(bi) => Some(c.boards[bi]),
            None => None,
        }
    }

    open spec fn slot(&self, c: FileModel) -> Option<BoardModel> {
        self.target(c)
    }

    open spec fn fill(&self, c: FileModel, item: BoardModel) -> FileModel {
        match c.board_titles().index_of_first(self.board@) {
            Some(bi) => c.with_boards(c.boards.update(bi, item)),
            None => c,
        }
    }

    open spec fn without(&self, c: FileModel) -> Option<FileModel> {
        match c.board_titles().index_of_first(self.board@) {
            Some(bi) => Some(c.with_boards(c.boards.remove(bi))),
            None => None,
        }
    }

    fn get_item_from_container<'a>(&self, container: &'a HyphaFile) -> (r: Option<
        &'a HyphaBoard,
    >) {
        match find_by_title(&container.boards, self.board.as_str()) {
            Some(bi) => Some(&container.boards[bi]),
            None => None,
        }
    }

    fn get_item_from_container_mut<'a>(&self, container: &'a mut HyphaFile) -> (r: Option<
        &'a mut HyphaBoard,
    >) {
        match find_by_title(&container.boards, self.board.as_str()) {
            Some(bi) => Some(&mut container.boards[bi]),
            None => None,
        }
    }

    fn remove_item_from_container(&self, container: &mut HyphaFile) -> (r: bool) {
        match find_by_title(&container.boards, self.board.as_str()) {
            Some(bi) => {
                container.boards.remove(bi);
                true
            },
            None => false,
        }
    }
}

} // verus!

