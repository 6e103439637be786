//! The document store and its mutations, and the current selections.

use vstd::prelude::*;

use crate::board::{lemma_list_titles, BoardModel, HyphaBoard};
use crate::container::{
    find_by_title,
    lemma_first_position,
    lemma_map_push,
    lemma_map_remove,
    lemma_map_update,
    lemma_update_twice,
    taken_by_other,
    taken_elsewhere,
};
use crate::edges::{
    board_renamed,
    issue_renamed,
    list_renamed,
    local_issue_renamed,
    local_list_renamed,
    map_ends,
    prune,
    prune_board_in,
    prune_issue_in,
    prune_list_in,
    prune_local_issue_in,
    prune_local_list_in,
    rename_board_in,
    rename_issue_in,
    rename_list_in,
    rename_local_issue_in,
    rename_local_list_in,
};
use crate::file::{lemma_board_titles, FileModel, HyphaFile};
use crate::issue::{HyphaIssue, IssueModel};
use crate::list::{lemma_issue_titles, HyphaList, ListModel};
use crate::refs::{
    BoardIssueRefModel,
    FileBoardRefModel,
    FileIssueRefModel,
    FileListRefModel,
    HyphaFileBoardRef,
    HyphaFileIssueRef,
    HyphaFileListRef,
    WithHyphaRef,
};
use crate::laws::{
    lemma_add_board_unique,
    lemma_add_issue_unique,
    lemma_add_list_unique,
    lemma_remove_board_unique,
    lemma_remove_issue_unique,
    lemma_remove_list_unique,
    lemma_update_board_unique,
    lemma_update_issue_unique,
    lemma_update_list_unique,
};
use crate::resolve::HyphaRef;

verus! {

broadcast use {
    lemma_board_titles,
    lemma_list_titles,
    lemma_issue_titles,
    lemma_first_position,
    lemma_map_update,
    lemma_map_remove,
    lemma_map_push,
    lemma_update_twice,
};

/// The document once `b` is added: unchanged where a board of that title
/// exists already.
pub open spec fn after_add_board(m: FileModel, b: BoardModel) -> FileModel {
    if m.board_titles().contains(b.title) {
        m
    } else {
        m.with_boards(m.boards.push(b))
    }
}

/// The document once the board that `r` names is replaced by `b`: every
/// edge end on that board moves to the new title. Unchanged where `r` does
/// not resolve or another board is titled as `b` is.
pub open spec fn after_update_board(m: FileModel, r: FileBoardRefModel, b: BoardModel) -> FileModel {
    match m.board_titles().index_of_first(r.board) {
        Some(bi) => if taken_by_other(m.board_titles(), bi, b.title) {
            m
        } else {
            m.with_deps(map_ends(m.deps, |e: FileIssueRefModel| board_renamed(e, r.board, b.title)))
                .with_boards(m.boards.update(bi, b))
        },
        None => m,
    }
}

/// The document once the board that `r` names is removed, together with
/// the document's edges with an end on it.
pub open spec fn after_remove_board(m: FileModel, r: FileBoardRefModel) -> FileModel {
    match m.board_titles().index_of_first(r.board) {
        Some(bi) => m.with_boards(m.boards.remove(bi)).with_deps(
            prune(m.deps, |e: FileIssueRefModel| e.board == r.board),
        ),
        None => m,
    }
}

/// The document once `l` is appended to the board that `r` names:
/// unchanged where the board does not resolve or holds a list of that title.
pub open spec fn after_add_list(m: FileModel, r: FileBoardRefModel, l: ListModel) -> FileModel {
    match m.board_titles().index_of_first(r.board) {
        Some(bi) => {
            let b = m.boards[bi];
            if b.list_titles().contains(l.title) {
                m
            } else {
                m.with_boards(m.boards.update(bi, b.with_lists(b.lists.push(l))))
            }
        },
        None => m,
    }
}

/// The document once the list that `r` names (by its position) is replaced
/// by `l`: the edge ends, of the document and of the board, that name list
/// `r.list` move to the new title. Unchanged where `r` does not resolve or
/// another list of the board is titled as `l` is.
pub open spec fn after_update_list(m: FileModel, r: FileListRefModel, l: ListModel) -> FileModel {
    match m.board_titles().index_of_first(r.board) {
        Some(bi) => {
            let b = m.boards[bi];
            if r.stage < b.lists.len() && !taken_by_other(b.list_titles(), r.stage as int, l.title) {
                let b1 = b.with_deps(map_ends(b.deps, |e: BoardIssueRefModel| local_list_renamed(e, r.list, l.title)));
                m.with_deps(map_ends(m.deps, |e: FileIssueRefModel| list_renamed(e, r.board, r.list, l.title)))
                    .with_boards(m.boards.update(bi, b1.with_lists(b.lists.update(r.stage as int, l))))
            } else {
                m
            }
        },
        None => m,
    }
}

/// The document once the list that `r` names is removed by title, with the
/// edges, of the document and of the board, that have an end in a list of
/// that title.
pub open spec fn after_remove_list(m: FileModel, r: FileListRefModel) -> FileModel {
    match m.board_titles().index_of_first(r.board) {
        Some(bi) => {
            let b = m.boards[bi];
            match b.list_titles().index_of_first(r.list) {
                Some(li) => {
                    let b1 = b.with_lists(b.lists.remove(li)).with_deps(
                        prune(b.deps, |e: BoardIssueRefModel| e.list == r.list),
                    );
                    m.with_boards(m.boards.update(bi, b1)).with_deps(
                        prune(m.deps, |e: FileIssueRefModel| e.list == r.list),
                    )
                },
                None => m,
            }
        },
        None => m,
    }
}

/// The document once `i` is appended to the list that `r` names (by its
/// position): unchanged where the list does not resolve or holds an issue of
/// that title.
pub open spec fn after_add_issue(m: FileModel, r: FileListRefModel, i: IssueModel) -> FileModel {
    match m.board_titles().index_of_first(r.board) {
        Some(bi) => {
            let b = m.boards[bi];
            if r.stage < b.lists.len() && !b.lists[r.stage as int].issue_titles().contains(i.title) {
                let l = b.lists[r.stage as int];
                m.with_boards(
                    m.boards.update(bi, b.with_lists(b.lists.update(r.stage as int, l.with_issues(l.issues.push(i))))),
                )
            } else {
                m
            }
        },
        None => m,
    }
}

/// Where the issue that `r` names lies, or would be appended: the positions
/// of its board, its list and itself.
pub open spec fn issue_slot(m: FileModel, r: FileIssueRefModel) -> Option<(int, int, int)> {
    match m.board_titles().index_of_first(r.board) {
        Some(bi) => match m.boards[bi].list_titles().index_of_first(r.list) {
            Some(li) => {
                let l = m.boards[bi].lists[li];
                match l.issue_titles().index_of_first(r.issue) {
                    Some(ii) => Some((bi, li, ii)),
                    None => Some((bi, li, l.issues.len() as int)),
                }
            },
            None => None,
        },
        None => None,
    }
}

/// The document once the issue that `r` names is replaced by `i`, or `i`
/// appended to the named list where no issue has the title named. The edge
/// ends, of the document and of the board, that name the old issue move to
/// the new title. Unchanged where the board or list does not resolve, or
/// another issue of the list is titled as `i` is.
pub open spec fn after_update_issue(m: FileModel, r: FileIssueRefModel, i: IssueModel) -> FileModel {
    match issue_slot(m, r) {
        Some((bi, li, ii)) => {
            let b = m.boards[bi];
            let l = b.lists[li];
            if taken_by_other(l.issue_titles(), ii, i.title) {
                m
            } else {
                let b1 = b.with_deps(
                    map_ends(b.deps, |e: BoardIssueRefModel| local_issue_renamed(e, r.list, r.issue, i.title)),
                ).with_lists(b.lists.update(li, l.with_issues(
                    if ii < l.issues.len() {
                        l.issues.update(ii, i)
                    } else {
                        l.issues.push(i)
                    },
                )));
                m.with_deps(map_ends(m.deps, |e: FileIssueRefModel| issue_renamed(e, r.board, r.list, r.issue, i.title)))
                    .with_boards(m.boards.update(bi, b1))
            }
        },
        None => m,
    }
}

/// The document once the issue that `r` names is removed, with the edges,
/// of the document and of the board, that have an end on an issue of that
/// title.
pub open spec fn after_remove_issue(m: FileModel, r: FileIssueRefModel) -> FileModel {
    match issue_slot(m, r) {
        Some((bi, li, ii)) => {
            let b = m.boards[bi];
            let l = b.lists[li];
            if ii < l.issues.len() {
                let b1 = b.with_lists(b.lists.update(li, l.with_issues(l.issues.remove(ii)))).with_deps(
                    prune(b.deps, |e: BoardIssueRefModel| e.issue == r.issue),
                );
                m.with_boards(m.boards.update(bi, b1)).with_deps(
                    prune(m.deps, |e: FileIssueRefModel| e.issue == r.issue),
                )
            } else {
                m
            }
        },
        None => m,
    }
}

/// The one document that the mutations below act on.
pub struct HyphaFileContext {
    file: HyphaFile,
}

impl View for HyphaFileContext {
    type V = FileModel;

    closed spec fn view(&self) -> FileModel {
        self.file@
    }
}

impl HyphaFileContext {
    pub fn new(file: HyphaFile) -> (r: HyphaFileContext)
        ensures
            r@ == file@,
    {
        HyphaFileContext { file }
    }

    /// The document as it stands.
    pub fn get(&self) -> (r: &HyphaFile)
        ensures
            r@ == self@,
    {
        &self.file
    }

    /// Appends `board` unless a board of its title exists.
    pub fn add_board(&mut self, board: HyphaBoard)
        ensures
            final(self)@ == after_add_board(old(self)@, board@),
            old(self)@.wf() && board@.wf() ==> final(self)@.wf(),
    {
        proof {
            if self@.wf() && board@.wf() {
                lemma_add_board_unique(self@, board@);
            }
        }
        if find_by_title(&self.file.boards, board.title.as_str()).is_some() {
            return;
        }
        self.file.boards.push(board);
    }

    /// Replaces the board that `board.reference` names by `board.item`,
    /// moving the document's edges along to the new title.
    pub fn update_board(&mut self, board: WithHyphaRef<HyphaBoard, HyphaFileBoardRef>)
        ensures
            final(self)@ == after_update_board(old(self)@, board.reference@, board.item@),
            old(self)@.wf() && board.item@.wf() ==> final(self)@.wf(),
    {
        proof {
            if self@.wf() && board.item@.wf() {
                lemma_update_board_unique(self@, board.reference@, board.item@);
            }
        }
        let WithHyphaRef { item, reference } = board;
        let bi = match find_by_title(&self.file.boards, reference.board.as_str()) {
            Some(bi) => bi,
            None => return,
        };
        if taken_elsewhere(&self.file.boards, bi, item.title.as_str()) {
            return;
        }
        self.file.deps = rename_board_in(&self.file.deps, &reference.board, &item.title);
        if let Some(slot) = reference.get_item_from_container_mut(&mut self.file) {
            *slot = item;
        }
    }

    /// Removes the board that `board_ref` names, and the document's edges
    /// with an end on it.
    pub fn remove_board(&mut self, board_ref: HyphaFileBoardRef)
        ensures
            final(self)@ == after_remove_board(old(self)@, board_ref@),
            old(self)@.wf() ==> final(self)@.wf(),
    {
        proof {
            if self@.wf() {
                lemma_remove_board_unique(self@, board_ref@);
            }
        }
        let removed = board_ref.remove_item_from_container(&mut self.file);
        if removed {
            self.file.deps = prune_board_in(&self.file.deps, &board_ref.board);
        }
    }

    /// Appends `list` to the board that `board_ref` names, unless that
    /// board holds a list of its title.
    pub fn add_list(&mut self, board_ref: HyphaFileBoardRef, list: HyphaList)
        ensures
            final(self)@ == after_add_list(old(self)@, board_ref@, list@),
            old(self)@.wf() && list@.wf() ==> final(self)@.wf(),
    {
        proof {
            if self@.wf() && list@.wf() {
                lemma_add_list_unique(self@, board_ref@, list@);
            }
        }
        let bi = match find_by_title(&self.file.boards, board_ref.board.as_str()) {
            Some(bi) => bi,
            None => return,
        };
        if find_by_title(&self.file.boards[bi].lists, list.title.as_str()).is_some() {
            return;
        }
        let board = self.file.board_at_mut(bi);
        board.lists.push(list);
    }

    /// Replaces the list that `list.reference` names by `list.item`, moving
    /// the edges of the document and of the board along to the new title.
    pub fn update_list(&mut self, list: WithHyphaRef<HyphaList, HyphaFileListRef>)
        ensures
            final(self)@ == after_update_list(old(self)@, list.reference@, list.item@),
            old(self)@.wf() && list.item@.wf() ==> final(self)@.wf(),
    {
        proof {
            if self@.wf() && list.item@.wf() {
                lemma_update_list_unique(self@, list.reference@, list.item@);
            }
        }
        let WithHyphaRef { item, reference } = list;
        let bi = match find_by_title(&self.file.boards, reference.board.as_str()) {
            Some(bi) => bi,
            None => return,
        };
        if reference.stage >= self.file.boards[bi].lists.len() {
            return;
        }
        if taken_elsewhere(&self.file.boards[bi].lists, reference.stage, item.title.as_str()) {
            return;
        }
        let ghost m0 = self.file@;
        self.file.deps = rename_list_in(&self.file.deps, &reference.board, &reference.list, &item.title);
        let board = self.file.board_at_mut(bi);
        board.deps = rename_local_list_in(&board.deps, &reference.list, &item.title);
        assert(self.file@.board_titles() =~= m0.board_titles());
        if let Some(slot) = reference.get_item_from_container_mut(&mut self.file) {
            *slot = item;
        }
    }

    /// Removes the list that `list_ref` names by title, and the edges, of the
    /// document and of the board, with an end in a list of that title.
    pub fn remove_list(&mut self, list_ref: HyphaFileListRef)
        ensures
            final(self)@ == after_remove_list(old(self)@, list_ref@),
            old(self)@.wf() ==> final(self)@.wf(),
    {
        proof {
            if self@.wf() {
                lemma_remove_list_unique(self@, list_ref@);
            }
        }
        let found = find_by_title(&self.file.boards, list_ref.board.as_str());
        let ghost m0 = self.file@;
        let removed = list_ref.remove_item_from_container(&mut self.file);
        if removed {
            let bi = found.unwrap();
            assert(self.file@.boards.len() == m0.boards.len());
            assert(self.file.boards@[bi as int]@ == self.file@.boards[bi as int]);
            let board = self.file.board_at_mut(bi);
            board.deps = prune_local_list_in(&board.deps, &list_ref.list);
            self.file.deps = prune_list_in(&self.file.deps, &list_ref.list);
        }
    }

    /// Appends `issue` to the list that `list_ref` names, unless that list
    /// holds an issue of its title.
    pub fn add_issue(&mut self, list_ref: HyphaFileListRef, issue: HyphaIssue)
        ensures
            final(self)@ == after_add_issue(old(self)@, list_ref@, issue@),
            old(self)@.wf() ==> final(self)@.wf(),
    {
        proof {
            if self@.wf() {
                lemma_add_issue_unique(self@, list_ref@, issue@);
            }
        }
        match list_ref.get_item_from_container(&self.file) {
            Some(list) => {
                if find_by_title(&list.issues, issue.title.as_str()).is_some() {
                    return;
                }
            },
            None => return,
        }
        if let Some(list) = list_ref.get_item_from_container_mut(&mut self.file) {
            list.issues.push(issue);
        }
    }

    /// Replaces the issue that `issue.reference` names by `issue.item`, or
    /// appends the item where the named list holds no issue of the title
    /// named, moving the edges of the document and of the board along to the
    /// new title.
    pub fn update_issue(&mut self, issue: WithHyphaRef<HyphaIssue, HyphaFileIssueRef>)
        ensures
            final(self)@ == after_update_issue(old(self)@, issue.reference@, issue.item@),
            old(self)@.wf() ==> final(self)@.wf(),
    {
        proof {
            if self@.wf() {
                lemma_update_issue_unique(self@, issue.reference@, issue.item@);
            }
        }
        let WithHyphaRef { item, reference } = issue;
        let bi = match find_by_title(&self.file.boards, reference.board.as_str()) {
            Some(bi) => bi,
            None => return,
        };
        let li = match find_by_title(&self.file.boards[bi].lists, reference.list.as_str()) {
            Some(li) => li,
            None => return,
        };
        let issues = &self.file.boards[bi].lists[li].issues;
        let at = match find_by_title(issues, reference.issue.as_str()) {
            Some(ii) => ii,
            None => issues.len(),
        };
        if taken_elsewhere(issues, at, item.title.as_str()) {
            return;
        }
        let ghost m0 = self.file@;
        self.file.deps = rename_issue_in(
            &self.file.deps,
            &reference.board,
            &reference.list,
            &reference.issue,
            &item.title,
        );
        let board = self.file.board_at_mut(bi);
        board.deps = rename_local_issue_in(&board.deps, &reference.list, &reference.issue, &item.title);
        assert(self.file@.board_titles() =~= m0.board_titles());
        assert(self.file@.boards[bi as int].list_titles() =~= m0.boards[bi as int].list_titles());
        if let Some(slot) = reference.get_item_from_container_mut(&mut self.file) {
            *slot = item;
        }
    }

    /// Removes the issue that `issue_ref` names, and the edges, of the
    /// document and of the board, with an end on an issue of that title.
    pub fn remove_issue(&mut self, issue_ref: HyphaFileIssueRef)
        ensures
            final(self)@ == after_remove_issue(old(self)@, issue_ref@),
            old(self)@.wf() ==> final(self)@.wf(),
    {
        proof {
            if self@.wf() {
                lemma_remove_issue_unique(self@, issue_ref@);
            }
        }
        let found = find_by_title(&self.file.boards, issue_ref.board.as_str());
        let ghost m0 = self.file@;
        let removed = issue_ref.remove_item_from_container(&mut self.file);
        if removed {
            let bi = found.unwrap();
            assert(self.file@.boards.len() == m0.boards.len());
            assert(self.file.boards@[bi as int]@ == self.file@.boards[bi as int]);
            let board = self.file.board_at_mut(bi);
            board.deps = prune_local_issue_in(&board.deps, &issue_ref.issue);
            self.file.deps = prune_issue_in(&self.file.deps, &issue_ref.issue);
        }
    }
}

/// The board being viewed.
pub struct HyphaBoardContext {
    current: HyphaFileBoardRef,
}

impl View for HyphaBoardContext {
    type V = FileBoardRefModel;

    closed spec fn view(&self) -> FileBoardRefModel {
        self.current@
    }
}

impl HyphaBoardContext {
    pub fn new(board_ref: HyphaFileBoardRef) -> (r: HyphaBoardContext)
        ensures
            r@ == board_ref@,
    {
        HyphaBoardContext { current: board_ref }
    }

    pub fn get(&self) -> (r: HyphaFileBoardRef)
        ensures
            r@ == self@,
    {
        HyphaFileBoardRef { board: self.current.board.clone() }
    }

    pub fn set(&mut self, board_ref: HyphaFileBoardRef)
        ensures
            final(self)@ == board_ref@,
    {
        self.current = board_ref;
    }

    /// Follows a board from title `from` to title `to`, where it is the board
    /// being viewed.
    pub fn follow_board_rename(&mut self, from: &String, to: &String)
        ensures
            final(self)@ == (if old(self)@.board == from@ {
                FileBoardRefModel { board: to@ }
            } else {
                old(self)@
            }),
    {
        if self.current.board == *from {
            self.current = HyphaFileBoardRef { board: to.clone() };
        }
    }
}

/// The issue open for editing, if any.
pub struct HyphaIssueContext {
    current: Option<HyphaFileIssueRef>,
}

impl View for HyphaIssueContext {
    type V = Option<FileIssueRefModel>;

    closed spec fn view(&self) -> Option<FileIssueRefModel> {
        match self.current {
            Some(r) => Some(r@),
            None => None,
        }
    }
}

impl HyphaIssueContext {
    pub fn new(issue_ref: Option<HyphaFileIssueRef>) -> (r: HyphaIssueContext)
        ensures
            r@ == match issue_ref {
                Some(i) => Some(i@),
                None => None,
            },
    {
        HyphaIssueContext { current: issue_ref }
    }

    pub fn get(&self) -> (r: Option<HyphaFileIssueRef>)
        ensures
            match r {
                Some(i) => self@ == Some(i@),
                None => self@ is None,
            },
    {
        match &self.current {
            Some(i) => Some(i.duplicate()),
            None => None,
        }
    }

    pub fn set(&mut self, issue_ref: Option<HyphaFileIssueRef>)
        ensures
            final(self)@ == match issue_ref {
                Some(i) => Some(i@),
                None => None,
            },
    {
        self.current = issue_ref;
    }

    /// Follows board `from` to its new title `to`, as the edges do.
    pub fn follow_board_rename(&mut self, from: &String, to: &String)
        ensures
            final(self)@ == match old(self)@ {
                Some(r) => Some(board_renamed(r, from@, to@)),
                None => None,
            },
    {
        if let Some(r) = &self.current {
            self.current = Some(r.board_renamed(from, to));
        }
    }

    /// Follows list `from` of board `board` to its new title `to`, as the
    /// edges do.
    pub fn follow_list_rename(&mut self, board: &String, from: &String, to: &String)
        ensures
            final(self)@ == match old(self)@ {
                Some(r) => Some(list_renamed(r, board@, from@, to@)),
                None => None,
            },
    {
        if let Some(r) = &self.current {
            self.current = Some(r.list_renamed(board, from, to));
        }
    }

    /// Follows issue `from` of list `list` of board `board` to its new title
    /// `to`, as the edges do.
    pub fn follow_issue_rename(&mut self, board: &String, list: &String, from: &String, to: &String)
        ensures
            final(self)@ == match old(self)@ {
                Some(r) => Some(issue_renamed(r, board@, list@, from@, to@)),
                None => None,
            },
    {
        if let Some(r) = &self.current {
            self.current = Some(r.issue_renamed(board, list, from, to));
        }
    }

    /// Closes the open issue where it lies in a list titled `list`, which is
    /// being removed.
    pub fn forget_list(&mut self, list: &String)
        ensures
            final(self)@ == match old(self)@ {
                Some(r) => if r.list == list@ {
                    None
                } else {
                    Some(r)
                },
                None => None,
            },
    {
        let open_in_list = match &self.current {
            Some(r) => r.list == *list,
            None => false,
        };
        if open_in_list {
            self.current = None;
        }
    }
}

} // verus!
