//! The document, which holds boards and the edges between any issues.

use vstd::prelude::*;

use crate::board::{BoardModel, HyphaBoard};
use crate::issue::{HyphaIssue, IssueModel};
use crate::container::{
    first_by_key,
    keep_first_of_each_title,
    lemma_first_by_key_map,
    lemma_map_update,
    titles_of,
    HyphaContainer,
};
use crate::item::HyphaItem;
use crate::dep::{DepModel, HyphaDep};
use crate::refs::{FileIssueRefModel, HyphaFileIssueRef};

verus! {

/// The whole document: its boards, the dependency edges between issues
/// anywhere in it, and where it is kept on disk.
#[derive(Debug, Clone, PartialEq, Eq)]
pub struct HyphaFile {
    pub boards: Vec<HyphaBoard>,
    pub deps: Vec<HyphaDep<HyphaFileIssueRef>>,
    pub path: String,
}

/// What a document holds, as mathematical values.
pub ghost struct FileModel {
    pub boards: Seq<BoardModel>,
    pub deps: Seq<DepModel<FileIssueRefModel>>,
    pub path: Seq<char>,
}

impl FileModel {
    pub open spec fn board_titles(self) -> Seq<Seq<char>> {
        self.boards.map_values(|b: BoardModel| b.title)
    }

    pub open spec fn with_boards(self, boards: Seq<BoardModel>) -> FileModel {
        FileModel { boards, ..self }
    }

    pub open spec fn with_deps(self, deps: Seq<DepModel<FileIssueRefModel>>) -> FileModel {
        FileModel { deps, ..self }
    }

    /// The document with the issue at `(bi, li, ii)` replaced by `item`.
    pub open spec fn with_issue(self, bi: int, li: int, ii: int, item: IssueModel) -> FileModel {
        let b = self.boards[bi];
        let l = b.lists[li];
        self.with_boards(
            self.boards.update(bi, b.with_lists(b.lists.update(li, l.with_issues(l.issues.update(ii, item))))),
        )
    }

    /// The document without the boards whose title occurs earlier in it,
    /// each board deduplicated in turn.
    pub open spec fn deduplicated(self) -> FileModel {
        self.with_boards(
            first_by_key(self.boards, |b: BoardModel| b.title).map_values(|b: BoardModel| b.deduplicated()),
        )
    }

    /// Titles are unique among the boards, among the lists of each board and
    /// among the issues of each list.
    pub open spec fn wf(self) -> bool {
        &&& self.board_titles().no_duplicates()
        &&& forall|i: int| 0 <= i < self.boards.len() ==> #[trigger] self.boards[i].wf()
    }
}

impl View for HyphaFile {
    type V = FileModel;

    open spec fn view(&self) -> FileModel {
        FileModel {
            boards: self.boards@.map_values(|b: HyphaBoard| b@),
            deps: self.deps@.map_values(|d: HyphaDep<HyphaFileIssueRef>| d@),
            path: self.path@,
        }
    }
}

impl HyphaContainer for HyphaFile {
    type Item = HyphaBoard;

    open spec fn spec_items(&self) -> Seq<HyphaBoard> {
        self.boards@
    }

    open spec fn same_besides_items(&self, other: Self) -> bool {
        self.deps == other.deps && self.path == other.path
    }

    fn items(&self) -> (r: &Vec<HyphaBoard>) {
        &self.boards
    }

    fn items_mut(&mut self) -> (r: &mut Vec<HyphaBoard>) {
        &mut self.boards
    }
}

broadcast use lemma_map_update;

impl HyphaFile {
    /// A fresh document kept at `path`, holding `board` and no edges.
    pub fn new(path: String, board: HyphaBoard) -> (r: HyphaFile)
        ensures
            r@ == (FileModel { boards: seq![board@], deps: Seq::empty(), path: path@ }),
    {
        let mut boards: Vec<HyphaBoard> = Vec::new();
        boards.push(board);
        let r = HyphaFile { boards, deps: Vec::new(), path };
        assert(r@.boards =~= seq![r.boards@[0]@]);
        assert(r@.deps =~= Seq::empty());
        r
    }

    /// A document as read from `path`: titles made unique among siblings,
    /// the first of each title kept.
    pub fn loaded(file: HyphaFile, path: String) -> (r: HyphaFile)
        ensures
            r@ == (FileModel { path: path@, ..file@ }).deduplicated(),
    {
        let mut file = file;
        file.path = path;
        file.uniq();
        file
    }

    /// The board at position `i`, to be changed in place.
    pub fn board_at_mut(&mut self, i: usize) -> (r: &mut HyphaBoard)
        requires
            i < old(self).boards@.len(),
        ensures
            *r == old(self).boards@[i as int],
            final(self)@ == old(self)@.with_boards(old(self)@.boards.update(i as int, (*final(r))@)),
    {
        &mut self.boards[i]
    }

    /// Drops every board, list and issue whose title occurs earlier among its
    /// siblings: boards first, then the lists of each board, then the issues
    /// of each list.
    pub fn uniq(&mut self)
        ensures
            final(self)@ == old(self)@.deduplicated(),
    {
        proof {
            lemma_first_by_key_map(
                self.boards@,
                |b: HyphaBoard| b.spec_title(),
                |b: HyphaBoard| b@,
                |m: BoardModel| m.title,
            );
        }
        keep_first_of_each_title(&mut self.boards);
        let ghost kept = self@;
        let mut i: usize = 0;
        while i < self.boards.len()
            invariant
                i <= kept.boards.len(),
                self@.boards.len() == kept.boards.len(),
                self.boards@.len() == self@.boards.len(),
                self@.deps == kept.deps,
                self@.path == kept.path,
                forall|k: int| 0 <= k < i ==> #[trigger] self@.boards[k] == kept.boards[k].deduplicated(),
                forall|k: int| i <= k < kept.boards.len() ==> #[trigger] self@.boards[k] == kept.boards[k],
            decreases kept.boards.len() - i,
        {
            assert(self@.boards[i as int] == kept.boards[i as int]);
            let board = self.board_at_mut(i);
            board.uniq();
            i = i + 1;
        }
        assert(self@.boards =~= kept.boards.map_values(|b: BoardModel| b.deduplicated()));
    }

    /// The issue at position `ii` of list `li` of board `bi`, to be changed
    /// in place.
    pub fn issue_at_mut(&mut self, bi: usize, li: usize, ii: usize) -> (r: &mut HyphaIssue)
        requires
            bi < old(self).boards@.len(),
            li < old(self).boards@[bi as int].lists@.len(),
            ii < old(self).boards@[bi as int].lists@[li as int].issues@.len(),
        ensures
            *r == old(self).boards@[bi as int].lists@[li as int].issues@[ii as int],
            final(self)@ == old(self)@.with_issue(bi as int, li as int, ii as int, (*final(r))@),
    {
        let board = self.board_at_mut(bi);
        let list = board.list_at_mut(li);
        list.issue_at_mut(ii)
    }
}

/// The titles that the generic lookup sees are the titles of the model.
pub broadcast proof fn lemma_board_titles(f: &HyphaFile)
    ensures
        #[trigger] titles_of(f.boards@) == f@.board_titles(),
{
    assert(titles_of(f.boards@) =~= f@.board_titles());
}

} // verus!
