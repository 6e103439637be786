//! References: the titles, and for lists the position, that lead from a
//! container down to one item.

use vstd::prelude::*;

verus! {

/// An issue within one board: its list and its own title.
#[derive(Debug, Clone, PartialEq, Eq)]
pub struct HyphaBoardIssueRef {
    pub issue: String,
    pub list: String,
    pub stage: usize,
}

/// An issue within the document: its board, its list and its own title.
#[derive(Debug, Clone, PartialEq, Eq)]
pub struct HyphaFileIssueRef {
    pub issue: String,
    pub list: String,
    pub stage: usize,
    pub board: String,
}

/// A list within the document: its board, its title and its position.
#[derive(Debug, Clone, PartialEq, Eq)]
pub struct HyphaFileListRef {
    pub list: String,
    pub stage: usize,
    pub board: String,
}

/// A board within the document, by title.
#[derive(Debug, Clone, PartialEq, Eq)]
pub struct HyphaFileBoardRef {
    pub board: String,
}

/// An item together with the reference it was read from.
#[derive(Debug, Clone, PartialEq, Eq)]
pub struct WithHyphaRef<Item, Ref> {
    pub item: Item,
    pub reference: Ref,
}

pub ghost struct BoardIssueRefModel {
    pub issue: Seq<char>,
    pub list: Seq<char>,
    pub stage: nat,
}

pub ghost struct FileIssueRefModel {
    pub issue: Seq<char>,
    pub list: Seq<char>,
    pub stage: nat,
    pub board: Seq<char>,
}

pub ghost struct FileListRefModel {
    pub list: Seq<char>,
    pub stage: nat,
    pub board: Seq<char>,
}

pub ghost struct FileBoardRefModel {
    pub board: Seq<char>,
}

impl View for HyphaBoardIssueRef {
    type V = BoardIssueRefModel;

    open spec fn view(&self) -> BoardIssueRefModel {
        BoardIssueRefModel { issue: self.issue@, list: self.list@, stage: self.stage as nat }
    }
}

impl View for HyphaFileIssueRef {
    type V = FileIssueRefModel;

    open spec fn view(&self) -> FileIssueRefModel {
        FileIssueRefModel {
            issue: self.issue@,
            list: self.list@,
            stage: self.stage as nat,
            board: self.board@,
        }
    }
}

impl View for HyphaFileListRef {
    type V = FileListRefModel;

    open spec fn view(&self) -> FileListRefModel {
        FileListRefModel { list: self.list@, stage: self.stage as nat, board: self.board@ }
    }
}

impl View for HyphaFileBoardRef {
    type V = FileBoardRefModel;

    open spec fn view(&self) -> FileBoardRefModel {
        FileBoardRefModel { board: self.board@ }
    }
}

} // verus!
