//! Keeping edges in step with the titles they name: renaming their ends,
//! and dropping those whose ends are removed.

use vstd::prelude::*;

use crate::container::{lemma_filter_push, lemma_map_push};
use crate::dep::{DepModel, HyphaDep};
use crate::refs::{BoardIssueRefModel, FileIssueRefModel, HyphaBoardIssueRef, HyphaFileIssueRef};

verus! {

/// `r` with its board renamed from `from` to `to`.
pub open spec fn board_renamed(r: FileIssueRefModel, from: Seq<char>, to: Seq<char>) -> FileIssueRefModel {
    if r.board == from {
        FileIssueRefModel { board: to, ..r }
    } else {
        r
    }
}

/// `r` with list `from` of board `board` renamed to `to`.
pub open spec fn list_renamed(
    r: FileIssueRefModel,
    board: Seq<char>,
    from: Seq<char>,
    to: Seq<char>,
) -> FileIssueRefModel {
    if r.board == board && r.list == from {
        FileIssueRefModel { list: to, ..r }
    } else {
        r
    }
}

/// `r` with issue `from` of list `list` of board `board` renamed to `to`.
pub open spec fn issue_renamed(
    r: FileIssueRefModel,
    board: Seq<char>,
    list: Seq<char>,
    from: Seq<char>,
    to: Seq<char>,
) -> FileIssueRefModel {
    if r.board == board && r.list == list && r.issue == from {
        FileIssueRefModel { issue: to, ..r }
    } else {
        r
    }
}

/// `r`, an end within one board, with list `from` renamed to `to`.
pub open spec fn local_list_renamed(r: BoardIssueRefModel, from: Seq<char>, to: Seq<char>) -> BoardIssueRefModel {
    if r.list == from {
        BoardIssueRefModel { list: to, ..r }
    } else {
        r
    }
}

/// `r`, an end within one board, with issue `from` of list `list` renamed to `to`.
pub open spec fn local_issue_renamed(
    r: BoardIssueRefModel,
    list: Seq<char>,
    from: Seq<char>,
    to: Seq<char>,
) -> BoardIssueRefModel {
    if r.list == list && r.issue == from {
        BoardIssueRefModel { issue: to, ..r }
    } else {
        r
    }
}

/// Both ends of every edge passed through `f`.
pub open spec fn map_ends<M>(deps: Seq<DepModel<M>>, f: spec_fn(M) -> M) -> Seq<DepModel<M>> {
    deps.map_values(|d: DepModel<M>| DepModel { left: f(d.left), right: f(d.right) })
}

/// The edges of which neither end satisfies `named`, in order.
pub open spec fn prune<M>(deps: Seq<DepModel<M>>, named: spec_fn(M) -> bool) -> Seq<DepModel<M>> {
    deps.filter(|d: DepModel<M>| !named(d.left) && !named(d.right))
}

/// Pruning a sequence of edges with one more edge.
pub proof fn lemma_prune_push<M>(s: Seq<DepModel<M>>, x: DepModel<M>, named: spec_fn(M) -> bool)
    ensures
        prune(s.push(x), named) == (if !named(x.left) && !named(x.right) {
            prune(s, named).push(x)
        } else {
            prune(s, named)
        }),
{
    lemma_filter_push(s, x, |d: DepModel<M>| !named(d.left) && !named(d.right));
}

broadcast use lemma_map_push;

impl HyphaFileIssueRef {
    /// A copy of this reference.
    pub fn duplicate(&self) -> (r: HyphaFileIssueRef)
        ensures
            r@ == self@,
    {
        HyphaFileIssueRef {
            issue: self.issue.clone(),
            list: self.list.clone(),
            stage: self.stage,
            board: self.board.clone(),
        }
    }

    pub fn board_renamed(&self, from: &String, to: &String) -> (r: HyphaFileIssueRef)
        ensures
            r@ == board_renamed(self@, from@, to@),
    {
        let board = if self.board == *from {
            to.clone()
        } else {
            self.board.clone()
        };
        HyphaFileIssueRef {
            issue: self.issue.clone(),
            list: self.list.clone(),
            stage: self.stage,
            board,
        }
    }

    pub fn list_renamed(&self, board: &String, from: &String, to: &String) -> (r: HyphaFileIssueRef)
        ensures
            r@ == list_renamed(self@, board@, from@, to@),
    {
        let list = if self.board == *board && self.list == *from {
            to.clone()
        } else {
            self.list.clone()
        };
        HyphaFileIssueRef {
            issue: self.issue.clone(),
            list,
            stage: self.stage,
            board: self.board.clone(),
        }
    }

    pub fn issue_renamed(&self, board: &String, list: &String, from: &String, to: &String) -> (r:
        HyphaFileIssueRef)
        ensures
            r@ == issue_renamed(self@, board@, list@, from@, to@),
    {
        let issue = if self.board == *board && self.list == *list && self.issue == *from {
            to.clone()
        } else {
            self.issue.clone()
        };
        HyphaFileIssueRef {
            issue,
            list: self.list.clone(),
            stage: self.stage,
            board: self.board.clone(),
        }
    }
}

impl HyphaBoardIssueRef {
    /// A copy of this reference.
    pub fn duplicate(&self) -> (r: HyphaBoardIssueRef)
        ensures
            r@ == self@,
    {
        HyphaBoardIssueRef { issue: self.issue.clone(), list: self.list.clone(), stage: self.stage }
    }

    pub fn list_renamed(&self, from: &String, to: &String) -> (r: HyphaBoardIssueRef)
        ensures
            r@ == local_list_renamed(self@, from@, to@),
    {
        let list = if self.list == *from {
            to.clone()
        } else {
            self.list.clone()
        };
        HyphaBoardIssueRef { issue: self.issue.clone(), list, stage: self.stage }
    }

    pub fn issue_renamed(&self, list: &String, from: &String, to: &String) -> (r: HyphaBoardIssueRef)
        ensures
            r@ == local_issue_renamed(self@, list@, from@, to@),
    {
        let issue = if self.list == *list && self.issue == *from {
            to.clone()
        } else {
            self.issue.clone()
        };
        HyphaBoardIssueRef { issue, list: self.list.clone(), stage: self.stage }
    }
}

/// Moves every end of the document's edges on board `from` to board `to`.
pub fn rename_board_in(deps: &Vec<HyphaDep<HyphaFileIssueRef>>, from: &String, to: &String) -> (r: Vec<
    HyphaDep<HyphaFileIssueRef>,
>)
    ensures
        r@.map_values(|d: HyphaDep<HyphaFileIssueRef>| d@) == map_ends(
            deps@.map_values(|d: HyphaDep<HyphaFileIssueRef>| d@),
            |e: FileIssueRefModel| board_renamed(e, from@, to@),
        ),
{
    let mut out: Vec<HyphaDep<HyphaFileIssueRef>> = Vec::new();
    let mut i: usize = 0;
    while i < deps.len()
        invariant
            i <= deps@.len(),
            out@.len() == i,
            forall|k: int|
                0 <= k < i ==> #[trigger] out@[k]@ == (DepModel {
                    left: board_renamed(deps@[k]@.left, from@, to@),
                    right: board_renamed(deps@[k]@.right, from@, to@),
                }),
        decreases deps@.len() - i,
    {
        let d = &deps[i];
        out.push(HyphaDep { left: d.left.board_renamed(from, to), right: d.right.board_renamed(from, to) });
        i = i + 1;
    }
    assert(out@.map_values(|d: HyphaDep<HyphaFileIssueRef>| d@) =~= map_ends(
        deps@.map_values(|d: HyphaDep<HyphaFileIssueRef>| d@),
        |e: FileIssueRefModel| board_renamed(e, from@, to@),
    ));
    out
}


/// Renames list `from` of board `board` to `to` in every end of the document's edges.
pub fn rename_list_in(deps: &Vec<HyphaDep<HyphaFileIssueRef>>, board: &String, from: &String, to: &String) -> (r: Vec<HyphaDep<HyphaFileIssueRef>>)
    ensures
        r@.map_values(|d: HyphaDep<HyphaFileIssueRef>| d@) == map_ends(
            deps@.map_values(|d: HyphaDep<HyphaFileIssueRef>| d@),
            |e: FileIssueRefModel| list_renamed(e, board@, from@, to@),
        ),
{
    let mut out: Vec<HyphaDep<HyphaFileIssueRef>> = Vec::new();
    let mut i: usize = 0;
    while i < deps.len()
        invariant
            i <= deps@.len(),
            out@.len() == i,
            forall|k: int|
                0 <= k < i ==> #[trigger] out@[k]@ == (DepModel {
                    left: list_renamed(deps@[k]@.left, board@, from@, to@),
                    right: list_renamed(deps@[k]@.right, board@, from@, to@),
                }),
        decreases deps@.len() - i,
    {
        let d = &deps[i];
        out.push(HyphaDep { left: d.left.list_renamed(board, from, to), right: d.right.list_renamed(board, from, to) });
        i = i + 1;
    }
    assert(out@.map_values(|d: HyphaDep<HyphaFileIssueRef>| d@) =~= map_ends(
        deps@.map_values(|d: HyphaDep<HyphaFileIssueRef>| d@),
        |e: FileIssueRefModel| list_renamed(e, board@, from@, to@),
    ));
    out
}

/// Renames issue `from` of list `list` of board `board` to `to` in every end of the document's edges.
pub fn rename_issue_in(deps: &Vec<HyphaDep<HyphaFileIssueRef>>, board: &String, list: &String, from: &String, to: &String) -> (r: Vec<HyphaDep<HyphaFileIssueRef>>)
    ensures
        r@.map_values(|d: HyphaDep<HyphaFileIssueRef>| d@) == map_ends(
            deps@.map_values(|d: HyphaDep<HyphaFileIssueRef>| d@),
            |e: FileIssueRefModel| issue_renamed(e, board@, list@, from@, to@),
        ),
{
    let mut out: Vec<HyphaDep<HyphaFileIssueRef>> = Vec::new();
    let mut i: usize = 0;
    while i < deps.len()
        invariant
            i <= deps@.len(),
            out@.len() == i,
            forall|k: int|
                0 <= k < i ==> #[trigger] out@[k]@ == (DepModel {
                    left: issue_renamed(deps@[k]@.left, board@, list@, from@, to@),
                    right: issue_renamed(deps@[k]@.right, board@, list@, from@, to@),
                }),
        decreases deps@.len() - i,
    {
        let d = &deps[i];
        out.push(HyphaDep { left: d.left.issue_renamed(board, list, from, to), right: d.right.issue_renamed(board, list, from, to) });
        i = i + 1;
    }
    assert(out@.map_values(|d: HyphaDep<HyphaFileIssueRef>| d@) =~= map_ends(
        deps@.map_values(|d: HyphaDep<HyphaFileIssueRef>| d@),
        |e: FileIssueRefModel| issue_renamed(e, board@, list@, from@, to@),
    ));
    out
}

/// Renames list `from` to `to` in every end of a board's edges.
pub fn rename_local_list_in(deps: &Vec<HyphaDep<HyphaBoardIssueRef>>, from: &String, to: &String) -> (r: Vec<HyphaDep<HyphaBoardIssueRef>>)
    ensures
        r@.map_values(|d: HyphaDep<HyphaBoardIssueRef>| d@) == map_ends(
            deps@.map_values(|d: HyphaDep<HyphaBoardIssueRef>| d@),
            |e: BoardIssueRefModel| local_list_renamed(e, from@, to@),
        ),
{
    let mut out: Vec<HyphaDep<HyphaBoardIssueRef>> = Vec::new();
    let mut i: usize = 0;
    while i < deps.len()
        invariant
            i <= deps@.len(),
            out@.len() == i,
            forall|k: int|
                0 <= k < i ==> #[trigger] out@[k]@ == (DepModel {
                    left: local_list_renamed(deps@[k]@.left, from@, to@),
                    right: local_list_renamed(deps@[k]@.right, from@, to@),
                }),
        decreases deps@.len() - i,
    {
        let d = &deps[i];
        out.push(HyphaDep { left: d.left.list_renamed(from, to), right: d.right.list_renamed(from, to) });
        i = i + 1;
    }
    assert(out@.map_values(|d: HyphaDep<HyphaBoardIssueRef>| d@) =~= map_ends(
        deps@.map_values(|d: HyphaDep<HyphaBoardIssueRef>| d@),
        |e: BoardIssueRefModel| local_list_renamed(e, from@, to@),
    ));
    out
}

/// Renames issue `from` of list `list` to `to` in every end of a board's edges.
pub fn rename_local_issue_in(deps: &Vec<HyphaDep<HyphaBoardIssueRef>>, list: &String, from: &String, to: &String) -> (r: Vec<HyphaDep<HyphaBoardIssueRef>>)
    ensures
        r@.map_values(|d: HyphaDep<HyphaBoardIssueRef>| d@) == map_ends(
            deps@.map_values(|d: HyphaDep<HyphaBoardIssueRef>| d@),
            |e: BoardIssueRefModel| local_issue_renamed(e, list@, from@, to@),
        ),
{
    let mut out: Vec<HyphaDep<HyphaBoardIssueRef>> = Vec::new();
    let mut i: usize = 0;
    while i < deps.len()
        invariant
            i <= deps@.len(),
            out@.len() == i,
            forall|k: int|
                0 <= k < i ==> #[trigger] out@[k]@ == (DepModel {
                    left: local_issue_renamed(deps@[k]@.left, list@, from@, to@),
                    right: local_issue_renamed(deps@[k]@.right, list@, from@, to@),
                }),
        decreases deps@.len() - i,
    {
        let d = &deps[i];
        out.push(HyphaDep { left: d.left.issue_renamed(list, from, to), right: d.right.issue_renamed(list, from, to) });
        i = i + 1;
    }
    assert(out@.map_values(|d: HyphaDep<HyphaBoardIssueRef>| d@) =~= map_ends(
        deps@.map_values(|d: HyphaDep<HyphaBoardIssueRef>| d@),
        |e: BoardIssueRefModel| local_issue_renamed(e, list@, from@, to@),
    ));
    out
}

/// The document's edges of which no end lies on board `title`.
pub fn prune_board_in(deps: &Vec<HyphaDep<HyphaFileIssueRef>>, title: &String) -> (r: Vec<HyphaDep<HyphaFileIssueRef>>)
    ensures
        r@.map_values(|d: HyphaDep<HyphaFileIssueRef>| d@) == prune(
            deps@.map_values(|d: HyphaDep<HyphaFileIssueRef>| d@),
            |e: FileIssueRefModel| e.board == title@,
        ),
{
    let ghost named = |e: FileIssueRefModel| e.board == title@;
    let mut out: Vec<HyphaDep<HyphaFileIssueRef>> = Vec::new();
    let mut i: usize = 0;
    while i < deps.len()
        invariant
            i <= deps@.len(),
            named == |e: FileIssueRefModel| e.board == title@,
            out@.map_values(|d: HyphaDep<HyphaFileIssueRef>| d@) == prune(
                deps@.take(i as int).map_values(|d: HyphaDep<HyphaFileIssueRef>| d@),
                named,
            ),
        decreases deps@.len() - i,
    {
        let d = &deps[i];
        let ghost before = deps@.take(i as int).map_values(|d: HyphaDep<HyphaFileIssueRef>| d@);
        proof {
            assert(deps@.take(i + 1).map_values(|d: HyphaDep<HyphaFileIssueRef>| d@) =~= before.push(d@));
            lemma_prune_push(before, d@, named);
        }
        if !(d.left.board == *title || d.right.board == *title) {
            let kept = HyphaDep { left: d.left.duplicate(), right: d.right.duplicate() };
            assert(kept@ == d@);
            out.push(kept);
        }
        i = i + 1;
    }
    assert(deps@.take(deps@.len() as int) =~= deps@);
    out
}

/// The document's edges of which no end lies in a list titled `title`.
pub fn prune_list_in(deps: &Vec<HyphaDep<HyphaFileIssueRef>>, title: &String) -> (r: Vec<HyphaDep<HyphaFileIssueRef>>)
    ensures
        r@.map_values(|d: HyphaDep<HyphaFileIssueRef>| d@) == prune(
            deps@.map_values(|d: HyphaDep<HyphaFileIssueRef>| d@),
            |e: FileIssueRefModel| e.list == title@,
        ),
{
    let ghost named = |e: FileIssueRefModel| e.list == title@;
    let mut out: Vec<HyphaDep<HyphaFileIssueRef>> = Vec::new();
    let mut i: usize = 0;
    while i < deps.len()
        invariant
            i <= deps@.len(),
            named == |e: FileIssueRefModel| e.list == title@,
            out@.map_values(|d: HyphaDep<HyphaFileIssueRef>| d@) == prune(
                deps@.take(i as int).map_values(|d: HyphaDep<HyphaFileIssueRef>| d@),
                named,
            ),
        decreases deps@.len() - i,
    {
        let d = &deps[i];
        let ghost before = deps@.take(i as int).map_values(|d: HyphaDep<HyphaFileIssueRef>| d@);
        proof {
            assert(deps@.take(i + 1).map_values(|d: HyphaDep<HyphaFileIssueRef>| d@) =~= before.push(d@));
            lemma_prune_push(before, d@, named);
        }
        if !(d.left.list == *title || d.right.list == *title) {
            let kept = HyphaDep { left: d.left.duplicate(), right: d.right.duplicate() };
            assert(kept@ == d@);
            out.push(kept);
        }
        i = i + 1;
    }
    assert(deps@.take(deps@.len() as int) =~= deps@);
    out
}

/// The document's edges of which no end is an issue titled `title`.
pub fn prune_issue_in(deps: &Vec<HyphaDep<HyphaFileIssueRef>>, title: &String) -> (r: Vec<HyphaDep<HyphaFileIssueRef>>)
    ensures
        r@.map_values(|d: HyphaDep<HyphaFileIssueRef>| d@) == prune(
            deps@.map_values(|d: HyphaDep<HyphaFileIssueRef>| d@),
            |e: FileIssueRefModel| e.issue == title@,
        ),
{
    let ghost named = |e: FileIssueRefModel| e.issue == title@;
    let mut out: Vec<HyphaDep<HyphaFileIssueRef>> = Vec::new();
    let mut i: usize = 0;
    while i < deps.len()
        invariant
            i <= deps@.len(),
            named == |e: FileIssueRefModel| e.issue == title@,
            out@.map_values(|d: HyphaDep<HyphaFileIssueRef>| d@) == prune(
                deps@.take(i as int).map_values(|d: HyphaDep<HyphaFileIssueRef>| d@),
                named,
            ),
        decreases deps@.len() - i,
    {
        let d = &deps[i];
        let ghost before = deps@.take(i as int).map_values(|d: HyphaDep<HyphaFileIssueRef>| d@);
        proof {
            assert(deps@.take(i + 1).map_values(|d: HyphaDep<HyphaFileIssueRef>| d@) =~= before.push(d@));
            lemma_prune_push(before, d@, named);
        }
        if !(d.left.issue == *title || d.right.issue == *title) {
            let kept = HyphaDep { left: d.left.duplicate(), right: d.right.duplicate() };
            assert(kept@ == d@);
            out.push(kept);
        }
        i = i + 1;
    }
    assert(deps@.take(deps@.len() as int) =~= deps@);
    out
}

/// A board's edges of which no end lies in a list titled `title`.
pub fn prune_local_list_in(deps: &Vec<HyphaDep<HyphaBoardIssueRef>>, title: &String) -> (r: Vec<HyphaDep<HyphaBoardIssueRef>>)
    ensures
        r@.map_values(|d: HyphaDep<HyphaBoardIssueRef>| d@) == prune(
            deps@.map_values(|d: HyphaDep<HyphaBoardIssueRef>| d@),
            |e: BoardIssueRefModel| e.list == title@,
        ),
{
    let ghost named = |e: BoardIssueRefModel| e.list == title@;
    let mut out: Vec<HyphaDep<HyphaBoardIssueRef>> = Vec::new();
    let mut i: usize = 0;
    while i < deps.len()
        invariant
            i <= deps@.len(),
            named == |e: BoardIssueRefModel| e.list == title@,
            out@.map_values(|d: HyphaDep<HyphaBoardIssueRef>| d@) == prune(
                deps@.take(i as int).map_values(|d: HyphaDep<HyphaBoardIssueRef>| d@),
                named,
            ),
        decreases deps@.len() - i,
    {
        let d = &deps[i];
        let ghost before = deps@.take(i as int).map_values(|d: HyphaDep<HyphaBoardIssueRef>| d@);
        proof {
            assert(deps@.take(i + 1).map_values(|d: HyphaDep<HyphaBoardIssueRef>| d@) =~= before.push(d@));
            lemma_prune_push(before, d@, named);
        }
        if !(d.left.list == *title || d.right.list == *title) {
            let kept = HyphaDep { left: d.left.duplicate(), right: d.right.duplicate() };
            assert(kept@ == d@);
            out.push(kept);
        }
        i = i + 1;
    }
    assert(deps@.take(deps@.len() as int) =~= deps@);
    out
}

/// A board's edges of which no end is an issue titled `title`.
pub fn prune_local_issue_in(deps: &Vec<HyphaDep<HyphaBoardIssueRef>>, title: &String) -> (r: Vec<HyphaDep<HyphaBoardIssueRef>>)
    ensures
        r@.map_values(|d: HyphaDep<HyphaBoardIssueRef>| d@) == prune(
            deps@.map_values(|d: HyphaDep<HyphaBoardIssueRef>| d@),
            |e: BoardIssueRefModel| e.issue == title@,
        ),
{
    let ghost named = |e: BoardIssueRefModel| e.issue == title@;
    let mut out: Vec<HyphaDep<HyphaBoardIssueRef>> = Vec::new();
    let mut i: usize = 0;
    while i < deps.len()
        invariant
            i <= deps@.len(),
            named == |e: BoardIssueRefModel| e.issue == title@,
            out@.map_values(|d: HyphaDep<HyphaBoardIssueRef>| d@) == prune(
                deps@.take(i as int).map_values(|d: HyphaDep<HyphaBoardIssueRef>| d@),
                named,
            ),
        decreases deps@.len() - i,
    {
        let d = &deps[i];
        let ghost before = deps@.take(i as int).map_values(|d: HyphaDep<HyphaBoardIssueRef>| d@);
        proof {
            assert(deps@.take(i + 1).map_values(|d: HyphaDep<HyphaBoardIssueRef>| d@) =~= before.push(d@));
            lemma_prune_push(before, d@, named);
        }
        if !(d.left.issue == *title || d.right.issue == *title) {
            let kept = HyphaDep { left: d.left.duplicate(), right: d.right.duplicate() };
            assert(kept@ == d@);
            out.push(kept);
        }
        i = i + 1;
    }
    assert(deps@.take(deps@.len() as int) =~= deps@);
    out
}

} // verus!
