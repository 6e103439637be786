//! What holds of the mutations and of loading, for every document.

use vstd::prelude::*;

use crate::board::BoardModel;
use crate::container::{first_by_key, taken_by_other};
use crate::context::{
    after_add_board,
    after_add_issue,
    after_add_list,
    after_remove_board,
    after_remove_issue,
    after_remove_list,
    after_update_board,
    after_update_issue,
    after_update_list,
    issue_slot,
};
use crate::file::FileModel;
use crate::dep::DepModel;
use crate::edges::{issue_renamed, list_renamed, local_issue_renamed, local_list_renamed, map_ends, prune};
use crate::issue::{blank_issue, IssueModel};
use crate::list::ListModel;
use crate::resolve::HyphaRef;
use crate::refs::{
    BoardIssueRefModel,
    FileBoardRefModel,
    FileIssueRefModel,
    FileListRefModel,
    HyphaBoardIssueRef,
    HyphaFileBoardRef,
    HyphaFileIssueRef,
    HyphaFileListRef,
};

verus! {

/// What a sequence with one more element contains.
proof fn lemma_push_contains<A>(q: Seq<A>, y: A, t: A)
    ensures
        q.push(y).contains(t) <==> (q.contains(t) || y == t),
{
    if q.contains(t) {
        let k = choose|k: int| 0 <= k < q.len() && q[k] == t;
        assert(q.push(y)[k] == t);
    }
    if y == t {
        assert(q.push(y)[q.len() as int] == t);
    }
    if q.push(y).contains(t) {
        let k = choose|k: int| 0 <= k < q.push(y).len() && q.push(y)[k] == t;
        if k < q.len() {
            assert(q[k] == t);
        }
    }
}

/// Keeping the first item of each key leaves unique keys, and the same set
/// of keys.
proof fn lemma_first_by_key_keys<A>(s: Seq<A>, key: spec_fn(A) -> Seq<char>)
    ensures
        first_by_key(s, key).map_values(key).no_duplicates(),
        forall|t: Seq<char>|
            first_by_key(s, key).map_values(key).contains(t) <==> s.map_values(key).contains(t),
    decreases s.len(),
{
    if s.len() > 0 {
        let p = s.drop_last();
        let x = s.last();
        lemma_first_by_key_keys(p, key);
        let rest = first_by_key(p, key);
        assert(s.map_values(key) =~= p.map_values(key).push(key(x)));
        if !p.map_values(key).contains(key(x)) {
            assert(rest.push(x).map_values(key) =~= rest.map_values(key).push(key(x)));
            assert(!rest.map_values(key).contains(key(x)));
        }
        assert forall|t: Seq<char>|
            first_by_key(s, key).map_values(key).contains(t) <==> s.map_values(key).contains(t) by {
            lemma_push_contains(p.map_values(key), key(x), t);
            lemma_push_contains(rest.map_values(key), key(x), t);
        }
    }
}

/// Where keys are already unique, nothing is dropped.
proof fn lemma_first_by_key_unique<A>(s: Seq<A>, key: spec_fn(A) -> Seq<char>)
    requires
        s.map_values(key).no_duplicates(),
    ensures
        first_by_key(s, key) == s,
    decreases s.len(),
{
    if s.len() > 0 {
        let p = s.drop_last();
        assert(p.map_values(key) =~= s.map_values(key).drop_last());
        lemma_first_by_key_unique(p, key);
        if p.map_values(key).contains(key(s.last())) {
            let k = choose|k: int| 0 <= k < p.map_values(key).len() && p.map_values(key)[k] == key(s.last());
            assert(s.map_values(key)[k] == s.map_values(key)[s.len() - 1]);
        }
        assert(p.push(s.last()) =~= s);
    }
}

/// The first item of each key is kept.
proof fn lemma_first_by_key_keeps_first<A>(s: Seq<A>, key: spec_fn(A) -> Seq<char>, i: int)
    requires
        0 <= i < s.len(),
        forall|j: int| 0 <= j < i ==> key(#[trigger] s[j]) != key(s[i]),
    ensures
        first_by_key(s, key).contains(s[i]),
    decreases s.len(),
{
    let p = s.drop_last();
    let rest = first_by_key(p, key);
    if i < s.len() - 1 {
        lemma_first_by_key_keeps_first(p, key, i);
        let k = choose|k: int| 0 <= k < rest.len() && rest[k] == s[i];
        if !p.map_values(key).contains(key(s.last())) {
            assert(rest.push(s.last())[k] == s[i]);
        }
    } else {
        if p.map_values(key).contains(key(s.last())) {
            let k = choose|k: int| 0 <= k < p.map_values(key).len() && p.map_values(key)[k] == key(s.last());
            assert(key(s[k]) == key(s[i]));
        }
        assert(rest.push(s.last())[rest.len() as int] == s[i]);
    }
}

proof fn lemma_list_deduplicated(l: ListModel)
    ensures
        l.deduplicated().wf(),
        l.deduplicated().title == l.title,
        l.deduplicated().deduplicated() == l.deduplicated(),
{
    let key = |i: IssueModel| i.title;
    lemma_first_by_key_keys(l.issues, key);
    let d = l.deduplicated();
    assert(d.issue_titles() =~= first_by_key(l.issues, key).map_values(key));
    lemma_first_by_key_unique(d.issues, key);
}

proof fn lemma_board_deduplicated(b: BoardModel)
    ensures
        b.deduplicated().wf(),
        b.deduplicated().title == b.title,
        b.deduplicated().deduplicated() == b.deduplicated(),
{
    let key = |l: ListModel| l.title;
    let dl = |l: ListModel| l.deduplicated();
    let kept = first_by_key(b.lists, key);
    lemma_first_by_key_keys(b.lists, key);
    let d = b.deduplicated();
    assert forall|k: int| 0 <= k < kept.len() implies #[trigger] dl(kept[k]).title == kept[k].title by {
        lemma_list_deduplicated(kept[k]);
    }
    assert(d.list_titles() =~= kept.map_values(key));
    assert forall|k: int| 0 <= k < d.lists.len() implies #[trigger] d.lists[k].wf() by {
        lemma_list_deduplicated(kept[k]);
    }
    lemma_first_by_key_unique(d.lists, key);
    assert(d.lists.map_values(dl) =~= d.lists) by {
        assert forall|k: int| 0 <= k < d.lists.len() implies #[trigger] d.lists.map_values(dl)[k] == d.lists[k] by {
            lemma_list_deduplicated(kept[k]);
        }
    }
}

/// Loading leaves no two siblings of one title.
pub proof fn lemma_load_unique(m: FileModel)
    ensures
        m.deduplicated().wf(),
{
    let key = |b: BoardModel| b.title;
    let kept = first_by_key(m.boards, key);
    lemma_first_by_key_keys(m.boards, key);
    let d = m.deduplicated();
    assert forall|k: int| 0 <= k < kept.len() implies #[trigger] d.boards[k].title == kept[k].title by {
        lemma_board_deduplicated(kept[k]);
    }
    assert(d.board_titles() =~= kept.map_values(key));
    assert forall|k: int| 0 <= k < d.boards.len() implies #[trigger] d.boards[k].wf() by {
        lemma_board_deduplicated(kept[k]);
    }
}

/// Loading keeps the first board of each title, its own lists and issues
/// de-duplicated in turn; with titles unique, it is the one board of that
/// title.
pub proof fn lemma_load_keeps_first(m: FileModel, t: Seq<char>, i: int)
    requires
        m.board_titles().index_of_first(t) == Some(i),
    ensures
        m.deduplicated().boards.contains(m.boards[i].deduplicated()),
        m.deduplicated().wf(),
{
    let key = |b: BoardModel| b.title;
    m.board_titles().index_of_first_ensures(t);
    assert forall|j: int| 0 <= j < i implies key(#[trigger] m.boards[j]) != key(m.boards[i]) by {
        assert(m.board_titles()[j] != t);
    }
    lemma_first_by_key_keeps_first(m.boards, key, i);
    let kept = first_by_key(m.boards, key);
    let k = choose|k: int| 0 <= k < kept.len() && kept[k] == m.boards[i];
    assert(m.deduplicated().boards[k] == m.boards[i].deduplicated());
    lemma_load_unique(m);
}

/// Loading a loaded document changes nothing: a document saved after
/// loading reads back the same.
pub proof fn lemma_load_idempotent(m: FileModel)
    ensures
        m.deduplicated().deduplicated() == m.deduplicated(),
{
    let key = |b: BoardModel| b.title;
    let db = |b: BoardModel| b.deduplicated();
    let d = m.deduplicated();
    lemma_load_unique(m);
    assert(d.boards.map_values(key) =~= d.board_titles());
    lemma_first_by_key_unique(d.boards, key);
    let kept = first_by_key(m.boards, key);
    assert(d.boards.map_values(db) =~= d.boards) by {
        assert forall|k: int| 0 <= k < d.boards.len() implies #[trigger] d.boards.map_values(db)[k] == d.boards[k] by {
            lemma_board_deduplicated(kept[k]);
        }
    }
}

/// Appending a title that is not there keeps titles unique.
proof fn lemma_push_unique(ts: Seq<Seq<char>>, t: Seq<char>)
    requires
        ts.no_duplicates(),
        !ts.contains(t),
    ensures
        ts.push(t).no_duplicates(),
{
    assert forall|i: int, j: int|
        0 <= i < ts.push(t).len() && 0 <= j < ts.push(t).len() && i != j implies ts.push(t)[i] != ts.push(t)[j] by {
        if i < ts.len() && j == ts.len() {
            assert(ts[i] == ts.push(t)[i]);
        }
        if j < ts.len() && i == ts.len() {
            assert(ts[j] == ts.push(t)[j]);
        }
    }
}

/// Replacing a title by one that no other position holds keeps titles
/// unique.
proof fn lemma_update_unique(ts: Seq<Seq<char>>, k: int, t: Seq<char>)
    requires
        ts.no_duplicates(),
        0 <= k < ts.len(),
        !taken_by_other(ts, k, t),
    ensures
        ts.update(k, t).no_duplicates(),
{
    assert forall|i: int, j: int|
        0 <= i < ts.len() && 0 <= j < ts.len() && i != j implies ts.update(k, t)[i] != ts.update(k, t)[j] by {
        if i == k {
            assert(ts[j] == ts.update(k, t)[j]);
        }
        if j == k {
            assert(ts[i] == ts.update(k, t)[i]);
        }
    }
}

/// Removing a title keeps titles unique.
proof fn lemma_remove_unique(ts: Seq<Seq<char>>, k: int)
    requires
        ts.no_duplicates(),
        0 <= k < ts.len(),
    ensures
        ts.remove(k).no_duplicates(),
{
    assert forall|i: int, j: int|
        0 <= i < ts.remove(k).len() && 0 <= j < ts.remove(k).len() && i != j implies ts.remove(k)[i]
        != ts.remove(k)[j] by {
        let i2 = if i < k { i } else { i + 1 };
        let j2 = if j < k { j } else { j + 1 };
        assert(ts.remove(k)[i] == ts[i2]);
        assert(ts.remove(k)[j] == ts[j2]);
    }
}

/// A board with one list replaced, where the new list keeps the old title
/// and is itself well formed.
proof fn lemma_board_with_list(b: BoardModel, li: int, l: ListModel)
    requires
        b.wf(),
        0 <= li < b.lists.len(),
        l.wf(),
        l.title == b.lists[li].title,
    ensures
        b.with_lists(b.lists.update(li, l)).wf(),
{
    assert(b.with_lists(b.lists.update(li, l)).list_titles() =~= b.list_titles());
}

/// A document with one board replaced, where the new board keeps the old
/// title and is itself well formed.
proof fn lemma_file_with_board(m: FileModel, bi: int, b: BoardModel)
    requires
        m.wf(),
        0 <= bi < m.boards.len(),
        b.wf(),
        b.title == m.boards[bi].title,
    ensures
        m.with_boards(m.boards.update(bi, b)).wf(),
{
    assert(m.with_boards(m.boards.update(bi, b)).board_titles() =~= m.board_titles());
}

/// Adding a board keeps titles unique among siblings at every level.
pub proof fn lemma_add_board_unique(m: FileModel, b: BoardModel)
    requires
        m.wf(),
        b.wf(),
    ensures
        after_add_board(m, b).wf(),
{
    if !m.board_titles().contains(b.title) {
        lemma_push_unique(m.board_titles(), b.title);
        assert(m.boards.push(b).map_values(|x: BoardModel| x.title) =~= m.board_titles().push(b.title));
    }
}

/// Replacing a board keeps titles unique among siblings at every level.
pub proof fn lemma_update_board_unique(m: FileModel, r: FileBoardRefModel, b: BoardModel)
    requires
        m.wf(),
        b.wf(),
    ensures
        after_update_board(m, r, b).wf(),
{
    if let Some(bi) = m.board_titles().index_of_first(r.board) {
        m.board_titles().index_of_first_ensures(r.board);
        if !taken_by_other(m.board_titles(), bi, b.title) {
            lemma_update_unique(m.board_titles(), bi, b.title);
            assert(m.boards.update(bi, b).map_values(|x: BoardModel| x.title) =~= m.board_titles().update(
                bi,
                b.title,
            ));
        }
    }
}

/// Removing a board keeps titles unique among siblings at every level.
pub proof fn lemma_remove_board_unique(m: FileModel, r: FileBoardRefModel)
    requires
        m.wf(),
    ensures
        after_remove_board(m, r).wf(),
{
    if let Some(bi) = m.board_titles().index_of_first(r.board) {
        m.board_titles().index_of_first_ensures(r.board);
        lemma_remove_unique(m.board_titles(), bi);
        assert(m.boards.remove(bi).map_values(|x: BoardModel| x.title) =~= m.board_titles().remove(bi));
    }
}

/// Adding a list keeps titles unique among siblings at every level.
pub proof fn lemma_add_list_unique(m: FileModel, r: FileBoardRefModel, l: ListModel)
    requires
        m.wf(),
        l.wf(),
    ensures
        after_add_list(m, r, l).wf(),
{
    if let Some(bi) = m.board_titles().index_of_first(r.board) {
        m.board_titles().index_of_first_ensures(r.board);
        let b = m.boards[bi];
        assert(m.boards[bi].wf());
        if !b.list_titles().contains(l.title) {
            lemma_push_unique(b.list_titles(), l.title);
            let b2 = b.with_lists(b.lists.push(l));
            assert(b2.list_titles() =~= b.list_titles().push(l.title));
            lemma_file_with_board(m, bi, b2);
        }
    }
}

/// Replacing a list keeps titles unique among siblings at every level.
pub proof fn lemma_update_list_unique(m: FileModel, r: FileListRefModel, l: ListModel)
    requires
        m.wf(),
        l.wf(),
    ensures
        after_update_list(m, r, l).wf(),
{
    if let Some(bi) = m.board_titles().index_of_first(r.board) {
        m.board_titles().index_of_first_ensures(r.board);
        let b = m.boards[bi];
        assert(m.boards[bi].wf());
        if r.stage < b.lists.len() && !taken_by_other(b.list_titles(), r.stage as int, l.title) {
            lemma_update_unique(b.list_titles(), r.stage as int, l.title);
            let b1 = b.with_deps(map_ends(b.deps, |e: BoardIssueRefModel| local_list_renamed(e, r.list, l.title)));
            let b2 = b1.with_lists(b.lists.update(r.stage as int, l));
            assert(b2.list_titles() =~= b.list_titles().update(r.stage as int, l.title));
            lemma_file_with_board(m, bi, b2);
            let m1 = m.with_deps(map_ends(m.deps, |e: FileIssueRefModel| list_renamed(e, r.board, r.list, l.title)));
            assert(after_update_list(m, r, l) == m1.with_boards(m.boards.update(bi, b2)));
        }
    }
}

/// Removing a list keeps titles unique among siblings at every level.
pub proof fn lemma_remove_list_unique(m: FileModel, r: FileListRefModel)
    requires
        m.wf(),
    ensures
        after_remove_list(m, r).wf(),
{
    if let Some(bi) = m.board_titles().index_of_first(r.board) {
        m.board_titles().index_of_first_ensures(r.board);
        let b = m.boards[bi];
        assert(m.boards[bi].wf());
        if let Some(li) = b.list_titles().index_of_first(r.list) {
            b.list_titles().index_of_first_ensures(r.list);
            lemma_remove_unique(b.list_titles(), li);
            let b1 = b.with_lists(b.lists.remove(li)).with_deps(
                prune(b.deps, |e: BoardIssueRefModel| e.list == r.list),
            );
            assert(b1.list_titles() =~= b.list_titles().remove(li));
            assert forall|k: int| 0 <= k < b1.lists.len() implies #[trigger] b1.lists[k].wf() by {
                let k2 = if k < li { k } else { k + 1 };
                assert(b1.lists[k] == b.lists[k2]);
                assert(b.lists[k2].wf());
            }
            lemma_file_with_board(m, bi, b1);
        }
    }
}

/// Adding an issue keeps titles unique among siblings at every level.
pub proof fn lemma_add_issue_unique(m: FileModel, r: FileListRefModel, i: IssueModel)
    requires
        m.wf(),
    ensures
        after_add_issue(m, r, i).wf(),
{
    if let Some(bi) = m.board_titles().index_of_first(r.board) {
        m.board_titles().index_of_first_ensures(r.board);
        let b = m.boards[bi];
        assert(m.boards[bi].wf());
        if r.stage < b.lists.len() && !b.lists[r.stage as int].issue_titles().contains(i.title) {
            let l = b.lists[r.stage as int];
            assert(b.lists[r.stage as int].wf());
            lemma_push_unique(l.issue_titles(), i.title);
            let l2 = l.with_issues(l.issues.push(i));
            assert(l2.issue_titles() =~= l.issue_titles().push(i.title));
            lemma_board_with_list(b, r.stage as int, l2);
            lemma_file_with_board(m, bi, b.with_lists(b.lists.update(r.stage as int, l2)));
        }
    }
}

/// Replacing (or, where the title named is absent, appending) an issue
/// keeps titles unique among siblings at every level.
pub proof fn lemma_update_issue_unique(m: FileModel, r: FileIssueRefModel, i: IssueModel)
    requires
        m.wf(),
    ensures
        after_update_issue(m, r, i).wf(),
{
    if let Some((bi, li, ii)) = issue_slot(m, r) {
        m.board_titles().index_of_first_ensures(r.board);
        let b = m.boards[bi];
        assert(m.boards[bi].wf());
        b.list_titles().index_of_first_ensures(r.list);
        let l = b.lists[li];
        assert(b.lists[li].wf());
        l.issue_titles().index_of_first_ensures(r.issue);
        if !taken_by_other(l.issue_titles(), ii, i.title) {
            let issues = if ii < l.issues.len() {
                l.issues.update(ii, i)
            } else {
                l.issues.push(i)
            };
            if ii < l.issues.len() {
                lemma_update_unique(l.issue_titles(), ii, i.title);
                assert(issues.map_values(|x: IssueModel| x.title) =~= l.issue_titles().update(ii, i.title));
            } else {
                if l.issue_titles().contains(i.title) {
                    let k = choose|k: int| 0 <= k < l.issue_titles().len() && l.issue_titles()[k] == i.title;
                    assert(k != ii);
                }
                lemma_push_unique(l.issue_titles(), i.title);
                assert(issues.map_values(|x: IssueModel| x.title) =~= l.issue_titles().push(i.title));
            }
            let l2 = l.with_issues(issues);
            let b1 = b.with_deps(
                map_ends(b.deps, |e: BoardIssueRefModel| local_issue_renamed(e, r.list, r.issue, i.title)),
            );
            lemma_board_with_list(b1, li, l2);
            lemma_file_with_board(m, bi, b1.with_lists(b1.lists.update(li, l2)));
            let m1 = m.with_deps(
                map_ends(m.deps, |e: FileIssueRefModel| issue_renamed(e, r.board, r.list, r.issue, i.title)),
            );
            assert(after_update_issue(m, r, i) == m1.with_boards(m.boards.update(bi, b1.with_lists(b1.lists.update(li, l2)))));
        }
    }
}

/// Removing an issue keeps titles unique among siblings at every level.
pub proof fn lemma_remove_issue_unique(m: FileModel, r: FileIssueRefModel)
    requires
        m.wf(),
    ensures
        after_remove_issue(m, r).wf(),
{
    if let Some((bi, li, ii)) = issue_slot(m, r) {
        m.board_titles().index_of_first_ensures(r.board);
        let b = m.boards[bi];
        assert(m.boards[bi].wf());
        b.list_titles().index_of_first_ensures(r.list);
        let l = b.lists[li];
        assert(b.lists[li].wf());
        l.issue_titles().index_of_first_ensures(r.issue);
        if ii < l.issues.len() {
            lemma_remove_unique(l.issue_titles(), ii);
            let l2 = l.with_issues(l.issues.remove(ii));
            assert(l2.issue_titles() =~= l.issue_titles().remove(ii));
            let b1 = b.with_lists(b.lists.update(li, l2)).with_deps(
                prune(b.deps, |e: BoardIssueRefModel| e.issue == r.issue),
            );
            lemma_board_with_list(b, li, l2);
            lemma_file_with_board(m, bi, b1);
        }
    }
}

/// Every edge that pruning keeps has neither end named.
proof fn lemma_pruned<M>(deps: Seq<DepModel<M>>, named: spec_fn(M) -> bool)
    ensures
        forall|k: int|
            0 <= k < prune(deps, named).len() ==> !named(#[trigger] prune(deps, named)[k].left)
                && !named(prune(deps, named)[k].right),
{
    let keep = |d: DepModel<M>| !named(d.left) && !named(d.right);
    assert forall|k: int| 0 <= k < prune(deps, named).len() implies !named(
        #[trigger] prune(deps, named)[k].left,
    ) && !named(prune(deps, named)[k].right) by {
        deps.lemma_filter_pred(keep, k);
    }
}

/// Once a board is removed, no edge of the document has an end on it; the
/// board's own edges went with it.
pub proof fn lemma_remove_board_leaves_no_edge(m: FileModel, r: FileBoardRefModel)
    requires
        m.board_titles().contains(r.board),
    ensures
        forall|k: int|
            0 <= k < after_remove_board(m, r).deps.len() ==> (#[trigger] after_remove_board(m, r).deps[k]).left.board
                != r.board && after_remove_board(m, r).deps[k].right.board != r.board,
{
    m.board_titles().index_of_first_ensures(r.board);
    lemma_pruned(m.deps, |e: FileIssueRefModel| e.board == r.board);
}

/// Once a list is removed, no edge of the document, nor of its board, has
/// an end in a list of its title.
pub proof fn lemma_remove_list_leaves_no_edge(m: FileModel, r: FileListRefModel, bi: int)
    requires
        m.board_titles().index_of_first(r.board) == Some(bi),
        m.boards[bi].list_titles().contains(r.list),
    ensures
        forall|k: int|
            0 <= k < after_remove_list(m, r).deps.len() ==> (#[trigger] after_remove_list(m, r).deps[k]).left.list
                != r.list && after_remove_list(m, r).deps[k].right.list != r.list,
        forall|k: int|
            0 <= k < after_remove_list(m, r).boards[bi].deps.len() ==> (
            #[trigger] after_remove_list(m, r).boards[bi].deps[k]).left.list != r.list
                && after_remove_list(m, r).boards[bi].deps[k].right.list != r.list,
{
    m.board_titles().index_of_first_ensures(r.board);
    m.boards[bi].list_titles().index_of_first_ensures(r.list);
    lemma_pruned(m.deps, |e: FileIssueRefModel| e.list == r.list);
    lemma_pruned(m.boards[bi].deps, |e: BoardIssueRefModel| e.list == r.list);
}

/// Once an issue is removed, no edge of the document, nor of its board, has
/// an end on an issue of its title.
pub proof fn lemma_remove_issue_leaves_no_edge(m: FileModel, r: FileIssueRefModel, bi: int, li: int, ii: int)
    requires
        issue_slot(m, r) == Some((bi, li, ii)),
        ii < m.boards[bi].lists[li].issues.len(),
    ensures
        forall|k: int|
            0 <= k < after_remove_issue(m, r).deps.len() ==> (#[trigger] after_remove_issue(m, r).deps[k]).left.issue
                != r.issue && after_remove_issue(m, r).deps[k].right.issue != r.issue,
        forall|k: int|
            0 <= k < after_remove_issue(m, r).boards[bi].deps.len() ==> (
            #[trigger] after_remove_issue(m, r).boards[bi].deps[k]).left.issue != r.issue
                && after_remove_issue(m, r).boards[bi].deps[k].right.issue != r.issue,
{
    m.board_titles().index_of_first_ensures(r.board);
    m.boards[bi].list_titles().index_of_first_ensures(r.list);
    lemma_pruned(m.deps, |e: FileIssueRefModel| e.issue == r.issue);
    lemma_pruned(m.boards[bi].deps, |e: BoardIssueRefModel| e.issue == r.issue);
}

/// The first position of `t` is `i`.
proof fn lemma_first_at(ts: Seq<Seq<char>>, t: Seq<char>, i: int)
    requires
        0 <= i < ts.len(),
        ts[i] == t,
        forall|j: int| 0 <= j < i ==> ts[j] != t,
    ensures
        ts.index_of_first(t) == Some(i),
{
    assert(ts.contains(t));
    ts.index_of_first_ensures(t);
    let x = ts.index_of_first(t).unwrap();
    if x < i {
        assert(ts[x] != t);
    }
}

/// `t` has no position.
proof fn lemma_first_absent(ts: Seq<Seq<char>>, t: Seq<char>)
    requires
        forall|j: int| 0 <= j < ts.len() ==> ts[j] != t,
    ensures
        ts.index_of_first(t) is None,
{
    ts.index_of_first_ensures(t);
}

/// Renaming an issue from one title to another carries every edge end of
/// the document that named it to the new title; the issue then resolves by
/// its new title, as the new value, and no longer by the old one.
pub proof fn lemma_rename_propagates(
    m: FileModel,
    r: HyphaFileIssueRef,
    renamed: HyphaFileIssueRef,
    i: IssueModel,
    k: int,
)
    requires
        m.wf(),
        r.target(m) is Some,
        renamed@ == (FileIssueRefModel { issue: i.title, ..r@ }),
        i.title != r@.issue,
        !r.named_list(m).issue_titles().contains(i.title),
        0 <= k < m.deps.len(),
        m.deps[k].left == r@,
    ensures
        after_update_issue(m, r@, i).deps[k].left == renamed@,
        after_update_issue(m, r@, i).deps[k].right == issue_renamed(
            m.deps[k].right,
            r@.board,
            r@.list,
            r@.issue,
            i.title,
        ),
        renamed.target(after_update_issue(m, r@, i)) == Some(i),
        r.target(after_update_issue(m, r@, i)) is None,
{
    let (bi, li) = r.list_position(m).unwrap();
    m.board_titles().index_of_first_ensures(r@.board);
    let b = m.boards[bi];
    assert(m.boards[bi].wf());
    b.list_titles().index_of_first_ensures(r@.list);
    let l = b.lists[li];
    assert(b.lists[li].wf());
    l.issue_titles().index_of_first_ensures(r@.issue);
    let ii = l.issue_titles().index_of_first(r@.issue).unwrap();
    assert(issue_slot(m, r@) == Some((bi, li, ii)));
    if taken_by_other(l.issue_titles(), ii, i.title) {
        let x = choose|x: int| 0 <= x < l.issue_titles().len() && x != ii && l.issue_titles()[x] == i.title;
        assert(l.issue_titles().contains(i.title));
    }
    let m2 = after_update_issue(m, r@, i);
    let l2 = l.with_issues(l.issues.update(ii, i));
    let b1 = b.with_deps(map_ends(b.deps, |e: BoardIssueRefModel| local_issue_renamed(e, r@.list, r@.issue, i.title)));
    assert(m2.boards == m.boards.update(bi, b1.with_lists(b.lists.update(li, l2))));
    assert(m2.board_titles() =~= m.board_titles());
    assert(m2.boards[bi].list_titles() =~= b.list_titles());
    assert(m2.boards[bi].lists[li] == l2);
    assert(l2.issue_titles() =~= l.issue_titles().update(ii, i.title));
    assert forall|j: int| 0 <= j < ii implies l2.issue_titles()[j] != i.title by {
        assert(l.issue_titles()[j] == l2.issue_titles()[j]);
    }
    lemma_first_at(l2.issue_titles(), i.title, ii);
    assert forall|j: int| 0 <= j < l2.issue_titles().len() implies l2.issue_titles()[j] != r@.issue by {
        if j != ii {
            assert(l.issue_titles()[j] == l2.issue_titles()[j]);
        }
    }
    lemma_first_absent(l2.issue_titles(), r@.issue);
}

/// A lookup for update through a document-scope issue reference whose
/// board and list resolve but whose issue does not hands out a blank issue,
/// appended to that list: the list gains exactly that one issue.
pub proof fn lemma_lookup_for_update_appends(m: FileModel, r: HyphaFileIssueRef, item: IssueModel)
    requires
        r.list_position(m) is Some,
        r.target(m) is None,
    ensures
        r.slot(m) == Some(blank_issue()),
        r.fill(m, item) == r.with_named_issues(m, r.named_list(m).issues.push(item)),
{
}

/// The other references create nothing: where one does not resolve, a
/// lookup for update hands out nothing, and the container stays as it was.
pub proof fn lemma_lookup_for_update_creates_nothing(
    m: FileModel,
    b: BoardModel,
    list_ref: HyphaFileListRef,
    board_ref: HyphaFileBoardRef,
    local_ref: HyphaBoardIssueRef,
)
    ensures
        list_ref.target(m) is None ==> list_ref.slot(m) is None,
        board_ref.target(m) is None ==> board_ref.slot(m) is None,
        local_ref.target(b) is None ==> local_ref.slot(b) is None,
{
}

} // verus!
