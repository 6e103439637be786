use hypha::board::HyphaBoard;
use hypha::container::{find_by_title, HyphaContainerOps};
use hypha::context::{HyphaBoardContext, HyphaFileContext, HyphaIssueContext};
use hypha::dep::HyphaDep;
use hypha::file::HyphaFile;
use hypha::issue::HyphaIssue;
use hypha::list::HyphaList;
use hypha::refs::{
    HyphaBoardIssueRef, HyphaFileBoardRef, HyphaFileIssueRef, HyphaFileListRef, WithHyphaRef,
};
use hypha::resolve::HyphaRef;

fn issue(title: &str) -> HyphaIssue {
    HyphaIssue::new(title.to_string())
}

fn list(title: &str, issues: &[&str]) -> HyphaList {
    HyphaList {
        title: title.to_string(),
        issues: issues.iter().map(|t| issue(t)).collect(),
    }
}

fn board(title: &str, lists: Vec<HyphaList>) -> HyphaBoard {
    HyphaBoard {
        title: title.to_string(),
        lists,
        deps: vec![],
    }
}

fn file(boards: Vec<HyphaBoard>) -> HyphaFile {
    HyphaFile {
        boards,
        deps: vec![],
        path: "hypha.toml".to_string(),
    }
}

fn file_ref(board: &str, list: &str, issue: &str) -> HyphaFileIssueRef {
    HyphaFileIssueRef {
        issue: issue.to_string(),
        list: list.to_string(),
        stage: 0,
        board: board.to_string(),
    }
}

fn local_ref(list: &str, issue: &str) -> HyphaBoardIssueRef {
    HyphaBoardIssueRef {
        issue: issue.to_string(),
        list: list.to_string(),
        stage: 0,
    }
}

fn list_ref(board: &str, list: &str, stage: usize) -> HyphaFileListRef {
    HyphaFileListRef {
        list: list.to_string(),
        stage,
        board: board.to_string(),
    }
}

fn board_ref(board: &str) -> HyphaFileBoardRef {
    HyphaFileBoardRef {
        board: board.to_string(),
    }
}

fn sample() -> HyphaFile {
    file(vec![
        board(
            "Work",
            vec![list("Todo", &["A", "B"]), list("Done", &["Z"])],
        ),
        board("Home", vec![list("Todo", &["Dishes"])]),
    ])
}

fn titles<T>(items: &[T], title: impl Fn(&T) -> &str) -> Vec<String> {
    items.iter().map(|i| title(i).to_string()).collect()
}

#[test]
fn find_by_title_gives_first_position() {
    let l = list("Todo", &["A", "B", "A"]);
    assert_eq!(find_by_title(&l.issues, "A"), Some(0));
    assert_eq!(find_by_title(&l.issues, "B"), Some(1));
    assert_eq!(find_by_title(&l.issues, "C"), None);
    assert_eq!(find_by_title(&Vec::<HyphaIssue>::new(), "A"), None);
}

#[test]
fn swap_exchanges_two_lists() {
    let mut b = board("Work", vec![list("Todo", &[]), list("Doing", &[]), list("Done", &[])]);
    assert!(b.swap("Todo", "Done"));
    assert_eq!(titles(&b.lists, |l| &l.title), vec!["Done", "Doing", "Todo"]);
    assert_eq!(b.title, "Work");
}

#[test]
fn swap_with_missing_title_changes_nothing() {
    let mut f = sample();
    let before = f.clone();
    assert!(!f.swap("Work", "Nowhere"));
    assert_eq!(f, before);
}

#[test]
fn issue_reference_resolves_by_titles() {
    let f = sample();
    let found = file_ref("Work", "Todo", "B").get_item_from_container(&f);
    assert_eq!(found.map(|i| i.title.as_str()), Some("B"));
    assert!(file_ref("Work", "Done", "B").get_item_from_container(&f).is_none());
    assert!(file_ref("Play", "Todo", "B").get_item_from_container(&f).is_none());
}

#[test]
fn list_reference_resolves_by_stage() {
    let f = sample();
    let found = list_ref("Work", "Todo", 1).get_item_from_container(&f);
    assert_eq!(found.map(|l| l.title.as_str()), Some("Done"));
    assert!(list_ref("Work", "Todo", 2).get_item_from_container(&f).is_none());
}

#[test]
fn list_reference_removes_by_title() {
    let mut f = sample();
    assert!(list_ref("Work", "Done", 0).remove_item_from_container(&mut f));
    assert_eq!(titles(&f.boards[0].lists, |l| &l.title), vec!["Todo"]);
    assert!(!list_ref("Work", "Done", 0).remove_item_from_container(&mut f));
}

#[test]
fn board_scope_reference_resolves_and_removes() {
    let mut b = board("Work", vec![list("Todo", &["A", "B"])]);
    assert_eq!(
        local_ref("Todo", "A").get_item_from_container(&b).map(|i| i.title.clone()),
        Some("A".to_string())
    );
    assert!(local_ref("Todo", "A").remove_item_from_container(&mut b));
    assert_eq!(titles(&b.lists[0].issues, |i| &i.title), vec!["B"]);
    assert!(!local_ref("Todo", "A").remove_item_from_container(&mut b));
}

#[test]
fn lookup_for_update_appends_blank_issue() {
    let mut f = sample();
    let slot = file_ref("Work", "Todo", "New").get_item_from_container_mut(&mut f);
    let slot = slot.expect("board and list exist");
    assert_eq!(slot.title, "");
    assert_eq!(slot.description, "");
    slot.description = "filled".to_string();
    assert_eq!(titles(&f.boards[0].lists[0].issues, |i| &i.title), vec!["A", "B", ""]);
    assert_eq!(f.boards[0].lists[0].issues[2].description, "filled");
}

#[test]
fn lookup_for_update_creates_nothing_for_other_references() {
    let mut f = sample();
    let before = f.clone();
    assert!(list_ref("Work", "Todo", 5).get_item_from_container_mut(&mut f).is_none());
    assert!(board_ref("Play").get_item_from_container_mut(&mut f).is_none());
    assert!(file_ref("Work", "Later", "X").get_item_from_container_mut(&mut f).is_none());
    assert_eq!(f, before);
    let mut b = board("Work", vec![list("Todo", &["A"])]);
    let b_before = b.clone();
    assert!(local_ref("Todo", "Missing").get_item_from_container_mut(&mut b).is_none());
    assert_eq!(b, b_before);
}

#[test]
fn add_board_appends_new_title() {
    let mut ctx = HyphaFileContext::new(sample());
    ctx.add_board(board("Play", vec![list("Todo", &["Chess"])]));
    assert_eq!(titles(&ctx.get().boards, |b| &b.title), vec!["Work", "Home", "Play"]);
}

#[test]
fn add_board_with_taken_title_is_ignored() {
    let mut ctx = HyphaFileContext::new(sample());
    ctx.add_board(board("Home", vec![]));
    assert_eq!(titles(&ctx.get().boards, |b| &b.title), vec!["Work", "Home"]);
    assert_eq!(ctx.get().boards[1].lists.len(), 1);
}

#[test]
fn add_list_with_taken_title_leaves_lists_unchanged() {
    let mut ctx = HyphaFileContext::new(file(vec![board("Work", vec![list("Todo", &["A"])])]));
    let before = ctx.get().boards[0].lists.clone();
    ctx.add_list(board_ref("Work"), list("Todo", &[]));
    assert_eq!(ctx.get().boards[0].lists, before);
    ctx.add_list(board_ref("Work"), list("Doing", &["B"]));
    assert_eq!(titles(&ctx.get().boards[0].lists, |l| &l.title), vec!["Todo", "Doing"]);
}

#[test]
fn add_issue_goes_to_list_at_stage() {
    let mut ctx = HyphaFileContext::new(sample());
    ctx.add_issue(list_ref("Work", "Todo", 1), issue("Y"));
    assert_eq!(titles(&ctx.get().boards[0].lists[1].issues, |i| &i.title), vec!["Z", "Y"]);
    ctx.add_issue(list_ref("Work", "Done", 1), issue("Z"));
    assert_eq!(ctx.get().boards[0].lists[1].issues.len(), 2);
    ctx.add_issue(list_ref("Work", "Done", 7), issue("Q"));
    assert_eq!(ctx.get(), &{
        let mut f = sample();
        f.boards[0].lists[1].issues.push(issue("Y"));
        f
    });
}

#[test]
fn update_board_renames_document_edges() {
    let mut f = sample();
    f.deps.push(HyphaDep {
        left: file_ref("Work", "Todo", "A"),
        right: file_ref("Home", "Todo", "Dishes"),
    });
    let mut ctx = HyphaFileContext::new(f);
    let mut renamed = ctx.get().boards[0].clone();
    renamed.title = "Office".to_string();
    ctx.update_board(WithHyphaRef { item: renamed, reference: board_ref("Work") });
    assert_eq!(titles(&ctx.get().boards, |b| &b.title), vec!["Office", "Home"]);
    assert_eq!(ctx.get().deps[0].left.board, "Office");
    assert_eq!(ctx.get().deps[0].right.board, "Home");
}

#[test]
fn update_board_to_taken_title_is_ignored() {
    let mut ctx = HyphaFileContext::new(sample());
    let before = ctx.get().clone();
    ctx.update_board(WithHyphaRef { item: board("Home", vec![]), reference: board_ref("Work") });
    assert_eq!(ctx.get(), &before);
}

#[test]
fn update_list_renames_edges_at_both_scopes() {
    let mut f = sample();
    f.boards[0].deps.push(HyphaDep { left: local_ref("Todo", "A"), right: local_ref("Done", "Z") });
    f.deps.push(HyphaDep {
        left: file_ref("Work", "Todo", "A"),
        right: file_ref("Home", "Todo", "Dishes"),
    });
    let mut ctx = HyphaFileContext::new(f);
    let mut item = ctx.get().boards[0].lists[0].clone();
    item.title = "Backlog".to_string();
    ctx.update_list(WithHyphaRef { item, reference: list_ref("Work", "Todo", 0) });
    let f = ctx.get();
    assert_eq!(titles(&f.boards[0].lists, |l| &l.title), vec!["Backlog", "Done"]);
    assert_eq!(f.boards[0].deps[0].left.list, "Backlog");
    assert_eq!(f.boards[0].deps[0].right.list, "Done");
    assert_eq!(f.deps[0].left.list, "Backlog");
    assert_eq!(f.deps[0].right.list, "Todo");
}

#[test]
fn update_list_to_taken_title_is_ignored() {
    let mut ctx = HyphaFileContext::new(sample());
    let before = ctx.get().clone();
    ctx.update_list(WithHyphaRef { item: list("Done", &[]), reference: list_ref("Work", "Todo", 0) });
    assert_eq!(ctx.get(), &before);
}

#[test]
fn rename_issue_propagates_to_edges_and_lookups() {
    let mut f = sample();
    f.deps.push(HyphaDep { left: file_ref("Work", "Todo", "A"), right: file_ref("Work", "Todo", "B") });
    f.boards[0].deps.push(HyphaDep { left: local_ref("Todo", "A"), right: local_ref("Todo", "B") });
    let mut ctx = HyphaFileContext::new(f);
    let mut item = issue("C");
    item.description = "renamed".to_string();
    ctx.update_issue(WithHyphaRef { item, reference: file_ref("Work", "Todo", "A") });
    let f = ctx.get();
    assert_eq!(f.deps[0].left, file_ref("Work", "Todo", "C"));
    assert_eq!(f.deps[0].right, file_ref("Work", "Todo", "B"));
    assert_eq!(f.boards[0].deps[0].left, local_ref("Todo", "C"));
    assert_eq!(f.boards[0].deps[0].right, local_ref("Todo", "B"));
    let found = file_ref("Work", "Todo", "C").get_item_from_container(f);
    assert_eq!(found.map(|i| i.description.as_str()), Some("renamed"));
    assert!(file_ref("Work", "Todo", "A").get_item_from_container(f).is_none());
}

#[test]
fn update_issue_keeping_title_edits_description() {
    let mut ctx = HyphaFileContext::new(sample());
    let mut item = issue("B");
    item.description = "details".to_string();
    ctx.update_issue(WithHyphaRef { item, reference: file_ref("Work", "Todo", "B") });
    let issues = &ctx.get().boards[0].lists[0].issues;
    assert_eq!(titles(issues, |i| &i.title), vec!["A", "B"]);
    assert_eq!(issues[1].description, "details");
}

#[test]
fn update_issue_to_taken_title_is_ignored() {
    let mut ctx = HyphaFileContext::new(sample());
    let before = ctx.get().clone();
    ctx.update_issue(WithHyphaRef { item: issue("B"), reference: file_ref("Work", "Todo", "A") });
    assert_eq!(ctx.get(), &before);
}

#[test]
fn update_issue_with_absent_title_appends_item() {
    let mut ctx = HyphaFileContext::new(sample());
    ctx.update_issue(WithHyphaRef { item: issue("New"), reference: file_ref("Work", "Done", "Gone") });
    assert_eq!(titles(&ctx.get().boards[0].lists[1].issues, |i| &i.title), vec!["Z", "New"]);
}

#[test]
fn remove_issue_prunes_edges_at_both_scopes() {
    let mut f = sample();
    f.deps.push(HyphaDep { left: file_ref("Work", "Todo", "A"), right: file_ref("Work", "Todo", "B") });
    f.deps.push(HyphaDep { left: file_ref("Work", "Done", "Z"), right: file_ref("Work", "Todo", "B") });
    f.boards[0].deps.push(HyphaDep { left: local_ref("Todo", "B"), right: local_ref("Todo", "A") });
    f.boards[0].deps.push(HyphaDep { left: local_ref("Todo", "B"), right: local_ref("Done", "Z") });
    let mut ctx = HyphaFileContext::new(f);
    ctx.remove_issue(file_ref("Work", "Todo", "A"));
    let f = ctx.get();
    assert_eq!(titles(&f.boards[0].lists[0].issues, |i| &i.title), vec!["B"]);
    assert_eq!(f.deps.len(), 1);
    assert_eq!(f.deps[0].left, file_ref("Work", "Done", "Z"));
    assert_eq!(f.boards[0].deps.len(), 1);
    assert_eq!(f.boards[0].deps[0].right, local_ref("Done", "Z"));
}

#[test]
fn remove_missing_issue_keeps_edges() {
    let mut f = sample();
    f.deps.push(HyphaDep { left: file_ref("Work", "Todo", "Q"), right: file_ref("Work", "Todo", "B") });
    let mut ctx = HyphaFileContext::new(f);
    let before = ctx.get().clone();
    ctx.remove_issue(file_ref("Work", "Todo", "Q"));
    assert_eq!(ctx.get(), &before);
}

#[test]
fn remove_list_prunes_edges_at_both_scopes() {
    let mut f = sample();
    f.deps.push(HyphaDep { left: file_ref("Work", "Done", "Z"), right: file_ref("Work", "Todo", "B") });
    f.deps.push(HyphaDep { left: file_ref("Home", "Todo", "Dishes"), right: file_ref("Work", "Todo", "A") });
    f.boards[0].deps.push(HyphaDep { left: local_ref("Todo", "B"), right: local_ref("Done", "Z") });
    let mut ctx = HyphaFileContext::new(f);
    ctx.remove_list(list_ref("Work", "Done", 1));
    let f = ctx.get();
    assert_eq!(titles(&f.boards[0].lists, |l| &l.title), vec!["Todo"]);
    assert!(f.boards[0].deps.is_empty());
    assert_eq!(f.deps.len(), 1);
    assert_eq!(f.deps[0].left.board, "Home");
}

#[test]
fn remove_board_prunes_document_edges() {
    let mut f = sample();
    f.deps.push(HyphaDep { left: file_ref("Work", "Todo", "A"), right: file_ref("Home", "Todo", "Dishes") });
    f.deps.push(HyphaDep { left: file_ref("Home", "Todo", "Dishes"), right: file_ref("Play", "Todo", "X") });
    let mut ctx = HyphaFileContext::new(f);
    ctx.remove_board(board_ref("Work"));
    let f = ctx.get();
    assert_eq!(titles(&f.boards, |b| &b.title), vec!["Home"]);
    assert_eq!(f.deps.len(), 1);
    assert_eq!(f.deps[0].right.board, "Play");
    ctx.remove_board(board_ref("Work"));
    assert_eq!(ctx.get().boards.len(), 1);
}

#[test]
fn load_keeps_first_of_duplicate_boards() {
    let raw = file(vec![
        board("X", vec![list("First", &["A", "A"])]),
        board("Y", vec![]),
        board("X", vec![list("Second", &[])]),
    ]);
    let loaded = HyphaFile::loaded(raw, "elsewhere.toml".to_string());
    assert_eq!(titles(&loaded.boards, |b| &b.title), vec!["X", "Y"]);
    assert_eq!(titles(&loaded.boards[0].lists, |l| &l.title), vec!["First"]);
    assert_eq!(titles(&loaded.boards[0].lists[0].issues, |i| &i.title), vec!["A"]);
    assert_eq!(loaded.path, "elsewhere.toml");
}

#[test]
fn loading_twice_changes_nothing() {
    let raw = file(vec![
        board("X", vec![list("L", &["A", "B", "A"]), list("L", &[])]),
        board("X", vec![]),
    ]);
    let once = HyphaFile::loaded(raw, "p".to_string());
    let twice = HyphaFile::loaded(once.clone(), "p".to_string());
    assert_eq!(once, twice);
}

#[test]
fn uniq_on_empty_document_keeps_it_empty() {
    let mut f = file(vec![]);
    f.uniq();
    assert!(f.boards.is_empty());
    assert!(f.deps.is_empty());
}

#[test]
fn new_board_drops_lists_of_repeated_title() {
    let b = HyphaBoard::new(
        "Work".to_string(),
        vec![list("Todo", &["A"]), list("Done", &[]), list("Todo", &["B"])],
    );
    assert_eq!(titles(&b.lists, |l| &l.title), vec!["Todo", "Done"]);
    assert_eq!(titles(&b.lists[0].issues, |i| &i.title), vec!["A"]);
    assert!(b.deps.is_empty());
}

#[test]
fn fresh_document_holds_one_board() {
    let l = HyphaList::new("Todo".to_string(), issue("First"));
    let b = HyphaBoard::new("Board".to_string(), vec![l]);
    let f = HyphaFile::new("p.toml".to_string(), b);
    assert_eq!(f.boards.len(), 1);
    assert_eq!(f.boards[0].lists[0].issues[0].title, "First");
    assert_eq!(f.path, "p.toml");
    assert!(f.deps.is_empty());
}

#[test]
fn blank_issue_is_empty() {
    let i = HyphaIssue::default();
    assert_eq!(i.title, "");
    assert_eq!(i.description, "");
}

#[test]
fn selection_holders_keep_what_was_set() {
    let mut boards = HyphaBoardContext::new(board_ref("Work"));
    assert_eq!(boards.get(), board_ref("Work"));
    boards.set(board_ref("Home"));
    assert_eq!(boards.get(), board_ref("Home"));
    let mut open = HyphaIssueContext::new(None);
    assert_eq!(open.get(), None);
    open.set(Some(file_ref("Work", "Todo", "A")));
    assert_eq!(open.get(), Some(file_ref("Work", "Todo", "A")));
    open.set(None);
    assert_eq!(open.get(), None);
}

#[test]
fn selected_board_follows_its_rename() {
    let mut boards = HyphaBoardContext::new(board_ref("Work"));
    boards.follow_board_rename(&"Home".to_string(), &"House".to_string());
    assert_eq!(boards.get(), board_ref("Work"));
    boards.follow_board_rename(&"Work".to_string(), &"Office".to_string());
    assert_eq!(boards.get(), board_ref("Office"));
}

#[test]
fn open_issue_follows_renames_like_edges() {
    let mut open = HyphaIssueContext::new(Some(file_ref("Work", "Todo", "A")));
    open.follow_board_rename(&"Work".to_string(), &"Office".to_string());
    assert_eq!(open.get(), Some(file_ref("Office", "Todo", "A")));
    open.follow_list_rename(&"Office".to_string(), &"Todo".to_string(), &"Next".to_string());
    assert_eq!(open.get(), Some(file_ref("Office", "Next", "A")));
    open.follow_issue_rename(
        &"Office".to_string(),
        &"Next".to_string(),
        &"A".to_string(),
        &"C".to_string(),
    );
    assert_eq!(open.get(), Some(file_ref("Office", "Next", "C")));
    open.follow_issue_rename(
        &"Elsewhere".to_string(),
        &"Next".to_string(),
        &"C".to_string(),
        &"D".to_string(),
    );
    assert_eq!(open.get(), Some(file_ref("Office", "Next", "C")));
}

#[test]
fn open_issue_is_closed_with_its_list() {
    let mut open = HyphaIssueContext::new(Some(file_ref("Work", "Todo", "A")));
    open.forget_list(&"Done".to_string());
    assert_eq!(open.get(), Some(file_ref("Work", "Todo", "A")));
    open.forget_list(&"Todo".to_string());
    assert_eq!(open.get(), None);
}

#[test]
fn add_list_to_missing_board_is_ignored() {
    let mut ctx = HyphaFileContext::new(sample());
    let before = ctx.get().clone();
    ctx.add_list(board_ref("Play"), list("Todo", &[]));
    assert_eq!(ctx.get(), &before);
}

#[test]
fn update_list_with_stage_out_of_range_is_ignored() {
    let mut ctx = HyphaFileContext::new(sample());
    let before = ctx.get().clone();
    ctx.update_list(WithHyphaRef { item: list("Later", &[]), reference: list_ref("Work", "Todo", 2) });
    assert_eq!(ctx.get(), &before);
}

#[test]
fn update_issue_in_missing_list_is_ignored() {
    let mut ctx = HyphaFileContext::new(sample());
    let before = ctx.get().clone();
    ctx.update_issue(WithHyphaRef { item: issue("New"), reference: file_ref("Work", "Later", "A") });
    assert_eq!(ctx.get(), &before);
}

#[test]
fn removing_the_last_board_leaves_an_empty_document() {
    let mut ctx = HyphaFileContext::new(file(vec![board("Only", vec![])]));
    ctx.remove_board(board_ref("Only"));
    assert!(ctx.get().boards.is_empty());
    ctx.add_board(board("Again", vec![]));
    assert_eq!(titles(&ctx.get().boards, |b| &b.title), vec!["Again"]);
}
