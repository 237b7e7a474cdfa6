use git_rewrite::{branch_reference, collect_all_commits, CommitInfo, EngineTime, OrderViolation};

fn commit(id: &str, parents: &[&str]) -> CommitInfo {
    CommitInfo {
        id: id.to_string(),
        tree_id: format!("tree-{}", id),
        parent_ids: parents.iter().map(|parent| parent.to_string()).collect(),
        author_name: Some("Ada".to_string()),
        author_email: Some("ada@example.org".to_string()),
        message: Some(format!("commit {}", id)),
        time: EngineTime { seconds: 1_700_000_000, offset_minutes: 0 },
    }
}

#[test]
fn branch_reference_is_under_heads() {
    assert_eq!(branch_reference("main"), "refs/heads/main");
    assert_eq!(branch_reference("feature/x"), "refs/heads/feature/x");
    assert_eq!(branch_reference(""), "refs/heads/");
}

#[test]
fn empty_walk_is_in_order() {
    assert_eq!(collect_all_commits(Vec::new()), Ok(Vec::new()));
}

#[test]
fn linear_walk_is_handed_on_unchanged() {
    let walked = vec![commit("c1", &[]), commit("c2", &["c1"]), commit("c3", &["c2"])];
    let collected = collect_all_commits(walked.clone()).unwrap();
    assert_eq!(collected, walked);
}

#[test]
fn merge_after_both_parents_is_in_order() {
    let walked = vec![
        commit("root", &[]),
        commit("left", &["root"]),
        commit("right", &["root"]),
        commit("merge", &["left", "right"]),
    ];
    assert_eq!(collect_all_commits(walked.clone()), Ok(walked));
}

#[test]
fn child_before_parent_is_refused() {
    let walked = vec![commit("c2", &["c1"]), commit("c1", &[])];
    assert_eq!(collect_all_commits(walked), Err(OrderViolation { child: 0, parent: 1 }));
}

#[test]
fn newest_first_walk_is_refused() {
    let walked = vec![commit("c3", &["c2"]), commit("c2", &["c1"]), commit("c1", &[])];
    let found = collect_all_commits(walked.clone()).unwrap_err();
    assert!(found.child <= found.parent);
    assert!(found.parent < walked.len());
    assert!(walked[found.child].parent_ids.contains(&walked[found.parent].id));
}

#[test]
fn merge_before_second_parent_is_refused() {
    let walked = vec![
        commit("root", &[]),
        commit("left", &["root"]),
        commit("merge", &["left", "right"]),
        commit("right", &["root"]),
    ];
    assert_eq!(collect_all_commits(walked), Err(OrderViolation { child: 2, parent: 3 }));
}

#[test]
fn commit_that_is_its_own_parent_is_refused() {
    let walked = vec![commit("c1", &[]), commit("loop", &["loop"])];
    assert_eq!(collect_all_commits(walked), Err(OrderViolation { child: 1, parent: 1 }));
}

#[test]
fn parent_outside_the_walk_is_no_violation() {
    let walked = vec![commit("c2", &["gone"]), commit("c3", &["c2", "also-gone"])];
    assert_eq!(collect_all_commits(walked.clone()), Ok(walked));
}

#[test]
fn parent_that_occurs_again_later_is_refused() {
    let walked = vec![commit("c1", &[]), commit("c2", &["c1"]), commit("c1", &[])];
    assert_eq!(collect_all_commits(walked), Err(OrderViolation { child: 1, parent: 2 }));
}
