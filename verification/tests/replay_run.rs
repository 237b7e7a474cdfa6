use git_rewrite::{
    replay_commit, resolve_parents, BranchRequest, CommitDate, CommitMeta, EngineTime,
    RemapTable, ReplayError, Replayer, RepoManifest,
};

fn meta(sha: &str, parents: &[&str]) -> CommitMeta {
    CommitMeta {
        sha: sha.to_string(),
        parents: parents.iter().map(|parent| parent.to_string()).collect(),
        author_name: "Ada Lovelace".to_string(),
        author_email: "ada@example.org".to_string(),
        date: CommitDate::new(1_700_000_000, 19_800).unwrap(),
        message: format!("message of {}", sha),
        tree_sha: format!("tree-{}", sha),
        folder: format!("export/{}", sha),
    }
}

fn manifest(commits: Vec<CommitMeta>) -> RepoManifest {
    RepoManifest { name: "project".to_string(), branch: "main".to_string(), commits }
}

/// Replays a manifest against an engine that names its commits `new-1`,
/// `new-2`, ... and returns the parents of each commit made.
fn run(manifest: RepoManifest) -> (Vec<(String, Vec<String>)>, Result<BranchRequest, ReplayError>) {
    let mut replayer = Replayer::new(manifest);
    let mut made = Vec::new();
    loop {
        let request = match replayer.current() {
            Some(record) => replay_commit(record, replayer.table()),
            None => break,
        };
        let id = format!("new-{}", made.len() + 1);
        made.push((id.clone(), request.parents));
        replayer = replayer.record(id);
    }
    let branch = replayer.finish();
    (made, branch)
}

#[test]
fn table_starts_empty_and_remembers() {
    let mut table = RemapTable::new();
    assert_eq!(table.get("a"), None);
    table.insert("a".to_string(), "1".to_string());
    table.insert("b".to_string(), "2".to_string());
    assert_eq!(table.get("a"), Some(&"1".to_string()));
    assert_eq!(table.get("b"), Some(&"2".to_string()));
    assert_eq!(table.get("c"), None);
    assert_eq!(table.get(""), None);
}

#[test]
fn later_entry_takes_the_place_of_an_earlier_one() {
    let mut table = RemapTable::new();
    table.insert("a".to_string(), "1".to_string());
    table.insert("a".to_string(), "2".to_string());
    assert_eq!(table.get("a"), Some(&"2".to_string()));
}

#[test]
fn parents_resolve_in_their_own_order() {
    let mut table = RemapTable::new();
    table.insert("x".to_string(), "nx".to_string());
    table.insert("y".to_string(), "ny".to_string());
    table.insert("z".to_string(), "nz".to_string());
    let parents = vec!["z".to_string(), "x".to_string(), "y".to_string()];
    assert_eq!(
        resolve_parents(&parents, &table),
        vec!["nz".to_string(), "nx".to_string(), "ny".to_string()]
    );
    assert_eq!(resolve_parents(&Vec::new(), &table), Vec::<String>::new());
}

#[test]
fn unknown_parents_are_dropped() {
    let mut table = RemapTable::new();
    table.insert("x".to_string(), "nx".to_string());
    let parents = vec!["gone".to_string(), "x".to_string(), "lost".to_string()];
    assert_eq!(resolve_parents(&parents, &table), vec!["nx".to_string()]);
    assert_eq!(resolve_parents(&parents, &RemapTable::new()), Vec::<String>::new());
}

#[test]
fn parent_named_twice_resolves_twice() {
    let mut table = RemapTable::new();
    table.insert("x".to_string(), "nx".to_string());
    let parents = vec!["x".to_string(), "x".to_string()];
    assert_eq!(resolve_parents(&parents, &table), vec!["nx".to_string(), "nx".to_string()]);
}

#[test]
fn request_carries_the_record_metadata() {
    let record = meta("c1", &[]);
    let request = replay_commit(&record, &RemapTable::new());
    assert_eq!(request.update_ref, "HEAD");
    assert_eq!(request.author_name, "Ada Lovelace");
    assert_eq!(request.author_email, "ada@example.org");
    assert_eq!(request.message, "message of c1");
    assert_eq!(request.time, EngineTime { seconds: 1_700_000_000, offset_minutes: 330 });
    assert!(request.parents.is_empty());
}

#[test]
fn request_time_names_the_record_date() {
    let record = meta("c1", &[]);
    let request = replay_commit(&record, &RemapTable::new());
    assert_eq!(git_rewrite::time::git2_to_chrono_date(&request.time), Ok(record.date));
}

#[test]
fn linear_history_of_three_commits() {
    let (made, branch) =
        run(manifest(vec![meta("c1", &[]), meta("c2", &["c1"]), meta("c3", &["c2"])]));
    assert_eq!(made.len(), 3);
    assert_eq!(made[0], ("new-1".to_string(), Vec::<String>::new()));
    assert_eq!(made[1], ("new-2".to_string(), vec!["new-1".to_string()]));
    // The new identifier of C2 is the sole parent of the new C3.
    assert_eq!(made[2], ("new-3".to_string(), vec!["new-2".to_string()]));
    assert_eq!(
        branch,
        Ok(BranchRequest { name: "main".to_string(), target: "new-3".to_string(), force: true })
    );
}

#[test]
fn merge_commit_keeps_both_parents_in_order() {
    let (made, branch) =
        run(manifest(vec![meta("c1", &[]), meta("c2", &[]), meta("c3", &["c1", "c2"])]));
    assert_eq!(made[2].1, vec!["new-1".to_string(), "new-2".to_string()]);
    assert_eq!(branch.unwrap().target, "new-3");
    let (made, _) =
        run(manifest(vec![meta("c1", &[]), meta("c2", &[]), meta("c3", &["c2", "c1"])]));
    assert_eq!(made[2].1, vec!["new-2".to_string(), "new-1".to_string()]);
}

#[test]
fn missing_parent_is_dropped_without_an_error() {
    let (made, branch) = run(manifest(vec![meta("c1", &[]), meta("c2", &["c1", "absent"])]));
    assert_eq!(made[1].1, vec!["new-1".to_string()]);
    assert_eq!(made[1].1.len(), 1);
    assert!(branch.is_ok());
    let (made, _) = run(manifest(vec![meta("c1", &["absent"])]));
    assert!(made[0].1.is_empty());
}

#[test]
fn parent_that_comes_later_is_dropped() {
    let (made, _) = run(manifest(vec![meta("c2", &["c1"]), meta("c1", &[])]));
    assert!(made[0].1.is_empty());
    assert!(made[1].1.is_empty());
}

#[test]
fn octopus_merge_keeps_every_parent() {
    let (made, _) = run(manifest(vec![
        meta("a", &[]),
        meta("b", &["a"]),
        meta("c", &["a"]),
        meta("d", &["a"]),
        meta("m", &["d", "b", "c"]),
    ]));
    assert_eq!(
        made[4].1,
        vec!["new-4".to_string(), "new-2".to_string(), "new-3".to_string()]
    );
}

#[test]
fn empty_manifest_has_no_branch() {
    let (made, branch) = run(manifest(Vec::new()));
    assert!(made.is_empty());
    assert_eq!(branch, Err(ReplayError::EmptyManifest));
}

#[test]
fn branch_waits_for_every_record() {
    let replayer = Replayer::new(manifest(vec![meta("c1", &[]), meta("c2", &["c1"])]));
    assert_eq!(replayer.finish(), Err(ReplayError::Unfinished));
    let replayer = replayer.record("new-1".to_string());
    assert_eq!(replayer.finish(), Err(ReplayError::Unfinished));
    let replayer = replayer.record("new-2".to_string());
    assert_eq!(
        replayer.finish(),
        Ok(BranchRequest { name: "main".to_string(), target: "new-2".to_string(), force: true })
    );
}

#[test]
fn branch_has_the_name_in_the_manifest() {
    let mut source = manifest(vec![meta("c1", &[])]);
    source.branch = "release/1.0".to_string();
    let replayer = Replayer::new(source).record("n".to_string());
    assert_eq!(replayer.finish().unwrap().name, "release/1.0");
}

#[test]
fn run_walks_the_records_in_manifest_order() {
    let replayer = Replayer::new(manifest(vec![meta("c1", &[]), meta("c2", &["c1"])]));
    assert_eq!(replayer.current().unwrap().sha, "c1");
    assert_eq!(replayer.table().get("c1"), None);
    let replayer = replayer.record("n1".to_string());
    assert_eq!(replayer.current().unwrap().sha, "c2");
    assert_eq!(replayer.table().get("c1"), Some(&"n1".to_string()));
    let replayer = replayer.record("n2".to_string());
    assert!(replayer.current().is_none());
    assert_eq!(replayer.table().get("c2"), Some(&"n2".to_string()));
}

#[test]
fn recording_with_no_record_left_changes_nothing() {
    let replayer = Replayer::new(manifest(vec![meta("c1", &[])])).record("n1".to_string());
    let replayer = replayer.record("stray".to_string());
    assert!(replayer.current().is_none());
    assert_eq!(replayer.table().get("c1"), Some(&"n1".to_string()));
    assert_eq!(replayer.finish().unwrap().target, "n1");
    let empty = Replayer::new(manifest(Vec::new())).record("stray".to_string());
    assert_eq!(empty.finish(), Err(ReplayError::EmptyManifest));
}

#[test]
fn record_that_repeats_an_identifier_takes_its_place() {
    let (made, branch) =
        run(manifest(vec![meta("c1", &[]), meta("c1", &[]), meta("c2", &["c1"])]));
    assert_eq!(made[2].1, vec!["new-2".to_string()]);
    assert_eq!(branch.unwrap().target, "new-3");
}
