use lernie::prompt::branches::{append_open, path, remove, unmerged_count, BranchKind, BranchStatus, Branches};

#[test]
fn the_state_file_sits_under_the_repo() {
    assert_eq!(path("/r"), "/r/.agent/state/branches.json");
}

#[test]
fn a_missing_file_is_an_empty_map() {
    assert_eq!(unmerged_count(&Branches::new()), 0);
}

#[test]
fn append_records_an_open_entry() {
    let mut b = Branches::new();
    append_open(&mut b, "c1", BranchKind::Exchange, "t0".into(), "sha0".into());
    assert_eq!(unmerged_count(&b), 1);
    let e = b.lookup("c1").unwrap();
    assert_eq!(e.status, BranchStatus::Open);
    assert_eq!(e.stopped_at, None);
    assert_eq!(e.spawned_at, "t0");
    assert_eq!(e.base_sha, "sha0");
    assert_eq!(e.kind, BranchKind::Exchange);
}

#[test]
fn append_is_idempotent_under_retry() {
    let mut b = Branches::new();
    append_open(&mut b, "c1", BranchKind::Exchange, "t0".into(), "s".into());
    append_open(&mut b, "c1", BranchKind::Exchange, "t1".into(), "s".into());
    assert_eq!(unmerged_count(&b), 1);
    assert_eq!(b.lookup("c1").unwrap().spawned_at, "t1");
}

#[test]
fn remove_drops_the_entry_and_a_missing_one_is_a_noop() {
    let mut b = Branches::new();
    append_open(&mut b, "b", BranchKind::Exchange, "t".into(), "s".into());
    append_open(&mut b, "a", BranchKind::Invocation, "t".into(), "s".into());
    remove(&mut b, "zzz");
    assert_eq!(unmerged_count(&b), 2);
    remove(&mut b, "b");
    assert_eq!(unmerged_count(&b), 1);
    assert!(b.lookup("b").is_none());
    assert!(b.lookup("a").is_some());
}

#[test]
fn entries_are_kept_in_name_order() {
    let mut b = Branches::new();
    for n in ["m", "a", "z", "c"] {
        append_open(&mut b, n, BranchKind::Exchange, "t".into(), "s".into());
    }
    let names: Vec<String> = (0..b.len()).map(|i| b.get(i).0.clone()).collect();
    assert_eq!(names, vec!["a", "c", "m", "z"]);
}
