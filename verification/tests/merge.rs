use lernie::error::{Error, GitRunner};
use lernie::prompt::compactor::merge::{merge, MergeOutcome};
use std::cell::RefCell;

struct StubGit {
    calls: RefCell<Vec<Vec<String>>>,
    fail_at: usize,
    diff: Option<String>,
}

impl StubGit {
    fn failing_at(idx: usize) -> Self {
        StubGit { calls: RefCell::new(Vec::new()), fail_at: idx, diff: Some(String::new()) }
    }
    fn with_filtered(idx: usize, paths: &str) -> Self {
        StubGit { diff: Some(paths.into()), ..StubGit::failing_at(idx) }
    }
    fn diff_capture_failing() -> Self {
        StubGit { diff: None, ..StubGit::failing_at(usize::MAX) }
    }
}

impl GitRunner for StubGit {
    fn run(&self, _dest: &str, args: &[&str]) -> std::io::Result<()> {
        let idx = self.calls.borrow().len();
        self.calls.borrow_mut().push(args.iter().map(|s| (*s).to_owned()).collect());
        if idx == self.fail_at {
            Err(std::io::Error::other("stub fail"))
        } else {
            Ok(())
        }
    }
    fn run_capture(&self, _dest: &str, args: &[&str]) -> std::io::Result<String> {
        if args.first() == Some(&"diff") {
            return self.diff.clone().ok_or_else(|| std::io::Error::other("stub fail"));
        }
        Ok("deadbeefsha".into())
    }
}

fn assert_git_op(err: Error, want: &str) {
    match err {
        Error::Git { op, .. } => assert_eq!(op, want),
        other => panic!("expected a git error, got {other:?}"),
    }
}

#[test]
fn tests_add_failure_surfaces_as_git_error() {
    let err = merge("/x", "p1-cmp", &StubGit::failing_at(1)).unwrap_err();
    assert!(matches!(err, Error::Git { op: "compaction merge add", .. }), "{err:?}");
}

#[test]
fn tests_commit_failure_surfaces_as_git_error() {
    let err = merge("/x", "p1-cmp", &StubGit::failing_at(2)).unwrap_err();
    assert!(matches!(err, Error::Git { op: "compaction merge commit", .. }), "{err:?}");
}

#[test]
fn stub_add_failure_surfaces_as_git_error() {
    let err = merge("/x", "p1-cmp", &StubGit::failing_at(1)).unwrap_err();
    assert_git_op(err, "compaction merge add");
}

#[test]
fn stub_commit_failure_surfaces_as_git_error() {
    let err = merge("/x", "p1-cmp", &StubGit::failing_at(2)).unwrap_err();
    assert_git_op(err, "compaction merge commit");
}

#[test]
fn filter_diff_failure_surfaces_as_git_error() {
    let err = merge("/x", "p1-cmp", &StubGit::diff_capture_failing()).unwrap_err();
    assert_git_op(err, "compaction merge filter");
}

#[test]
fn filter_restore_failure_surfaces_as_git_error() {
    let stub = StubGit::with_filtered(2, "messages/003-goal.md\n");
    let err = merge("/x", "p1-cmp", &stub).unwrap_err();
    assert_git_op(err, "compaction merge filter");
}

#[test]
fn a_clean_merge_commits_with_the_merge_subject() {
    let stub = StubGit::failing_at(usize::MAX);
    merge("/x", "p1-cmp", &stub).unwrap();
    let calls = stub.calls.borrow();
    assert_eq!(calls[0][0], "merge");
    assert!(calls[0].contains(&"agents/p1-cmp".to_string()));
    let last = calls.last().unwrap();
    assert_eq!(last[0], "commit");
    assert!(last.contains(&"compaction merge [p1-cmp]".to_string()), "{last:?}");
}

struct Scripted {
    calls: RefCell<Vec<Vec<String>>>,
    merge_fails: bool,
    merge_head: &'static str,
    unmerged: &'static str,
}

impl Scripted {
    fn new(merge_fails: bool, merge_head: &'static str, unmerged: &'static str) -> Self {
        Scripted { calls: RefCell::new(Vec::new()), merge_fails, merge_head, unmerged }
    }
    fn calls(&self) -> Vec<String> {
        self.calls.borrow().iter().map(|c| c.join(" ")).collect()
    }
}

impl GitRunner for Scripted {
    fn run(&self, _dest: &str, args: &[&str]) -> std::io::Result<()> {
        self.calls.borrow_mut().push(args.iter().map(|s| (*s).to_owned()).collect());
        if args[0] == "merge" && args.len() > 2 && self.merge_fails {
            return Err(std::io::Error::other("not something we can merge"));
        }
        Ok(())
    }
    fn run_capture(&self, _dest: &str, args: &[&str]) -> std::io::Result<String> {
        self.calls.borrow_mut().push(args.iter().map(|s| (*s).to_owned()).collect());
        match args[0] {
            "rev-parse" if self.merge_head.is_empty() => Err(std::io::Error::other("no MERGE_HEAD")),
            "rev-parse" => Ok(self.merge_head.into()),
            "ls-files" => Ok(self.unmerged.into()),
            _ => Ok(String::new()),
        }
    }
}

#[test]
fn tests_merge_lands_summary_and_clean_transcript_deletion() {
    let git = Scripted::new(false, "cafe\n", "");
    assert_eq!(merge("/wt", "p1-cmp", &git).unwrap(), MergeOutcome::Merged);
    let calls = git.calls();
    assert_eq!(calls[0], "merge --no-ff --no-commit --no-edit agents/p1-cmp");
    assert_eq!(calls[1], "rev-parse --verify -q MERGE_HEAD");
    assert_eq!(calls[2], "ls-files -u");
    assert_eq!(calls[3], "add -A");
    assert_eq!(calls.last().unwrap(), "commit --no-edit -m compaction merge [p1-cmp]");
}

#[test]
fn tests_already_up_to_date_is_a_noop() {
    let git = Scripted::new(false, "", "");
    assert_eq!(merge("/wt", "p1-cmp", &git).unwrap(), MergeOutcome::NoOp);
    assert!(git.calls().iter().all(|c| !c.starts_with("commit")), "no merge commit was created");
}

#[test]
fn tests_a_bad_compactor_ref_is_declined_loudly() {
    let git = Scripted::new(true, "", "");
    let err = merge("/wt", "does-not-exist", &git).unwrap_err();
    assert!(matches!(err, Error::Git { op: "compaction merge", .. }), "{err:?}");
}

#[test]
fn a_content_conflict_aborts_then_marks_and_commits_nothing() {
    let unmerged = "100644 aaa 1\tcode.txt\n100644 bbb 2\tcode.txt\n100644 ccc 3\tcode.txt\n";
    let git = Scripted::new(false, "cafe\n", unmerged);
    assert_eq!(merge("/wt", "p1-cmp", &git).unwrap(), MergeOutcome::Conflicted(vec!["code.txt".to_owned()]));
    let calls = git.calls();
    let n = calls.len();
    assert_eq!(calls[n - 2], "merge --abort");
    assert_eq!(calls[n - 1], "update-ref refs/lernie/conflicted/p1-cmp agents/p1-cmp");
    assert!(calls.iter().all(|c| c != "add -A" && !c.starts_with("commit")));
}
