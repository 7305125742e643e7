use lernie::error::{Error, GitRunner};
use lernie::prompt::compactor::land::{at_stop, of, run, AtStop, LandOutcome};
use lernie::prompt::compactor::stages::Unmerged;
use std::cell::RefCell;

fn u(path: &str, base: bool, ours: bool, theirs: bool) -> Unmerged {
    Unmerged { path: path.into(), base, ours, theirs }
}

#[test]
fn a_modify_delete_resolves_live_branch_wins() {
    let stops = vec![u("out.txt", true, false, true)];
    assert_eq!(at_stop(&stops, 3), AtStop::Resolve(vec!["out.txt".into()]));
}

#[test]
fn a_content_conflict_is_declined() {
    let stops = vec![u("a", true, false, true), u("b", true, true, true)];
    assert_eq!(at_stop(&stops, 3), AtStop::Decline(vec!["b".into()]));
}

#[test]
fn no_stops_or_no_budget_aborts() {
    assert_eq!(at_stop(&vec![], 3), AtStop::Abort);
    assert_eq!(at_stop(&vec![u("a", true, false, true)], 0), AtStop::Abort);
}

/// A scripted replay: the rebase stops `stops` times on a live-branch-wins
/// path, then finishes.
struct Replay {
    count: &'static str,
    stops: RefCell<u32>,
    calls: RefCell<Vec<Vec<String>>>,
}

impl GitRunner for Replay {
    fn run(&self, _dest: &str, args: &[&str]) -> std::io::Result<()> {
        self.calls.borrow_mut().push(args.iter().map(|s| s.to_string()).collect());
        let rebasing = args.contains(&"rebase") && !args.contains(&"--abort");
        if rebasing && *self.stops.borrow() > 0 {
            *self.stops.borrow_mut() -= 1;
            return Err(std::io::Error::other("stopped"));
        }
        Ok(())
    }
    fn run_capture(&self, _dest: &str, args: &[&str]) -> std::io::Result<String> {
        match args[0] {
            "rev-list" => Ok(self.count.to_owned()),
            "ls-files" => Ok("100644 aaa 1\tout.txt\n100644 bbb 3\tout.txt\n".to_owned()),
            other => panic!("unexpected {other}"),
        }
    }
}

#[test]
fn a_replay_resolves_each_stop_and_lands() {
    let g = Replay { count: "2\n", stops: RefCell::new(2), calls: RefCell::new(Vec::new()) };
    assert_eq!(run("/w", "p1", "p1-c", "agents/p1-c", "P", "B", &g).unwrap(), LandOutcome::Landed);
    let calls = g.calls.borrow();
    assert_eq!(calls[0], vec!["rebase", "--empty=keep", "--onto", "B", "P", "agents/p1"]);
    assert_eq!(calls[1], vec!["add", "--", "out.txt"]);
    assert_eq!(calls[2], vec!["-c", "core.editor=true", "rebase", "--continue"]);
}

#[test]
fn a_replay_that_makes_no_progress_aborts() {
    let g = Replay { count: "1\n", stops: RefCell::new(5), calls: RefCell::new(Vec::new()) };
    let err = run("/w", "p1", "p1-c", "agents/p1-c", "P", "B", &g).unwrap_err();
    assert!(matches!(err, Error::Git { op: "compaction land rebase", .. }), "{err:?}");
    assert_eq!(g.calls.borrow().last().unwrap(), &vec!["rebase".to_string(), "--abort".to_string()]);
}

struct Superseded;
impl GitRunner for Superseded {
    fn run(&self, _dest: &str, args: &[&str]) -> std::io::Result<()> {
        assert_eq!(args[0], "merge-base");
        Err(std::io::Error::other("not an ancestor"))
    }
    fn run_capture(&self, _dest: &str, args: &[&str]) -> std::io::Result<String> {
        match args[0] {
            "log" => Ok("dsha\n".into()),
            "rev-parse" => Ok("psha\n".into()),
            other => panic!("unexpected {other}"),
        }
    }
}

#[test]
fn a_pass_whose_point_no_longer_reaches_head_is_superseded() {
    assert!(of("/w", "p1", "p1-c", "agents/p1-c", &Superseded).unwrap().is_none());
}

struct NoDispatch;
impl GitRunner for NoDispatch {
    fn run(&self, _dest: &str, _args: &[&str]) -> std::io::Result<()> {
        Ok(())
    }
    fn run_capture(&self, _dest: &str, _args: &[&str]) -> std::io::Result<String> {
        Ok("\n".into())
    }
}

#[test]
fn a_branch_with_no_dispatch_commit_is_declined_loudly() {
    let err = of("/w", "p1", "p1-c", "agents/p1-c", &NoDispatch).unwrap_err();
    assert!(matches!(err, Error::Git { op: "compaction land dispatch commit", .. }), "{err:?}");
}
