use lernie::error::{Error, GitRunner};
use lernie::prompt::dispatch::gate::{already_gated, feedback, id_of, verifier_goal};

struct BranchList(Option<&'static str>);

impl GitRunner for BranchList {
    fn run(&self, _dest: &str, _args: &[&str]) -> std::io::Result<()> {
        unreachable!("already_gated only captures here")
    }
    fn run_capture(&self, _dest: &str, args: &[&str]) -> std::io::Result<String> {
        assert_eq!(args.first(), Some(&"branch"), "unexpected git op: {args:?}");
        self.0.map(str::to_owned).ok_or_else(|| std::io::Error::other("stub git failure"))
    }
}

#[test]
fn already_gated_tags_a_branch_list_failure_with_its_op() {
    let err = already_gated("/nowhere", "p1", "r1", &BranchList(None)).unwrap_err();
    assert!(matches!(err, Error::Git { op: "gate branch list", .. }), "{err:?}");
}

#[test]
fn already_gated_skips_blank_branch_lines() {
    let gated = already_gated("/nowhere", "p1", "r1", &BranchList(Some("\n  \n"))).unwrap();
    assert!(!gated);
}

/// A scripted git: the child listing, the role subject of each, and
/// whether the worker ref is an ancestor.
struct Gate {
    subject: &'static str,
    ancestor: bool,
}

impl GitRunner for Gate {
    fn run(&self, _dest: &str, args: &[&str]) -> std::io::Result<()> {
        assert_eq!(args[0], "merge-base");
        if self.ancestor { Ok(()) } else { Err(std::io::Error::other("not an ancestor")) }
    }
    fn run_capture(&self, _dest: &str, args: &[&str]) -> std::io::Result<String> {
        match args[0] {
            "branch" => Ok("agents/p1-t-v\n".into()),
            "log" => Ok(format!("{}\n", self.subject)),
            other => panic!("unexpected {other}"),
        }
    }
}

#[test]
fn a_verifier_forked_off_the_worker_gates_it() {
    let g = Gate { subject: "dispatch: verifier [p1-t-v]", ancestor: true };
    assert!(already_gated("/w", "p1", "r1", &g).unwrap());
    let not_forked = Gate { subject: "dispatch: verifier [p1-t-v]", ancestor: false };
    assert!(!already_gated("/w", "p1", "r1", &not_forked).unwrap());
    let a_worker = Gate { subject: "dispatch: worker [p1-t-v]", ancestor: true };
    assert!(!already_gated("/w", "p1", "r1", &a_worker).unwrap());
}

#[test]
fn the_verifier_goal_quotes_the_worker() {
    let g = verifier_goal("done it");
    assert!(g.starts_with("You are a verifier"));
    assert!(g.ends_with("Worker's final response:\ndone it\n"), "{g}");
}

#[test]
fn rejection_feedback_is_the_verifiers_response_unless_a_literal_is_named() {
    let resp = Some("REJECT fix the tests".to_owned());
    assert_eq!(feedback(&None, &resp), "REJECT fix the tests");
    assert_eq!(feedback(&Some("verifier.feedback".into()), &resp), "REJECT fix the tests");
    assert_eq!(feedback(&Some("try again".into()), &resp), "try again");
    assert_eq!(feedback(&None, &None), "");
}

#[test]
fn an_agent_id_is_its_branch_less_the_prefix() {
    assert_eq!(id_of("agents/p1-t-v"), "p1-t-v");
    assert_eq!(id_of("p1"), "p1");
}
