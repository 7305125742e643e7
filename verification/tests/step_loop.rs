use lernie::error::{Error, GitRunner};
use lernie::prompt::dispatch::advance::{successor_lease, on_warrant, outcome_after_step, AdvanceOutcome, OnWarrant, StepOutcome};
use lernie::prompt::dispatch::driver::{drive, outcome_of, rematerialize, DriveOutcome, DrivePlan};
use lernie::prompt::dispatch::step_commit::{commit_dispatch, prepend_goal, read_branch_tip, spawn_branch};
use lernie::prompt::dispatch::step_loop::{
    deposit_terminal, epitaph_of, has_tool_use, launches, next, terminal_text, warrant, Turn, Act, Block, Epitaph, Found, Phase, Speaker,
    Warrant,
};
use lernie::prompt::exchange::{commit_response, commit_snapshot};
use std::cell::RefCell;

#[test]
fn a_stop_wins_at_the_boundary_then_exhaustion() {
    assert_eq!(
        next(Phase::Boundary, Found::Boundary { stopped: true, exhausted: true }),
        (Phase::Boundary, Act::Finish(Epitaph::Stopped))
    );
    assert_eq!(
        next(Phase::Boundary, Found::Boundary { stopped: false, exhausted: true }),
        (Phase::Boundary, Act::Finish(Epitaph::BudgetExhausted))
    );
    assert_eq!(
        next(Phase::Boundary, Found::Boundary { stopped: false, exhausted: false }),
        (Phase::Calling, Act::CallModel)
    );
}

#[test]
fn a_step_loops_on_tool_use_and_ends_without_it() {
    assert_eq!(next(Phase::Calling, Found::CallReturned { stopped: false }), (Phase::Responding, Act::CommitResponse));
    assert_eq!(next(Phase::Calling, Found::CallReturned { stopped: true }), (Phase::Calling, Act::Finish(Epitaph::Stopped)));
    assert_eq!(next(Phase::Responding, Found::Responded { tool_use: true }), (Phase::Tools, Act::RunTools));
    assert_eq!(
        next(Phase::Responding, Found::Responded { tool_use: false }),
        (Phase::Responding, Act::Finish(Epitaph::FinalResponse))
    );
    assert_eq!(next(Phase::Tools, Found::ToolsRan { stopped: false }), (Phase::Boundary, Act::NextStep));
    assert_eq!(next(Phase::Tools, Found::ToolsRan { stopped: true }), (Phase::Tools, Act::Finish(Epitaph::Stopped)));
    assert_eq!(next(Phase::Tools, Found::CallReturned { stopped: true }), (Phase::Tools, Act::Ignore));
}

#[test]
fn only_a_final_response_launches_a_driver() {
    assert_eq!(epitaph_of(true, true), Epitaph::Stopped);
    assert_eq!(epitaph_of(false, true), Epitaph::BudgetExhausted);
    assert_eq!(epitaph_of(false, false), Epitaph::FinalResponse);
    assert!(launches(Epitaph::FinalResponse));
    assert!(!launches(Epitaph::Stopped));
    assert!(!launches(Epitaph::BudgetExhausted));
    assert_eq!(Epitaph::BudgetExhausted.as_str(), "budget-exhausted");
}

#[test]
fn terminal_text_joins_text_blocks_and_skips_non_text() {
    let blocks = vec![Block::Text("hello ".into()), Block::Other, Block::ToolUse, Block::Text("world".into())];
    assert_eq!(terminal_text(&blocks).as_deref(), Some("hello world"));
    assert!(has_tool_use(&blocks));
}

#[test]
fn terminal_text_is_none_when_agent_did_not_speak() {
    assert_eq!(terminal_text(&vec![Block::ToolUse]), None);
    assert_eq!(terminal_text(&vec![]), None);
    assert!(!has_tool_use(&vec![Block::Text("x".into())]));
}

fn turn(speaker: Speaker, uses: &[&str], answers: &[&str]) -> Turn {
    Turn {
        speaker,
        uses: uses.iter().map(|s| s.to_string()).collect(),
        answers: answers.iter().map(|s| s.to_string()).collect(),
    }
}

#[test]
fn empty_history_warrants_nothing() {
    assert_eq!(warrant(&vec![]), Warrant::NothingDue);
}

#[test]
fn user_side_tail_means_a_model_call_is_due() {
    let h = vec![turn(Speaker::User, &[], &[]), turn(Speaker::Assistant, &[], &[]), turn(Speaker::User, &[], &[])];
    assert_eq!(warrant(&h), Warrant::ModelCallDue);
    assert_eq!(warrant(&vec![turn(Speaker::Tool, &[], &[])]), Warrant::ModelCallDue);
}

#[test]
fn assistant_tail_without_tool_use_warrants_nothing() {
    let h = vec![turn(Speaker::User, &[], &[]), turn(Speaker::Assistant, &[], &[])];
    assert_eq!(warrant(&h), Warrant::NothingDue);
}

#[test]
fn assistant_tail_with_unmatched_tool_use_is_the_non_replayable_state() {
    let h = vec![turn(Speaker::User, &[], &[]), turn(Speaker::Assistant, &["t1"], &[])];
    assert_eq!(warrant(&h), Warrant::Unpaired);
    assert_eq!(on_warrant(Warrant::Unpaired), OnWarrant::Unpaired);
}

#[test]
fn delivered_mail_behind_an_unpaired_window_does_not_mask_the_decline() {
    let h = vec![turn(Speaker::Assistant, &["t1"], &[]), turn(Speaker::User, &[], &[])];
    assert_eq!(warrant(&h), Warrant::Unpaired);
}

#[test]
fn a_paired_window_mid_history_is_no_unpaired_state() {
    let h = vec![
        turn(Speaker::Assistant, &["t1"], &[]),
        turn(Speaker::Tool, &[], &["t1"]),
        turn(Speaker::User, &[], &[]),
    ];
    assert_eq!(warrant(&h), Warrant::ModelCallDue);
}

#[test]
fn an_answer_before_the_call_does_not_pair_it() {
    let h = vec![turn(Speaker::Tool, &[], &["t1"]), turn(Speaker::Assistant, &["t1"], &[]), turn(Speaker::User, &[], &[])];
    assert_eq!(warrant(&h), Warrant::Unpaired);
}

#[test]
fn only_ran_tools_hands_the_lease_on() {
    assert!(matches!(outcome_after_step(StepOutcome::ToolsRan, 7u8), AdvanceOutcome::ToolsPending(7)));
    assert!(matches!(outcome_after_step(StepOutcome::Held, 7u8), AdvanceOutcome::Held));
    assert!(matches!(outcome_after_step(StepOutcome::Terminal(Epitaph::Stopped), 7u8), AdvanceOutcome::Terminal));
}

#[test]
fn a_driver_without_the_lock_or_mail_does_nothing() {
    assert_eq!(drive(false, 3, false), DrivePlan::Exit(DriveOutcome::AlreadyDriven));
    assert_eq!(drive(true, 0, false), DrivePlan::Exit(DriveOutcome::NothingToDeliver));
    let plan = drive(true, 2, false);
    assert_eq!(plan, DrivePlan::Deliver { pending: 2, rematerialize: true });
    assert_eq!(outcome_of(&plan, 1), DriveOutcome::Delivered(1));
    assert_eq!(outcome_of(&DrivePlan::Exit(DriveOutcome::NothingToDeliver), 5), DriveOutcome::NothingToDeliver);
    assert_eq!(drive(true, 2, true), DrivePlan::Deliver { pending: 2, rematerialize: false });
}

struct Rec {
    calls: RefCell<Vec<(String, Vec<String>)>>,
    fail_at: usize,
}
impl Rec {
    fn new(fail_at: usize) -> Rec {
        Rec { calls: RefCell::new(Vec::new()), fail_at }
    }
}
impl GitRunner for Rec {
    fn run(&self, dest: &str, args: &[&str]) -> std::io::Result<()> {
        let i = self.calls.borrow().len();
        self.calls.borrow_mut().push((dest.to_owned(), args.iter().map(|s| s.to_string()).collect()));
        if i == self.fail_at { Err(std::io::Error::other("stub")) } else { Ok(()) }
    }
    fn run_capture(&self, _dest: &str, _args: &[&str]) -> std::io::Result<String> {
        Ok("abc123\n".into())
    }
}

#[test]
fn prepend_goal_frames_the_goal_at_the_head() {
    assert_eq!(prepend_goal("do x", "soul"), "<goal>\ndo x\n</goal>\n\nsoul");
}

#[test]
fn the_dispatch_commit_removes_control_then_adds_then_commits() {
    let g = Rec::new(usize::MAX);
    let control = vec!["workflow.yaml".to_owned(), "souls".to_owned()];
    commit_dispatch("/wt", "c1", &control, &g).unwrap();
    let calls = g.calls.borrow();
    assert_eq!(calls[0].1, vec!["rm", "-r", "-q", "--ignore-unmatch", "--", "workflow.yaml", "souls"]);
    assert_eq!(calls[1].1, vec!["add", "goal.md", "soul.md"]);
    assert_eq!(calls[2].1, vec!["commit", "-m", "step 001: dispatch [c1]"]);
    let err = commit_dispatch("/wt", "c1", &control, &Rec::new(1)).unwrap_err();
    assert!(matches!(err, Error::Git { op: "add", .. }));
}

#[test]
fn a_root_forks_off_the_default_config() {
    let g = Rec::new(usize::MAX);
    spawn_branch("/ws", "/ws/agents/c1", "c1", &g).unwrap();
    let calls = g.calls.borrow();
    assert_eq!(calls[0].0, "/ws/repo.git");
    assert_eq!(calls[0].1, vec!["worktree", "add", "-b", "agents/c1", "/ws/agents/c1", "config/default"]);
    assert_eq!(read_branch_tip("/wt", &g).unwrap(), "abc123\n");
}

#[test]
fn rematerialize_adds_the_worktree_in_the_primary() {
    let g = Rec::new(usize::MAX);
    rematerialize("/ws", "a1", "/ws/a1", &g).unwrap();
    assert_eq!(g.calls.borrow()[0], ("/ws/root".to_owned(), vec!["worktree".into(), "add".into(), "/ws/a1".into(), "a1".into()]));
    let err = rematerialize("/ws", "a1", "/ws/a1", &Rec::new(0)).unwrap_err();
    assert!(matches!(err, Error::Git { op: "worktree add (rematerialize)", .. }));
}

#[test]
fn snapshot_and_response_commits_name_the_step() {
    let g = Rec::new(usize::MAX);
    commit_snapshot("/wt", "steps/c1/001", "c1", &g).unwrap();
    commit_response("/wt", "steps/c1/001", "c1", &g).unwrap();
    let calls = g.calls.borrow();
    assert_eq!(calls[0].1, vec!["add", "goal.md", "soul.md", "steps/c1/001/request.json"]);
    assert_eq!(calls[1].1, vec!["commit", "-m", "step 001: dispatch [c1]"]);
    assert_eq!(calls[2].1, vec!["add", "steps/c1/001/response.json"]);
    assert_eq!(calls[3].1, vec!["commit", "-m", "step 001: response [c1]"]);
}

#[test]
fn only_pending_tools_hand_off_to_a_successor() {
    assert_eq!(successor_lease(AdvanceOutcome::ToolsPending(3u8)), Some(3));
    assert_eq!(successor_lease(AdvanceOutcome::<u8>::Held), None);
    assert_eq!(successor_lease(AdvanceOutcome::<u8>::AlreadyDriven), None);
}

struct Deposits(RefCell<Vec<String>>);
impl lernie::prompt::child_dispatch::Workspace for Deposits {
    fn governing_config(&self, _repo: &str, _branch: &str) -> std::io::Result<String> {
        unreachable!()
    }
    fn show_control(&self, _repo: &str, _commit: &str, _path: &str) -> std::io::Result<String> {
        unreachable!()
    }
    fn parse_budgets(&self, _raw: &str) -> Result<lernie::prompt::budget::Budgets, Error> {
        unreachable!()
    }
    fn granted_tools(&self, _raw: &str, _role: &str) -> Result<Vec<String>, Error> {
        unreachable!()
    }
    fn usage(&self, _repo: &str, _root: &str) -> (u64, u64) {
        unreachable!()
    }
    fn fork(
        &self,
        _req: &lernie::prompt::child_dispatch::ChildDispatchRequest,
        _child: &str,
        _soul: &str,
        _granted: &Vec<String>,
        _subject: &str,
    ) -> Result<(), Error> {
        unreachable!()
    }
    fn deposit(&self, _repo: &str, _agent: &str, _sender: &str, _body: &str) -> Result<(), Error> {
        unreachable!()
    }
    fn probe_and_launch(&self, _repo: &str, _agent: &str) -> Result<(), Error> {
        unreachable!()
    }
    fn deposit_result(
        &self,
        _repo: &str,
        agent: &str,
        epitaph: Epitaph,
        terminal_ref: &str,
        response: Option<&str>,
    ) -> Result<(), Error> {
        self.0.borrow_mut().push(format!("{agent} {} {} {:?}", epitaph.as_str(), terminal_ref.trim(), response));
        Ok(())
    }
}

#[test]
fn the_terminal_deposit_carries_the_tip_as_its_ref() {
    let ws = Deposits(RefCell::new(Vec::new()));
    deposit_terminal("/ws", "p-t-c", "/wt", Epitaph::FinalResponse, Some("done"), &Rec::new(usize::MAX), &ws).unwrap();
    assert_eq!(ws.0.borrow()[0], "p-t-c final-response abc123 Some(\"done\")");
}
