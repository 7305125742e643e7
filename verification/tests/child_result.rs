use lernie::prompt::dispatch::step_loop::Epitaph;
use lernie::error::{Error, GitRunner};
use lernie::prompt::budget::Budgets;
use lernie::prompt::child_dispatch::{ChildDispatchRequest, Clock, IdGen, Workspace};
use lernie::prompt::compactor::checkpoint::{
    CheckpointState, CompactionConfig, CompactionTrigger, IntermediateCompaction,
};
use lernie::prompt::dispatch::child_result::{
    child_actions, child_step, dispatch_compactor, event_for_role, execute_flush, flush_due,
    interpretation_order, run_flush, split_frontmatter, verdict, Action, ChildResult, ChildStep, WorkflowEvent,
    Workflow,
};
use std::cell::RefCell;

fn workflow(events: Vec<(WorkflowEvent, Vec<Action>)>, compaction: Option<CompactionConfig>) -> Workflow {
    Workflow { events, compaction }
}

fn every_commit() -> Option<CompactionConfig> {
    Some(CompactionConfig {
        intermediate: IntermediateCompaction { trigger: CompactionTrigger::EveryNCommits, n: Some(1), keep_recent: None },
    })
}

fn st(commits: u32) -> CheckpointState {
    CheckpointState { commits_since_checkpoint: commits, seconds_since_checkpoint: 0, flush_requested: false, is_compactor: false }
}

fn result(epitaph: &str, response: Option<&str>) -> ChildResult {
    ChildResult {
        child_id: "p-t-c".into(),
        terminal_ref: "agents/p-t-c".into(),
        epitaph: epitaph.into(),
        response: response.map(str::to_owned),
        path: "/i/p-t-c-001.md".into(),
    }
}

#[test]
fn a_worker_result_delivers_by_default() {
    let acts = child_actions(&workflow(vec![], None), WorkflowEvent::WorkerReturn);
    assert_eq!(acts, vec![Action::DeliverResult]);
    assert_eq!(child_step(&acts[0], WorkflowEvent::WorkerReturn).unwrap(), ChildStep::Deliver);
}

#[test]
fn a_compactor_result_lands_the_compaction_merge_by_default() {
    let acts = child_actions(&workflow(vec![], None), WorkflowEvent::CompactorReturn);
    assert_eq!(acts, vec![Action::CompactionMerge]);
    assert_eq!(child_step(&acts[0], WorkflowEvent::CompactorReturn).unwrap(), ChildStep::Merge);
}

#[test]
fn an_explicit_worker_return_binding_is_honored() {
    let wf = workflow(vec![(WorkflowEvent::WorkerReturn, vec![Action::DeliverResult])], None);
    let acts = child_actions(&wf, WorkflowEvent::WorkerReturn);
    assert_eq!(acts, vec![Action::DeliverResult]);
    assert_eq!(child_step(&acts[0], WorkflowEvent::WorkerReturn).unwrap(), ChildStep::Deliver);
}

#[test]
fn an_unsupported_child_result_action_is_declined_loudly() {
    let wf = workflow(vec![(WorkflowEvent::WorkerReturn, vec![Action::Other("notify_ui".into())])], None);
    let acts = child_actions(&wf, WorkflowEvent::WorkerReturn);
    let err = child_step(&acts[0], WorkflowEvent::WorkerReturn).unwrap_err();
    assert!(matches!(err, Error::ActionUnsupported { event: "worker_return", .. }), "{err:?}");
}

#[test]
fn a_rejecting_verifier_redispatches_a_worker_with_its_feedback_by_default() {
    let acts = child_actions(&workflow(vec![], None), WorkflowEvent::VerifierReject);
    assert_eq!(
        acts,
        vec![Action::Dispatch { role: "worker".into(), with: Some("verifier.feedback".into()) }]
    );
}

#[test]
fn the_verdict_is_a_leading_approve_on_a_final_response() {
    assert_eq!(verdict(&result("final-response", Some("  APPROVE looks right"))), WorkflowEvent::VerifierApprove);
    assert_eq!(verdict(&result("final-response", Some("REJECT no"))), WorkflowEvent::VerifierReject);
    assert_eq!(verdict(&result("stopped", Some("APPROVE"))), WorkflowEvent::VerifierReject);
    assert_eq!(verdict(&result("final-response", None)), WorkflowEvent::VerifierReject);
    let r = result("final-response", Some("APPROVE"));
    assert_eq!(event_for_role(&Some("verifier".into()), &r), WorkflowEvent::VerifierApprove);
    assert_eq!(event_for_role(&Some("compactor".into()), &r), WorkflowEvent::CompactorReturn);
    assert_eq!(event_for_role(&Some("worker".into()), &r), WorkflowEvent::WorkerReturn);
    assert_eq!(event_for_role(&None, &r), WorkflowEvent::WorkerReturn);
}

#[test]
fn frontmatter_splits_the_epitaph_from_the_body() {
    let (e, body) = split_frontmatter("---\nepitaph: final-response\nterminal_ref: abc\n---\nhello\nworld\n");
    assert_eq!(e, "final-response");
    assert_eq!(body.as_deref(), Some("hello\nworld"));
    let (e, body) = split_frontmatter("---\nepitaph: stopped\n---\n   \n");
    assert_eq!(e, "stopped");
    assert_eq!(body, None);
    assert_eq!(split_frontmatter("no fence"), (String::new(), None));
    let (e, body) = split_frontmatter("---\nepitaph: a\nepitaph: b\n");
    assert_eq!((e.as_str(), body), ("b", None));
}

#[test]
fn verdicts_are_interpreted_before_other_results() {
    let events = vec![WorkflowEvent::WorkerReturn, WorkflowEvent::VerifierApprove, WorkflowEvent::CompactorReturn, WorkflowEvent::VerifierReject];
    assert_eq!(interpretation_order(&events), vec![1, 3, 0, 2]);
}

struct Untouched;
impl GitRunner for Untouched {
    fn run(&self, _dest: &str, _args: &[&str]) -> std::io::Result<()> {
        unreachable!("no git on this path")
    }
    fn run_capture(&self, _dest: &str, _args: &[&str]) -> std::io::Result<String> {
        unreachable!("no git on this path")
    }
}

#[test]
fn run_flush_is_a_noop_without_a_compaction_block() {
    let acts = run_flush("/w", "20260101-p7", 0, &workflow(vec![], None), &Untouched).unwrap();
    assert!(acts.is_empty());
}

#[test]
fn run_flush_declines_an_unsupported_flush_action() {
    let wf = workflow(vec![(WorkflowEvent::WorkerFlush, vec![Action::Other("notify_ui".into())])], every_commit());
    let acts = flush_due(&wf, &st(3));
    assert_eq!(acts.len(), 1);
    let err = execute_flush(&acts[0]).unwrap_err();
    assert!(matches!(err, Error::ActionUnsupported { event: "worker_flush", .. }), "{err:?}");
}

struct Fixed;
impl Clock for Fixed {
    fn now_compact(&self) -> String {
        "20260102-000000".into()
    }
}
impl IdGen for Fixed {
    fn short(&self) -> String {
        "abcd".into()
    }
}

#[derive(Default)]
struct Ws {
    launched: RefCell<Vec<String>>,
    subjects: RefCell<Vec<String>>,
    max_depth: Option<u32>,
}

impl Workspace for Ws {
    fn governing_config(&self, _repo: &str, _branch: &str) -> std::io::Result<String> {
        Ok("cfg1".into())
    }
    fn show_control(&self, _repo: &str, _commit: &str, path: &str) -> std::io::Result<String> {
        Ok(format!("contents of {path}"))
    }
    fn parse_budgets(&self, _raw: &str) -> Result<Budgets, Error> {
        Ok(Budgets { max_depth: self.max_depth, ..Budgets::default() })
    }
    fn granted_tools(&self, _raw: &str, _role: &str) -> Result<Vec<String>, Error> {
        Ok(vec![])
    }
    fn usage(&self, _repo: &str, _root: &str) -> (u64, u64) {
        (0, 0)
    }
    fn fork(&self, _req: &ChildDispatchRequest, _child: &str, _soul: &str, _granted: &Vec<String>, subject: &str) -> Result<(), Error> {
        self.subjects.borrow_mut().push(subject.to_owned());
        Ok(())
    }
    fn deposit(&self, _repo: &str, _agent: &str, _sender: &str, _body: &str) -> Result<(), Error> {
        Ok(())
    }
    fn deposit_result(
        &self,
        _repo: &str,
        _agent: &str,
        _epitaph: Epitaph,
        _terminal_ref: &str,
        _response: Option<&str>,
    ) -> Result<(), Error> {
        Ok(())
    }
    fn probe_and_launch(&self, _repo: &str, agent: &str) -> Result<(), Error> {
        self.launched.borrow_mut().push(agent.to_owned());
        Ok(())
    }
}

#[test]
fn run_flush_dispatches_a_compactor_when_the_checkpoint_is_due() {
    let parent = "20260101-p6";
    let wf = workflow(vec![], every_commit());
    let acts = flush_due(&wf, &st(1));
    assert_eq!(acts.len(), 1);
    execute_flush(&acts[0]).unwrap();
    let ws = Ws::default();
    assert_eq!(dispatch_compactor("/ws", parent, "/ws/agents/p6", &ws, &Fixed, &Fixed).unwrap(), None);
    let launched = ws.launched.borrow();
    assert_eq!(launched.len(), 1);
    assert!(launched[0].starts_with(&format!("{parent}-")), "{launched:?}");
    assert_eq!(ws.subjects.borrow()[0], format!("dispatch: compactor [{}]", launched[0]));
}

#[test]
fn a_clock_that_is_not_due_flushes_nothing() {
    let wf = workflow(vec![], every_commit());
    assert!(flush_due(&wf, &st(0)).is_empty());
}
