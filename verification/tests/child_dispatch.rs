use lernie::prompt::exchange::{exchange_start, ExchangeStart};
use lernie::prompt::dispatch::step_loop::Epitaph;
use lernie::error::Error;
use lernie::prompt::budget::{Axis, Budgets};
use lernie::prompt::child_dispatch::{
    child_id, dispatch_subject, gate, procedure_outcome, run, run_procedure, run_with, soul_path, ChildDispatchRequest, Clock,
    IdGen, Workspace,
};
use std::cell::RefCell;

struct Fixed;
impl Clock for Fixed {
    fn now_compact(&self) -> String {
        "t1".into()
    }
}
impl IdGen for Fixed {
    fn short(&self) -> String {
        "c1".into()
    }
}

struct Ws {
    max_depth: Option<u32>,
    acts: RefCell<Vec<String>>,
    missing: Option<&'static str>,
}

impl Workspace for Ws {
    fn governing_config(&self, _repo: &str, _branch: &str) -> std::io::Result<String> {
        Ok("cfg".into())
    }
    fn show_control(&self, _repo: &str, commit: &str, path: &str) -> std::io::Result<String> {
        self.acts.borrow_mut().push(format!("read {commit}:{path}"));
        if self.missing == Some(path) {
            return Err(std::io::Error::other("missing"));
        }
        Ok(String::new())
    }
    fn parse_budgets(&self, _raw: &str) -> Result<Budgets, Error> {
        Ok(Budgets { max_depth: self.max_depth, ..Budgets::default() })
    }
    fn granted_tools(&self, _raw: &str, _role: &str) -> Result<Vec<String>, Error> {
        Ok(vec!["bash".into()])
    }
    fn usage(&self, _repo: &str, _root: &str) -> (u64, u64) {
        (0, 0)
    }
    fn fork(&self, _req: &ChildDispatchRequest, child: &str, _soul: &str, _granted: &Vec<String>, subject: &str) -> Result<(), Error> {
        self.acts.borrow_mut().push(format!("fork {child} {subject}"));
        Ok(())
    }
    fn deposit(&self, _repo: &str, agent: &str, sender: &str, body: &str) -> Result<(), Error> {
        self.acts.borrow_mut().push(format!("deposit {agent} from {sender}: {body}"));
        Ok(())
    }
    fn deposit_result(
        &self,
        _repo: &str,
        _agent: &str,
        _epitaph: Epitaph,
        _terminal_ref: &str,
        _response: Option<&str>,
    ) -> Result<(), Error> {
        Ok(())
    }
    fn probe_and_launch(&self, _repo: &str, agent: &str) -> Result<(), Error> {
        self.acts.borrow_mut().push(format!("launch {agent}"));
        Ok(())
    }
}

fn req<'a>(parent: &'a str) -> ChildDispatchRequest<'a> {
    ChildDispatchRequest {
        repo: "/ws",
        parent_branch: parent,
        parent_worktree: "/ws/agents/p",
        role: "worker",
        goal: "g",
        name: None,
        fork_point: None,
    }
}

#[test]
fn a_child_is_named_by_hyphenated_descent() {
    assert_eq!(child_id("p-a", "t", "s"), "p-a-t-s");
    assert_eq!(soul_path("worker"), "souls/worker.md");
    assert_eq!(dispatch_subject("worker", "p-t-s"), "dispatch: worker [p-t-s]");
}

#[test]
fn a_dispatch_forks_then_deposits_then_launches() {
    let ws = Ws { max_depth: None, acts: RefCell::new(Vec::new()), missing: None };
    let child = run(&req("r0"), &ws, &Fixed, &Fixed).unwrap();
    assert_eq!(child, "r0-t1-c1");
    let acts = ws.acts.borrow();
    assert_eq!(acts[0], "read cfg:workflow.yaml");
    assert_eq!(acts[1], "read cfg:souls/worker.md");
    assert_eq!(acts[2], "read cfg:providers.yaml");
    assert_eq!(acts[3], "fork r0-t1-c1 dispatch: worker [r0-t1-c1]");
    assert_eq!(acts[4], "deposit r0-t1-c1 from r0: g");
    assert_eq!(acts[5], "launch r0-t1-c1");
}

#[test]
fn a_dispatch_past_max_depth_is_refused_before_the_fork() {
    let ws = Ws { max_depth: Some(1), acts: RefCell::new(Vec::new()), missing: None };
    let err = run(&req("r0-t1-c1"), &ws, &Fixed, &Fixed).unwrap_err();
    match err {
        Error::DispatchRefused { child, parent, exhausted } => {
            assert_eq!(child, "r0-t1-c1-t1-c1");
            assert_eq!(parent, "r0-t1-c1");
            assert_eq!(exhausted.axis, Axis::Depth);
            assert_eq!((exhausted.limit, exhausted.actual), (1, 2));
        },
        other => panic!("got {other:?}"),
    }
    assert!(ws.acts.borrow().iter().all(|a| a.starts_with("read")), "{:?}", ws.acts.borrow());
}

#[test]
fn a_harness_dispatch_reports_a_refusal_and_steps_on() {
    let ws = Ws { max_depth: Some(0), acts: RefCell::new(Vec::new()), missing: None };
    let refused = run_procedure(&req("r0"), &ws, &Fixed, &Fixed).unwrap();
    assert_eq!(refused.unwrap().axis, Axis::Depth);
    assert_eq!(procedure_outcome(Ok("x".into())).unwrap(), None);
    let other = procedure_outcome(Err(Error::ActionUnsupported { action: "a".into(), event: "e" }));
    assert!(other.is_err());
}

#[test]
fn the_gate_is_the_budget_check_on_the_childs_name() {
    let b = Budgets { max_total_tokens: Some(10), ..Budgets::default() };
    assert!(gate("r0-t-c", "r0", &b, 9, 0).is_ok());
    assert!(matches!(gate("r0-t-c", "r0", &b, 10, 0), Err(Error::DispatchRefused { .. })));
}

#[test]
fn a_child_is_named_by_the_given_time_and_id() {
    let ws = Ws { max_depth: None, acts: RefCell::new(Vec::new()), missing: None };
    assert_eq!(run_with(&req("r0"), &ws, "ct9", "feedface").unwrap(), "r0-ct9-feedface");
    assert_eq!(ws.acts.borrow()[4], "deposit r0-ct9-feedface from r0: g");
}

#[test]
fn missing_providers_is_surfaced_as_control_read_before_any_spawn() {
    let ws = Ws { max_depth: None, acts: RefCell::new(Vec::new()), missing: Some("providers.yaml") };
    match run(&req("r0"), &ws, &Fixed, &Fixed) {
        Err(Error::ControlRead { path, .. }) => assert_eq!(path, "cfg:providers.yaml"),
        other => panic!("got {other:?}"),
    }
    assert!(ws.acts.borrow().iter().all(|a| a.starts_with("read")), "{:?}", ws.acts.borrow());
}

#[test]
fn a_harness_dispatch_passes_other_errors_through_unchanged() {
    let ws = Ws { max_depth: None, acts: RefCell::new(Vec::new()), missing: Some("workflow.yaml") };
    match run_procedure(&req("r0"), &ws, &Fixed, &Fixed) {
        Err(Error::ControlRead { path, .. }) => assert_eq!(path, "cfg:workflow.yaml"),
        other => panic!("got {other:?}"),
    }
}

#[test]
fn an_exchange_answers_its_minted_id_and_a_held_lock_spawns_nothing() {
    assert_eq!(exchange_start("20260101-000000", "ab12", true), ExchangeStart::Spawn("20260101-000000-ab12".into()));
    assert_eq!(
        exchange_start("20260101-000000", "ab12", false),
        ExchangeStart::AlreadyDriven("20260101-000000-ab12".into())
    );
}
