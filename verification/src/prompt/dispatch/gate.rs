//! The verifier gate: a worker's result is held until a verifier forked
//! off its terminal ref returns a verdict. Approval drains the held worker
//! result; rejection re-dispatches a worker steered by the verifier's
//! feedback and discards the rejected result. The hold is a disk-derived
//! query over git — a verifier already gates a worker when an
//! `agents/<parent>-*` child is a verifier and has the worker's ref as an
//! ancestor — never a sidecar.

use vstd::prelude::*;
use crate::error::{argv, Error, GitRunner};
use crate::prompt::role::{first_subject, founding_log_args, role_of_subject_spec};
use crate::order::same_chars;
use crate::ui::opt_chars;
use crate::prompt::child_dispatch::{
    child_id_spec, dispatched, req_view, run, ChildDispatchRequest, Clock, IdGen, ReqView, Workspace,
};
use crate::prompt::dispatch::child_result::{action_key, Action, ChildResult, WorkflowEvent, FEEDBACK, VERIFIER_ROLE, WORKER_ROLE};
use crate::text::{append_str, chars_of, has_prefix, kept_lines, lines_of, nonblank_lines, slice, starts_with, string_of, string_views};
use crate::workspace::AGENT_REF_PREFIX;

verus! {

/// The opening of the goal handed to a verifier, before the worker's
/// response.
pub const GOAL_HEAD: &'static str = "You are a verifier judging a worker's completed work \u{2014} its output below and the work products in your tree. Reply with a single leading verdict line: `APPROVE` if the work satisfies the task, or `REJECT` followed by specific, actionable feedback.\n\nWorker's final response:\n";

/// The boilerplate goal handed to a verifier at dispatch: the worker's
/// work is already in the verifier's inherited tree; its response is
/// quoted for convenience.
pub fn verifier_goal(worker_response: &str) -> (g: String)
    ensures
        g@ == GOAL_HEAD@ + worker_response@ + "\n"@,
{
    let mut g = String::new();
    append_str(&mut g, GOAL_HEAD);
    append_str(&mut g, worker_response);
    append_str(&mut g, "\n");
    g
}

/// `merge-base --is-ancestor <ancestor> <descendant>`.
pub open spec fn ancestor_args(ancestor: Seq<char>, descendant: Seq<char>) -> Seq<Seq<char>> {
    seq!["merge-base"@, "--is-ancestor"@, ancestor, descendant]
}

/// `git merge-base --is-ancestor <ancestor> <descendant>`: exit 0 iff
/// `ancestor` is an ancestor of `descendant`. A non-zero exit or a bad ref
/// reads as "not an ancestor", never as an error.
pub fn is_ancestor<G: GitRunner>(worktree: &str, ancestor: &str, descendant: &str, git: &G) -> (b: bool)
    ensures
        b ==> git.succeeds(worktree@, ancestor_args(ancestor@, descendant@)),
        !b ==> git.fails(worktree@, ancestor_args(ancestor@, descendant@)),
{
    let args = ["merge-base", "--is-ancestor", ancestor, descendant];
    assert(argv(args@) =~= ancestor_args(ancestor@, descendant@));
    git.run(worktree, &args).is_ok()
}

/// The branch-list pattern of `parent`'s children: `agents/<parent>-*`.
pub open spec fn children_pattern(parent: Seq<char>) -> Seq<char> {
    AGENT_REF_PREFIX@ + parent + "-*"@
}

/// `agents/<parent>-*`.
pub fn children_pattern_of(parent: &str) -> (r: String)
    ensures
        r@ == children_pattern(parent@),
{
    let mut r = String::new();
    append_str(&mut r, AGENT_REF_PREFIX);
    append_str(&mut r, parent);
    append_str(&mut r, "-*");
    r
}

/// An agent's id from its branch name: `agents/` dropped where present.
pub open spec fn id_of_branch(branch: Seq<char>) -> Seq<char> {
    if has_prefix(branch, AGENT_REF_PREFIX@) {
        branch.skip(AGENT_REF_PREFIX@.len() as int)
    } else {
        branch
    }
}

/// An agent's id from its branch name.
pub fn id_of(branch: &str) -> (r: String)
    ensures
        r@ == id_of_branch(branch@),
{
    let v = chars_of(branch);
    let p = chars_of(AGENT_REF_PREFIX);
    if starts_with(&v, &p) {
        let rest = slice(&v, p.len(), v.len());
        proof {
            assert(rest@ =~= v@.skip(p@.len() as int));
        }
        string_of(&rest)
    } else {
        string_of(&v)
    }
}

/// `branch --list --format=%(refname:short) agents/<parent>-*`.
pub open spec fn children_list_args(parent: Seq<char>) -> Seq<Seq<char>> {
    seq!["branch"@, "--list"@, "--format=%(refname:short)"@, children_pattern(parent)]
}

/// The founding-subject query that derives `branch`'s role.
pub open spec fn role_query(branch: Seq<char>) -> Seq<Seq<char>> {
    founding_log_args("--format=%s"@, branch, id_of_branch(branch))
}

/// The child on `branch` is a verifier forked at or after `worker_ref`:
/// its founding subject names the verifier role and `worker_ref` is its
/// ancestor.
pub open spec fn gates<G: GitRunner>(git: &G, worktree: Seq<char>, worker_ref: Seq<char>, branch: Seq<char>) -> bool {
    exists|out: Seq<char>|
        #[trigger] git.prints(worktree, role_query(branch), out)
            && role_of_subject_spec(first_subject(out), id_of_branch(branch)) == Some(VERIFIER_ROLE@)
            && git.succeeds(worktree, ancestor_args(worker_ref, branch))
}

/// The child on `branch` was found not to gate `worker_ref`: its founding
/// subject names another role or none, or `worker_ref` is not its ancestor.
pub open spec fn passes_over<G: GitRunner>(git: &G, worktree: Seq<char>, worker_ref: Seq<char>, branch: Seq<char>) -> bool {
    exists|out: Seq<char>|
        #[trigger] git.prints(worktree, role_query(branch), out) && (role_of_subject_spec(
            first_subject(out),
            id_of_branch(branch),
        ) != Some(VERIFIER_ROLE@) || git.fails(worktree, ancestor_args(worker_ref, branch)))
}

/// Whether a verifier already gates the worker at `worker_ref`: some
/// `agents/<parent>-*` child (blank listing lines are not branches) that is
/// a verifier and has `worker_ref` as an ancestor.
pub fn already_gated<G: GitRunner>(worktree: &str, parent: &str, worker_ref: &str, git: &G) -> (r: Result<
    bool,
    Error,
>)
    ensures
        r matches Err(e) ==> e matches Error::Git { op, .. } && (op@ == "gate branch list"@ || op@
            == "role founding subject"@),
        r matches Ok(b) ==> exists|out: Seq<char>|
            #[trigger] git.prints(worktree@, children_list_args(parent@), out) && (b ==> exists|j: int|
                0 <= j < kept_lines(lines_of(out)).len() && gates(git, worktree@, worker_ref@, #[trigger] kept_lines(lines_of(out))[j]))
                && (!b ==> forall|j: int|
                0 <= j < kept_lines(lines_of(out)).len() ==> passes_over(git, worktree@, worker_ref@, #[trigger] kept_lines(lines_of(out))[j])),
        r matches Err(e) ==> gating_failed(git, worktree@, parent@, e),
{
    let pattern = children_pattern_of(parent);
    let args = ["branch", "--list", "--format=%(refname:short)", pattern.as_str()];
    assert(argv(args@) =~= children_list_args(parent@));
    let out = match git.run_capture(worktree, &args) {
        Ok(out) => out,
        Err(source) => return Err(Error::Git { op: "gate branch list", source }),
    };
    let branches = nonblank_lines(out.as_str());
    let ghost ks = kept_lines(lines_of(out@));
    assert(ks.len() == branches@.len());
    let verifier = chars_of(VERIFIER_ROLE);
    let mut i: usize = 0;
    while i < branches.len()
        invariant
            i <= branches@.len(),
            verifier@ == VERIFIER_ROLE@,
            string_views(branches@) == ks,
            ks == kept_lines(lines_of(out@)),
            git.prints(worktree@, children_list_args(parent@), out@),
            forall|k: int| 0 <= k < i ==> passes_over(git, worktree@, worker_ref@, #[trigger] ks[k]),
        decreases branches.len() - i,
    {
        let branch = branches[i].as_str();
        assert(branch@ == ks[i as int]);
        let id = id_of(branch);
        let role = match crate::prompt::role::derive(worktree, branch, id.as_str(), git) {
            Ok(role) => role,
            Err(e) => {
                assert(role_query(ks[i as int]) == founding_log_args("--format=%s"@, branch@, id@));
                assert(0 <= i < ks.len() && git.fails(worktree@, role_query(kept_lines(lines_of(out@))[i as int])));
                return Err(e);
            },
        };
        let is_verifier = match &role {
            Some(r) => same_chars(&chars_of(r.as_str()), &verifier),
            None => false,
        };
        assert(is_verifier == (opt_chars(role) == Some(VERIFIER_ROLE@)));
        let ghost q = role_query(branch@);
        assert(q == founding_log_args("--format=%s"@, branch@, id@));
        let ghost sub = choose|o: Seq<char>|
            #[trigger] git.prints(worktree@, q, o) && opt_chars(role) == role_of_subject_spec(first_subject(o), id@);
        if is_verifier && is_ancestor(worktree, worker_ref, branch, git) {
            assert(git.prints(worktree@, role_query(ks[i as int]), sub));
            assert(gates(git, worktree@, worker_ref@, ks[i as int]));
            assert(0 <= i < ks.len() && gates(git, worktree@, worker_ref@, kept_lines(lines_of(out@))[i as int]));
            return Ok(true);
        }
        assert(git.prints(worktree@, role_query(ks[i as int]), sub));
        assert(passes_over(git, worktree@, worker_ref@, ks[i as int]));
        i += 1;
    }
    Ok(false)
}

/// The child at `j` is `v` itself, or its terminal ref was found not to be
/// an ancestor of `v`'s.
pub open spec fn skipped<G: GitRunner>(git: &G, worktree: Seq<char>, results: Seq<ChildResult>, v: ChildResult, j: int) -> bool {
    results[j].child_id@ == v.child_id@ || git.fails(worktree, ancestor_args(results[j].terminal_ref@, v.terminal_ref@))
}

/// What the search for `v`'s gated worker answers: the first child, other
/// than `v`, whose terminal ref was found to be an ancestor of `v`'s, with
/// every earlier one skipped; or none, with every one skipped.
pub open spec fn gated_worker_found<G: GitRunner>(
    git: &G,
    worktree: Seq<char>,
    results: Seq<ChildResult>,
    v: ChildResult,
    r: Option<usize>,
) -> bool {
    match r {
        Some(i) => i < results.len() && results[i as int].child_id@ != v.child_id@ && git.succeeds(
            worktree,
            ancestor_args(results[i as int].terminal_ref@, v.terminal_ref@),
        ) && forall|j: int| 0 <= j < i ==> #[trigger] skipped(git, worktree, results, v, j),
        None => forall|j: int| 0 <= j < results.len() ==> #[trigger] skipped(git, worktree, results, v, j),
    }
}

/// Some `agents/<parent>-*` child, as listed, gates `worker_ref`.
pub open spec fn gated_now<G: GitRunner>(git: &G, worktree: Seq<char>, parent: Seq<char>, worker_ref: Seq<char>) -> bool {
    exists|out: Seq<char>|
        #[trigger] git.prints(worktree, children_list_args(parent), out) && exists|j: int|
            0 <= j < kept_lines(lines_of(out)).len() && gates(git, worktree, worker_ref, #[trigger] kept_lines(lines_of(out))[j])
}

/// The listing of `parent`'s children, or the role query of one it listed,
/// failed with `e`.
pub open spec fn gating_failed<G: GitRunner>(git: &G, worktree: Seq<char>, parent: Seq<char>, e: Error) -> bool {
    e matches Error::Git { op, .. } && ((op@ == "gate branch list"@ && git.fails(worktree, children_list_args(parent))) || (
    op@ == "role founding subject"@ && exists|out: Seq<char>|
        #[trigger] git.prints(worktree, children_list_args(parent), out) && exists|j: int|
            0 <= j < kept_lines(lines_of(out)).len() && git.fails(worktree, role_query(#[trigger] kept_lines(lines_of(out))[j]))))
}

/// The verifier dispatch that opens the hold on `worker`: forked off its
/// terminal ref, its goal quoting the worker's response.
pub open spec fn verifier_req(workspace: Seq<char>, agent_id: Seq<char>, worktree: Seq<char>, worker: ChildResult) -> ReqView {
    (
        workspace,
        agent_id,
        worktree,
        VERIFIER_ROLE@,
        GOAL_HEAD@ + match worker.response {
            Some(t) => t@,
            None => ""@,
        } + "\n"@,
        None,
        Some(worker.terminal_ref@),
    )
}

/// The worker re-dispatch of a rejection: off the parent's tip, steered by
/// the feedback.
pub open spec fn rework_req(workspace: Seq<char>, agent_id: Seq<char>, worktree: Seq<char>, goal: Seq<char>) -> ReqView {
    (workspace, agent_id, worktree, WORKER_ROLE@, goal, None, None)
}

/// Some child of `parent` was launched in `repo`.
pub open spec fn child_launched<W: Workspace>(ws: &W, repo: Seq<char>, parent: Seq<char>) -> bool {
    exists|ts: Seq<char>, short: Seq<char>| #[trigger] ws.launches(repo, child_id_spec(parent, ts, short))
}

/// The worker result this verifier gates, among the still-pending
/// `results`: the first other child whose terminal ref is an ancestor of
/// the verifier's (the verifier forked off it). Ancestry is the link.
pub fn find_gated_worker<G: GitRunner>(
    results: &Vec<ChildResult>,
    verifier_cr: &ChildResult,
    worktree: &str,
    git: &G,
) -> (r: Option<usize>)
    ensures
        r matches Some(i) ==> i < results@.len() && results@[i as int].child_id@ != verifier_cr.child_id@,
        gated_worker_found(git, worktree@, results@, *verifier_cr, r),
{
    let me = chars_of(verifier_cr.child_id.as_str());
    let mut i: usize = 0;
    while i < results.len()
        invariant
            i <= results@.len(),
            me@ == verifier_cr.child_id@,
            forall|j: int| 0 <= j < i ==> #[trigger] skipped(git, worktree@, results@, *verifier_cr, j),
        decreases results.len() - i,
    {
        let other = chars_of(results[i].child_id.as_str());
        if !same_chars(&other, &me) && is_ancestor(
            worktree,
            results[i].terminal_ref.as_str(),
            verifier_cr.terminal_ref.as_str(),
            git,
        ) {
            return Some(i);
        }
        i += 1;
    }
    None
}

/// The steering a rejected worker is re-dispatched with: the verifier's
/// own response when `with` names it (or is absent) — empty if it never
/// spoke — else the literal `with` text.
pub open spec fn feedback_spec(with: Option<Seq<char>>, response: Option<Seq<char>>) -> Seq<char> {
    match with {
        Some(w) => if w == FEEDBACK@ {
            match response {
                Some(r) => r,
                None => Seq::empty(),
            }
        } else {
            w
        },
        None => match response {
            Some(r) => r,
            None => Seq::empty(),
        },
    }
}

/// The goal of a rejection's re-dispatched worker.
pub open spec fn reject_goal(with: Option<String>, verifier_cr: ChildResult) -> Seq<char> {
    feedback_spec(
        match with {
            Some(w) => Some(w@),
            None => None,
        },
        match verifier_cr.response {
            Some(t) => Some(t@),
            None => None,
        },
    )
}

/// The re-dispatched worker's goal on rejection.
pub fn feedback(with: &Option<String>, response: &Option<String>) -> (r: String)
    ensures
        r@ == feedback_spec(
            match *with {
                Some(w) => Some(w@),
                None => None,
            },
            match *response {
                Some(t) => Some(t@),
                None => None,
            },
        ),
{
    let mut r = String::new();
    let literal = match with {
        Some(w) => !same_chars(&chars_of(w.as_str()), &chars_of(FEEDBACK)),
        None => false,
    };
    if literal {
        match with {
            Some(w) => append_str(&mut r, w.as_str()),
            None => {},
        }
    } else {
        match response {
            Some(t) => append_str(&mut r, t.as_str()),
            None => {},
        }
    }
    r
}

/// **A rejection steers with the literal text, or else with the verifier's
/// own words**: a `with` other than the feedback keyword is passed on
/// verbatim whatever the verifier said; an absent `with`, or the keyword,
/// passes on the verifier's response, and nothing where it never spoke.
pub proof fn law_rejection_steering(w: Seq<char>, response: Seq<char>)
    ensures
        w != FEEDBACK@ ==> feedback_spec(Some(w), Some(response)) == w && feedback_spec(Some(w), None) == w,
        feedback_spec(None, Some(response)) == response,
        feedback_spec(Some(FEEDBACK@), Some(response)) == response,
        feedback_spec(None, None) == Seq::<char>::empty(),
        feedback_spec(Some(FEEDBACK@), None) == Seq::<char>::empty(),
{
}

/// What a verdict action does.
#[derive(Debug, PartialEq, Eq)]
pub enum VerdictStep {
    /// Approve: deliver the held worker result, then consume the verdict.
    DeliverWorker,
    /// Reject: re-dispatch a worker with this steering, then discard the
    /// rejected result and the verdict.
    Redispatch { with: Option<String> },
}

/// The executor of a verdict action: approve with `deliver_result` drains
/// the held worker; reject with a worker dispatch re-dispatches; anything
/// else is declined loudly.
pub fn verdict_step(action: &Action, event: WorkflowEvent) -> (r: Result<VerdictStep, Error>)
    ensures
        match r {
            Ok(VerdictStep::DeliverWorker) => event == WorkflowEvent::VerifierApprove && *action == Action::DeliverResult,
            Ok(VerdictStep::Redispatch { with }) => event == WorkflowEvent::VerifierReject && (*action matches Action::Dispatch {
                role,
                with: w,
            } && role@ == WORKER_ROLE@ && w == with),
            Err(e) => (e matches Error::ActionUnsupported { event: ev, .. } && ev@ == crate::prompt::dispatch::child_result::event_key(
                event,
            )) && !(event == WorkflowEvent::VerifierApprove && *action == Action::DeliverResult) && !(event
                == WorkflowEvent::VerifierReject && (*action matches Action::Dispatch { role, .. } && role@ == WORKER_ROLE@)),
        },
{
    match (event, action) {
        (WorkflowEvent::VerifierApprove, Action::DeliverResult) => Ok(VerdictStep::DeliverWorker),
        (WorkflowEvent::VerifierReject, Action::Dispatch { role, with }) => {
            if same_chars(&chars_of(role.as_str()), &chars_of(WORKER_ROLE)) {
                let with = match with {
                    Some(w) => Some(w.clone()),
                    None => None,
                };
                Ok(VerdictStep::Redispatch { with })
            } else {
                Err(Error::ActionUnsupported { action: action_key(action), event: event.as_str() })
            }
        },
        _ => Err(Error::ActionUnsupported { action: action_key(action), event: event.as_str() }),
    }
}

} // verus!

verus! {

/// Open the hold: fork a verifier off the worker's terminal ref, unless one
/// already gates this worker (the idempotent, disk-derived hold). The
/// worker's result stays in the inbox either way.
pub fn dispatch<G: GitRunner, W: Workspace, C: Clock, I: IdGen>(
    workspace: &str,
    agent_id: &str,
    worktree: &str,
    worker: &ChildResult,
    git: &G,
    ws: &W,
    clock: &C,
    id_gen: &I,
) -> (r: Result<(), Error>)
    ensures
        r is Ok ==> gated_now(git, worktree@, agent_id@, worker.terminal_ref@) || child_launched(ws, workspace@, agent_id@),
        r is Ok ==> gated_now(git, worktree@, agent_id@, worker.terminal_ref@) || exists|c: String|
            #[trigger] dispatched(ws, clock, id_gen, verifier_req(workspace@, agent_id@, worktree@, *worker), Ok(c)),
        r matches Err(e) ==> gating_failed(git, worktree@, agent_id@, e) || dispatched(
            ws,
            clock,
            id_gen,
            verifier_req(workspace@, agent_id@, worktree@, *worker),
            Err(e),
        ),
{
    let gated = match already_gated(worktree, agent_id, worker.terminal_ref.as_str(), git) {
        Ok(b) => b,
        Err(e) => return Err(e),
    };
    if gated {
        return Ok(());
    }
    let goal = match &worker.response {
        Some(t) => verifier_goal(t.as_str()),
        None => verifier_goal(""),
    };
    let req = ChildDispatchRequest {
        repo: workspace,
        parent_branch: agent_id,
        parent_worktree: worktree,
        role: VERIFIER_ROLE,
        goal: goal.as_str(),
        name: None,
        fork_point: Some(worker.terminal_ref.as_str()),
    };
    assert(req_view(req) == verifier_req(workspace@, agent_id@, worktree@, *worker));
    let r = run(&req, ws, clock, id_gen);
    assert(dispatched(ws, clock, id_gen, verifier_req(workspace@, agent_id@, worktree@, *worker), r));
    let child = match r {
        Ok(c) => c,
        Err(e) => return Err(e),
    };
    proof {
        let (ts, short) = choose|ts: Seq<char>, short: Seq<char>|
            child@ == #[trigger] child_id_spec(req.parent_branch@, ts, short);
        assert(ws.launches(workspace@, child_id_spec(agent_id@, ts, short)));
    }
    Ok(())
}

/// Reject: re-dispatch a fresh worker off the parent's tip steered by the
/// verifier's feedback. The answer is the position among `results` of the
/// gated worker result, which — with the verdict — is then discarded.
pub fn reject<G: GitRunner, W: Workspace, C: Clock, I: IdGen>(
    workspace: &str,
    agent_id: &str,
    worktree: &str,
    verifier_cr: &ChildResult,
    results: &Vec<ChildResult>,
    with: &Option<String>,
    git: &G,
    ws: &W,
    clock: &C,
    id_gen: &I,
) -> (r: Result<Option<usize>, Error>)
    ensures
        r matches Ok(Some(i)) ==> i < results@.len() && results@[i as int].child_id@ != verifier_cr.child_id@,
        r matches Ok(found) ==> child_launched(ws, workspace@, agent_id@) && gated_worker_found(
            git,
            worktree@,
            results@,
            *verifier_cr,
            found,
        ),
        r is Ok ==> exists|c: String|
            #[trigger] dispatched(ws, clock, id_gen, rework_req(workspace@, agent_id@, worktree@, reject_goal(*with, *verifier_cr)), Ok(c)),
        r matches Err(e) ==> dispatched(
            ws,
            clock,
            id_gen,
            rework_req(workspace@, agent_id@, worktree@, reject_goal(*with, *verifier_cr)),
            Err(e),
        ),
{
    let goal = feedback(with, &verifier_cr.response);
    let req = ChildDispatchRequest {
        repo: workspace,
        parent_branch: agent_id,
        parent_worktree: worktree,
        role: WORKER_ROLE,
        goal: goal.as_str(),
        name: None,
        fork_point: None,
    };
    assert(req_view(req) == rework_req(workspace@, agent_id@, worktree@, reject_goal(*with, *verifier_cr)));
    let r = run(&req, ws, clock, id_gen);
    assert(dispatched(ws, clock, id_gen, rework_req(workspace@, agent_id@, worktree@, reject_goal(*with, *verifier_cr)), r));
    let child = match r {
        Ok(c) => c,
        Err(e) => return Err(e),
    };
    proof {
        let (ts, short) = choose|ts: Seq<char>, short: Seq<char>|
            child@ == #[trigger] child_id_spec(req.parent_branch@, ts, short);
        assert(ws.launches(workspace@, child_id_spec(agent_id@, ts, short)));
    }
    Ok(find_gated_worker(results, verifier_cr, worktree, git))
}

} // verus!
