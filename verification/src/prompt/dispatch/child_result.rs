//! The delivered-child-result and checkpoint-flush seams of the binding
//! interpreter.
//!
//! - **A delivered child result**: a result message the drain left in the
//!   inbox. Its lifecycle event is named by the returning child's role,
//!   derived from its dispatch commit subject: `compactor` →
//!   `compactor_return`; `verifier` → the approve/reject verdict split;
//!   anything else → `worker_return`. Verifier verdicts are interpreted
//!   before worker and compactor results, so an approving verifier drains
//!   the held worker result first.
//! - **A checkpoint flush**: a due `compaction:` clock at a step boundary
//!   runs `worker_flush` → `dispatch(compactor)`.
//!
//! Each event's bound actions (or its baseline default when unbound) are
//! decided here; an action with no executor at this seam is declined
//! loudly, never silently no-oped.

use vstd::prelude::*;
use crate::error::{Error, GitRunner};
use crate::order::same_chars;
use crate::prompt::compactor::checkpoint::{due, due_spec, state, state_failed_at, state_read, CheckpointState, CompactionConfig};
use crate::prompt::compactor::{compactor_goal, COMPACTOR_ROLE};
use crate::prompt::budget::Exhausted;
use crate::prompt::child_dispatch::{
    child_id_spec, dispatch_result, dispatched, procedure_spec, refused_at, req_view, run_procedure, ChildDispatchRequest, Clock, IdGen,
    ReqView, Workspace,
};
use crate::prompt::dispatch::step_loop::{epitaph_word, Epitaph};
use crate::text::{append_str, blank, chars_of, has_prefix, lines, lines_of, slice, starts_with, string_of, trim, trim_chars, trim_start, views};

verus! {

/// Role name of a verifier child.
pub const VERIFIER_ROLE: &'static str = "verifier";
/// Role name of an ordinary child.
pub const WORKER_ROLE: &'static str = "worker";
/// The `with:` token naming the verifier's own response as the steering of
/// a re-dispatched worker on rejection.
pub const FEEDBACK: &'static str = "verifier.feedback";
/// The line that opens and closes a result message's frontmatter.
pub const FENCE: &'static str = "---";
/// The frontmatter key of a result message's epitaph.
pub const EPITAPH_KEY: &'static str = "epitaph:";
/// The verdict word an approving verifier's response leads with.
pub const APPROVE: &'static str = "APPROVE";

/// A lifecycle event a workflow binds actions to.
#[derive(Debug, Clone, Copy, PartialEq, Eq, Structural)]
pub enum WorkflowEvent {
    WorkerReturn,
    CompactorReturn,
    VerifierApprove,
    VerifierReject,
    WorkerFlush,
}

/// The event's `workflow.yaml` key.
pub open spec fn event_key(e: WorkflowEvent) -> Seq<char> {
    match e {
        WorkflowEvent::WorkerReturn => "worker_return"@,
        WorkflowEvent::CompactorReturn => "compactor_return"@,
        WorkflowEvent::VerifierApprove => "verifier_approve"@,
        WorkflowEvent::VerifierReject => "verifier_reject"@,
        WorkflowEvent::WorkerFlush => "worker_flush"@,
    }
}

impl WorkflowEvent {
    /// The event's `workflow.yaml` key.
    pub fn as_str(&self) -> (r: &'static str)
        ensures
            r@ == event_key(*self),
    {
        match self {
            WorkflowEvent::WorkerReturn => "worker_return",
            WorkflowEvent::CompactorReturn => "compactor_return",
            WorkflowEvent::VerifierApprove => "verifier_approve",
            WorkflowEvent::VerifierReject => "verifier_reject",
            WorkflowEvent::WorkerFlush => "worker_flush",
        }
    }
}

/// An action a workflow binds to an event.
#[derive(Debug, PartialEq, Eq)]
pub enum Action {
    /// Apply the child's work-product transfer and deliver its result.
    DeliverResult,
    /// Land the returning compactor's pass.
    CompactionMerge,
    /// Dispatch a child of `role`, steered `with` a named input.
    Dispatch { role: String, with: Option<String> },
    /// Hold the result in the inbox until a gate opens.
    GateReturnOn,
    /// An action with no executor at the child-result seams, by its key.
    Other(String),
}

/// Whether `a` dispatches a child of `role` steered by `with`.
pub open spec fn dispatches(a: Action, role: Seq<char>, with: Option<Seq<char>>) -> bool {
    match a {
        Action::Dispatch { role: r, with: w } => r@ == role && match (w, with) {
            (Some(x), Some(y)) => x@ == y,
            (None, None) => true,
            _ => false,
        },
        _ => false,
    }
}

/// A fresh copy of an optional string.
fn copy_opt(s: &Option<String>) -> (r: Option<String>)
    ensures
        r == *s,
{
    match s {
        Some(s) => Some(s.clone()),
        None => None,
    }
}

/// A fresh copy of an action.
pub fn copy_action(a: &Action) -> (r: Action)
    ensures
        r == *a,
{
    match a {
        Action::DeliverResult => Action::DeliverResult,
        Action::CompactionMerge => Action::CompactionMerge,
        Action::Dispatch { role, with } => Action::Dispatch { role: role.clone(), with: copy_opt(with) },
        Action::GateReturnOn => Action::GateReturnOn,
        Action::Other(k) => Action::Other(k.clone()),
    }
}

/// A fresh copy of a list of actions.
fn copy_actions(v: &Vec<Action>) -> (r: Vec<Action>)
    ensures
        r@ == v@,
{
    let mut r: Vec<Action> = Vec::new();
    let mut i: usize = 0;
    while i < v.len()
        invariant
            i <= v@.len(),
            r@ == v@.take(i as int),
        decreases v.len() - i,
    {
        r.push(copy_action(&v[i]));
        proof {
            assert(v@.take(i + 1) =~= v@.take(i as int).push(v@[i as int]));
        }
        i += 1;
    }
    proof {
        assert(v@.take(v@.len() as int) =~= v@);
    }
    r
}

/// The event bindings and the `compaction:` block of a workflow.
#[derive(Debug)]
pub struct Workflow {
    /// Each bound event with its actions, in declaration order.
    pub events: Vec<(WorkflowEvent, Vec<Action>)>,
    /// The checkpoint compaction declaration, if any.
    pub compaction: Option<CompactionConfig>,
}

/// The actions bound to `e` in `events`: the first binding's, or none.
pub open spec fn bound(events: Seq<(WorkflowEvent, Vec<Action>)>, e: WorkflowEvent) -> Seq<Action>
    decreases events.len(),
{
    if events.len() == 0 {
        Seq::empty()
    } else if events[0].0 == e {
        events[0].1@
    } else {
        bound(events.drop_first(), e)
    }
}

impl Workflow {
    /// The actions bound to `event`, empty when it is unbound.
    pub fn actions_for(&self, event: WorkflowEvent) -> (r: Vec<Action>)
        ensures
            r@ == bound(self.events@, event),
    {
        let mut i: usize = 0;
        proof {
            assert(self.events@.skip(0) =~= self.events@);
        }
        while i < self.events.len()
            invariant
                i <= self.events@.len(),
                bound(self.events@, event) == bound(self.events@.skip(i as int), event),
            decreases self.events.len() - i,
        {
            proof {
                assert(self.events@.skip(i as int).drop_first() =~= self.events@.skip(i + 1));
            }
            if self.events[i].0 == event {
                return copy_actions(&self.events[i].1);
            }
            i += 1;
        }
        Vec::new()
    }
}

/// The actions a child-result `event` runs: its bound ones, or its
/// baseline default when unbound.
pub fn child_actions(workflow: &Workflow, event: WorkflowEvent) -> (r: Vec<Action>)
    ensures
        bound(workflow.events@, event).len() > 0 ==> r@ == bound(workflow.events@, event),
        bound(workflow.events@, event).len() == 0 ==> match event {
            WorkflowEvent::CompactorReturn => r@ == seq![Action::CompactionMerge],
            WorkflowEvent::VerifierReject => r@.len() == 1 && dispatches(r@[0], WORKER_ROLE@, Some(FEEDBACK@)),
            _ => r@ == seq![Action::DeliverResult],
        },
{
    let b = workflow.actions_for(event);
    if b.len() > 0 {
        return b;
    }
    let mut r: Vec<Action> = Vec::new();
    match event {
        WorkflowEvent::CompactorReturn => r.push(Action::CompactionMerge),
        WorkflowEvent::VerifierReject => {
            let mut role = String::new();
            append_str(&mut role, WORKER_ROLE);
            let mut with = String::new();
            append_str(&mut with, FEEDBACK);
            r.push(Action::Dispatch { role, with: Some(with) });
        },
        _ => r.push(Action::DeliverResult),
    }
    proof {
        assert(r@.len() == 1);
    }
    r
}

/// The `worker_flush` actions: its bound ones, or the baseline default when
/// unbound — dispatch a compactor.
pub fn flush_actions(workflow: &Workflow) -> (r: Vec<Action>)
    ensures
        bound(workflow.events@, WorkflowEvent::WorkerFlush).len() > 0 ==> r@ == bound(workflow.events@, WorkflowEvent::WorkerFlush),
        bound(workflow.events@, WorkflowEvent::WorkerFlush).len() == 0 ==> r@.len() == 1 && dispatches(
            r@[0],
            COMPACTOR_ROLE@,
            None,
        ),
{
    let b = workflow.actions_for(WorkflowEvent::WorkerFlush);
    if b.len() > 0 {
        return b;
    }
    let mut role = String::new();
    append_str(&mut role, COMPACTOR_ROLE);
    let mut r: Vec<Action> = Vec::new();
    r.push(Action::Dispatch { role, with: None });
    r
}

/// The key an action is reported under when it is declined.
pub fn action_key(a: &Action) -> (r: String)
    ensures
        r@ == match *a {
            Action::DeliverResult => "deliver_result"@,
            Action::CompactionMerge => "compaction_merge"@,
            Action::Dispatch { role, .. } => "dispatch("@ + role@ + ")"@,
            Action::GateReturnOn => "gate_return_on"@,
            Action::Other(k) => k@,
        },
{
    let mut r = String::new();
    match a {
        Action::DeliverResult => append_str(&mut r, "deliver_result"),
        Action::CompactionMerge => append_str(&mut r, "compaction_merge"),
        Action::Dispatch { role, .. } => {
            append_str(&mut r, "dispatch(");
            append_str(&mut r, role.as_str());
            append_str(&mut r, ")");
        },
        Action::GateReturnOn => append_str(&mut r, "gate_return_on"),
        Action::Other(k) => append_str(&mut r, k.as_str()),
    }
    r
}

/// A pending result message awaiting interpretation: the returning
/// child's id, its terminal ref, its epitaph, the terminal response iff
/// the child spoke, and where the inbox file is.
#[derive(Debug)]
pub struct ChildResult {
    pub child_id: String,
    pub terminal_ref: String,
    pub epitaph: String,
    pub response: Option<String>,
    pub path: String,
}

/// The first fence at or after line `k`, or the number of lines when the
/// frontmatter never closes.
pub open spec fn closing_fence(ls: Seq<Seq<char>>, k: int) -> int
    decreases ls.len() - k,
{
    if k >= ls.len() {
        ls.len() as int
    } else if ls[k] == FENCE@ {
        k
    } else {
        closing_fence(ls, k + 1)
    }
}

/// The value of the last `epitaph:` line among lines `[1, to)`, trimmed;
/// empty when there is none.
pub open spec fn epitaph_value(ls: Seq<Seq<char>>, to: int) -> Seq<char>
    decreases to,
{
    if to <= 1 {
        Seq::empty()
    } else if has_prefix(ls[to - 1], EPITAPH_KEY@) {
        trim(ls[to - 1].skip(8))
    } else {
        epitaph_value(ls, to - 1)
    }
}

/// Lines joined by `\n`.
pub open spec fn joined(ls: Seq<Seq<char>>) -> Seq<char>
    decreases ls.len(),
{
    if ls.len() == 0 {
        Seq::empty()
    } else if ls.len() == 1 {
        ls[0]
    } else {
        joined(ls.drop_last()) + "\n"@ + ls.last()
    }
}

/// A result message split into its `epitaph` frontmatter value and its
/// body: nothing of either unless the first line is a fence; the epitaph
/// is the last `epitaph:` line before the closing fence; the body is what
/// follows that fence, present only when it is not blank.
pub open spec fn frontmatter_spec(body: Seq<char>) -> (Seq<char>, Option<Seq<char>>) {
    let ls = lines_of(body);
    if ls.len() == 0 || ls[0] != FENCE@ {
        (Seq::empty(), None)
    } else {
        let e = closing_fence(ls, 1);
        let rest = if e < ls.len() {
            joined(ls.skip(e + 1))
        } else {
            Seq::empty()
        };
        (epitaph_value(ls, e), if blank(rest) {
            None
        } else {
            Some(rest)
        })
    }
}

/// Split a result message into its `epitaph` frontmatter value and its
/// body (the terminal response, `None` when the child never spoke).
pub fn split_frontmatter(body: &str) -> (r: (String, Option<String>))
    ensures
        r.0@ == frontmatter_spec(body@).0,
        match r.1 {
            Some(t) => frontmatter_spec(body@).1 == Some(t@),
            None => frontmatter_spec(body@).1 is None,
        },
{
    proof {
        reveal_strlit("---");
        reveal_strlit("epitaph:");
        reveal_strlit("\n");
    }
    let ls = lines(&chars_of(body));
    let ghost all = views(ls@);
    let fence = chars_of(FENCE);
    if ls.len() == 0 || !same_chars(&ls[0], &fence) {
        return (String::new(), None);
    }
    let key = chars_of(EPITAPH_KEY);
    let mut epitaph: Vec<char> = Vec::new();
    let mut i: usize = 1;
    while i < ls.len() && !same_chars(&ls[i], &fence)
        invariant
            1 <= i <= ls@.len(),
            all == views(ls@),
            all == lines_of(body@),
            fence@ == FENCE@,
            key@ == EPITAPH_KEY@,
            closing_fence(all, 1) == closing_fence(all, i as int),
            epitaph@ == epitaph_value(all, i as int),
        decreases ls.len() - i,
    {
        proof {
            assert(all[i as int] == ls@[i as int]@);
        }
        if starts_with(&ls[i], &key) {
            proof {
                reveal_strlit("epitaph:");
                assert(key@.len() == 8);
            }
            let v = slice(&ls[i], 8, ls[i].len());
            epitaph = trim_chars(&v);
            proof {
                assert(v@ =~= all[i as int].skip(8));
            }
        }
        i += 1;
    }
    proof {
        if i < ls.len() {
            assert(all[i as int] == FENCE@);
        }
        assert(closing_fence(all, i as int) == i);
    }
    let mut rest: Vec<char> = Vec::new();
    if i < ls.len() {
        let mut j: usize = i + 1;
        let ghost tail = all.skip(i + 1);
        while j < ls.len()
            invariant
                i + 1 <= j <= ls@.len(),
                all == views(ls@),
                tail == all.skip(i + 1),
                rest@ == joined(tail.take(j - i - 1)),
            decreases ls.len() - j,
        {
            let ghost before = tail.take(j - i - 1);
            proof {
                reveal_strlit("\n");
                assert(tail.take(j - i).drop_last() =~= before);
                assert(tail.take(j - i).last() == ls@[j as int]@);
            }
            if j > i + 1 {
                rest.push('\n');
            }
            append_vec(&mut rest, &ls[j]);
            proof {
                if j == i + 1 {
                    assert(before.len() == 0);
                    assert(rest@ =~= ls@[j as int]@);
                } else {
                    assert(rest@ =~= joined(before) + "\n"@ + ls@[j as int]@);
                }
            }
            j += 1;
        }
        proof {
            assert(tail.take(j - i - 1) =~= tail);
        }
    }
    let e = string_of(&epitaph);
    if is_blank_chars(&rest) {
        (e, None)
    } else {
        (e, Some(string_of(&rest)))
    }
}

/// Append the characters of `v` to `out`.
fn append_vec(out: &mut Vec<char>, v: &Vec<char>)
    ensures
        final(out)@ == old(out)@ + v@,
{
    let mut k: usize = 0;
    while k < v.len()
        invariant
            k <= v@.len(),
            out@ == old(out)@ + v@.take(k as int),
        decreases v.len() - k,
    {
        out.push(v[k]);
        proof {
            assert(old(out)@ + v@.take(k + 1) =~= (old(out)@ + v@.take(k as int)).push(v@[k as int]));
        }
        k += 1;
    }
    proof {
        assert(v@.take(v@.len() as int) =~= v@);
    }
}

/// Whether every character of `v` is whitespace.
fn is_blank_chars(v: &Vec<char>) -> (b: bool)
    ensures
        b == blank(v@),
{
    let t = trim_chars(v);
    proof {
        crate::text::lemma_trim_empty_iff_blank(v@);
    }
    t.len() == 0
}

/// Whether `s` leads with `APPROVE` once leading whitespace is dropped.
pub open spec fn approves(s: Seq<char>) -> bool {
    has_prefix(trim_start(s), APPROVE@)
}

/// The verdict of a returning verifier's result.
pub open spec fn verdict_spec(cr: ChildResult) -> WorkflowEvent {
    let approved = cr.epitaph@ == epitaph_word(Epitaph::FinalResponse) && match cr.response {
        Some(r) => approves(r@),
        None => false,
    };
    if approved {
        WorkflowEvent::VerifierApprove
    } else {
        WorkflowEvent::VerifierReject
    }
}

/// A returning verifier's verdict event: a `final-response` whose
/// response's first word is `APPROVE` approves; every other finished
/// outcome rejects.
pub fn verdict(cr: &ChildResult) -> (e: WorkflowEvent)
    ensures
        e == verdict_spec(*cr),
{
    let fin = chars_of(Epitaph::FinalResponse.as_str());
    if !same_chars(&chars_of(cr.epitaph.as_str()), &fin) {
        return WorkflowEvent::VerifierReject;
    }
    match &cr.response {
        None => WorkflowEvent::VerifierReject,
        Some(r) => {
            let v = chars_of(r.as_str());
            let (a, _) = crate::text::trim_bounds(&v);
            let lead = slice(&v, a, v.len());
            if starts_with(&lead, &chars_of(APPROVE)) {
                WorkflowEvent::VerifierApprove
            } else {
                WorkflowEvent::VerifierReject
            }
        },
    }
}

/// The lifecycle event of a returning child whose derived role is `role`:
/// `compactor` → `compactor_return`; `verifier` → its verdict; anything
/// else, or no role, → `worker_return`.
pub fn event_for_role(role: &Option<String>, cr: &ChildResult) -> (e: WorkflowEvent)
    ensures
        match *role {
            Some(r) => if r@ == COMPACTOR_ROLE@ {
                e == WorkflowEvent::CompactorReturn
            } else if r@ == VERIFIER_ROLE@ {
                e == WorkflowEvent::VerifierApprove || e == WorkflowEvent::VerifierReject
            } else {
                e == WorkflowEvent::WorkerReturn
            },
            None => e == WorkflowEvent::WorkerReturn,
        },
        (role matches Some(r) && r@ == VERIFIER_ROLE@) ==> e == verdict_spec(*cr),
{
    proof {
        reveal_strlit("compactor");
        reveal_strlit("verifier");
        assert(COMPACTOR_ROLE@[0] != VERIFIER_ROLE@[0]);
        assert(COMPACTOR_ROLE@ != VERIFIER_ROLE@);
    }
    match role {
        Some(r) => {
            let v = chars_of(r.as_str());
            if same_chars(&v, &chars_of(COMPACTOR_ROLE)) {
                WorkflowEvent::CompactorReturn
            } else if same_chars(&v, &chars_of(VERIFIER_ROLE)) {
                verdict(cr)
            } else {
                WorkflowEvent::WorkerReturn
            }
        },
        None => WorkflowEvent::WorkerReturn,
    }
}

/// `e` is the event a child returning with derived `role` names.
pub open spec fn role_event(role: Option<Seq<char>>, cr: ChildResult, e: WorkflowEvent) -> bool {
    match role {
        Some(r) => if r == COMPACTOR_ROLE@ {
            e == WorkflowEvent::CompactorReturn
        } else if r == VERIFIER_ROLE@ {
            e == verdict_spec(cr)
        } else {
            e == WorkflowEvent::WorkerReturn
        },
        None => e == WorkflowEvent::WorkerReturn,
    }
}

/// Name the lifecycle event of a returning child by its role, derived from
/// the child's dispatch commit subject at its terminal ref.
pub fn child_event<G: GitRunner>(worktree: &str, cr: &ChildResult, git: &G) -> (r: Result<WorkflowEvent, Error>)
    ensures
        r matches Err(e) ==> e matches Error::Git { op, .. } && op@ == "role founding subject"@,
        r matches Ok(e) ==> exists|out: Seq<char>|
            #[trigger] git.prints(
                worktree@,
                crate::prompt::role::founding_log_args("--format=%s"@, cr.terminal_ref@, cr.child_id@),
                out,
            ) && role_event(
                crate::prompt::role::role_of_subject_spec(crate::prompt::role::first_subject(out), cr.child_id@),
                *cr,
                e,
            ),
{
    let role = crate::prompt::role::derive(worktree, cr.terminal_ref.as_str(), cr.child_id.as_str(), git)?;
    Ok(event_for_role(&role, cr))
}

/// Whether `e` is a verifier verdict.
pub open spec fn is_verdict(e: WorkflowEvent) -> bool {
    e == WorkflowEvent::VerifierApprove || e == WorkflowEvent::VerifierReject
}

/// The positions among the first `n` of `events` whose verdict-ness is
/// `verdicts`, ascending.
pub open spec fn positions(events: Seq<WorkflowEvent>, verdicts: bool, n: int) -> Seq<usize>
    decreases n,
{
    if n <= 0 {
        Seq::empty()
    } else if is_verdict(events[n - 1]) == verdicts {
        positions(events, verdicts, n - 1).push((n - 1) as usize)
    } else {
        positions(events, verdicts, n - 1)
    }
}

/// The positions of `events` in interpretation order: every verifier
/// verdict first, then the rest, each group in inbox order — so an
/// approving verifier drains the worker result it gates before that
/// result could be interpreted on its own.
pub fn interpretation_order(events: &Vec<WorkflowEvent>) -> (r: Vec<usize>)
    ensures
        r@ == positions(events@, true, events@.len() as int) + positions(events@, false, events@.len() as int),
{
    let n: usize = events.len();
    let mut first: Vec<usize> = Vec::new();
    let mut rest: Vec<usize> = Vec::new();
    let mut i: usize = 0;
    while i < n
        invariant
            n == events@.len(),
            i <= n,
            first@ == positions(events@, true, i as int),
            rest@ == positions(events@, false, i as int),
        decreases n - i,
    {
        if is_verdict_event(events[i]) {
            first.push(i);
        } else {
            rest.push(i);
        }
        i += 1;
    }
    let mut k: usize = 0;
    let ghost head = first@;
    while k < rest.len()
        invariant
            k <= rest@.len(),
            first@ == head + rest@.take(k as int),
        decreases rest.len() - k,
    {
        first.push(rest[k]);
        proof {
            assert(head + rest@.take(k + 1) =~= (head + rest@.take(k as int)).push(rest@[k as int]));
        }
        k += 1;
    }
    proof {
        assert(rest@.take(rest@.len() as int) =~= rest@);
    }
    first
}

/// **A verifier approves only by a final response that leads with
/// `APPROVE`**: the verdict is approval exactly when the epitaph is
/// `final-response` and the response, past leading whitespace, begins with
/// `APPROVE`; a stopped or exhausted verifier, and one that never spoke,
/// reject.
pub proof fn law_only_an_approving_final_response_approves(cr: ChildResult)
    ensures
        verdict_spec(cr) == WorkflowEvent::VerifierApprove <==> (cr.epitaph@ == "final-response"@ && (
        cr.response matches Some(r) && has_prefix(trim_start(r@), "APPROVE"@))),
        verdict_spec(cr) == WorkflowEvent::VerifierApprove || verdict_spec(cr) == WorkflowEvent::VerifierReject,
{
}

/// What [`positions`] holds: ascending indices below `n`, each of an event
/// whose verdict-ness is `verdicts`, and every such index below `n`.
proof fn lemma_positions(events: Seq<WorkflowEvent>, verdicts: bool, n: int)
    requires
        0 <= n <= events.len(),
        n <= usize::MAX,
    ensures
        forall|k: int|
            0 <= k < positions(events, verdicts, n).len() ==> #[trigger] positions(events, verdicts, n)[k] < n
                && is_verdict(events[positions(events, verdicts, n)[k] as int]) == verdicts,
        forall|j: int, k: int|
            0 <= j < k < positions(events, verdicts, n).len() ==> #[trigger] positions(events, verdicts, n)[j]
                < #[trigger] positions(events, verdicts, n)[k],
        forall|i: int|
            0 <= i < n && is_verdict(#[trigger] events[i]) == verdicts ==> exists|k: int|
                0 <= k < positions(events, verdicts, n).len() && positions(events, verdicts, n)[k] == i,
    decreases n,
{
    if n > 0 {
        lemma_positions(events, verdicts, n - 1);
        let before = positions(events, verdicts, n - 1);
        let now = positions(events, verdicts, n);
        assert forall|i: int| 0 <= i < n && is_verdict(#[trigger] events[i]) == verdicts implies exists|k: int|
            0 <= k < now.len() && now[k] == i by {
            if i < n - 1 {
                let k = choose|k: int| 0 <= k < before.len() && before[k] == i;
                assert(now[k] == before[k]);
            } else {
                assert(now[now.len() - 1] == i);
            }
        }
    }
}

/// Each of the first `n` positions is a verdict's or not, so the two
/// groups together hold `n` of them.
proof fn lemma_positions_split(events: Seq<WorkflowEvent>, n: int)
    requires
        0 <= n <= events.len(),
    ensures
        positions(events, true, n).len() + positions(events, false, n).len() == n,
    decreases n,
{
    if n > 0 {
        lemma_positions_split(events, n - 1);
    }
}

/// **Verdicts are interpreted first, and every result exactly once**: the
/// interpretation order of `events` holds each position once, every
/// verifier verdict before every other event, and each group in inbox
/// order.
pub proof fn law_verdicts_first_each_result_once(events: Seq<WorkflowEvent>)
    requires
        events.len() <= usize::MAX,
    ensures
        ({
            let n = events.len() as int;
            let r = positions(events, true, n) + positions(events, false, n);
            &&& r.len() == n
            &&& forall|k: int| 0 <= k < r.len() ==> #[trigger] r[k] < n
            &&& forall|i: usize| i < n ==> #[trigger] r.contains(i)
            &&& forall|j: int, k: int| 0 <= j < k < r.len() ==> #[trigger] r[j] != #[trigger] r[k]
            &&& forall|j: int, k: int|
                0 <= j < k < r.len() && is_verdict(events[#[trigger] r[k] as int]) ==> is_verdict(
                    events[#[trigger] r[j] as int],
                )
            &&& forall|j: int, k: int|
                0 <= j < k < r.len() && is_verdict(events[r[j] as int]) == is_verdict(events[r[k] as int])
                    ==> #[trigger] r[j] < #[trigger] r[k]
        }),
{
    let n = events.len() as int;
    lemma_positions(events, true, n);
    lemma_positions(events, false, n);
    let a = positions(events, true, n);
    let b = positions(events, false, n);
    let r = a + b;
    assert forall|i: usize| i < n implies #[trigger] r.contains(i) by {
        if is_verdict(events[i as int]) {
            let k = choose|k: int| 0 <= k < a.len() && a[k] == i;
            assert(r[k] == a[k]);
        } else {
            let k = choose|k: int| 0 <= k < b.len() && b[k] == i;
            assert(r[a.len() + k] == b[k]);
        }
    }
    assert forall|j: int, k: int| 0 <= j < k < r.len() implies #[trigger] r[j] != #[trigger] r[k] by {
        if k < a.len() {
            assert(r[j] == a[j] && r[k] == a[k]);
        } else if j >= a.len() {
            assert(r[j] == b[j - a.len()] && r[k] == b[k - a.len()]);
        } else {
            assert(r[j] == a[j] && r[k] == b[k - a.len()]);
        }
    }
    lemma_positions_split(events, n);
}

/// Whether `e` is a verifier verdict.
fn is_verdict_event(e: WorkflowEvent) -> (b: bool)
    ensures
        b == is_verdict(e),
{
    match e {
        WorkflowEvent::VerifierApprove | WorkflowEvent::VerifierReject => true,
        _ => false,
    }
}

} // verus!

verus! {

/// What a worker- or compactor-result action does.
#[derive(Debug, Clone, Copy, PartialEq, Eq, Structural)]
pub enum ChildStep {
    /// `dispatch(verifier)`: open the hold — fork a verifier off the
    /// worker's terminal ref unless one already gates it.
    OpenGate,
    /// `gate_return_on`: the hold itself, leaving the result in the inbox.
    Hold,
    /// `deliver_result`: transfer the child's work product, then deliver
    /// its result message into the transcript.
    Deliver,
    /// `compaction_merge`: land the compactor's pass, then consume the
    /// trigger message.
    Merge,
}

/// The executor of one worker- or compactor-result action; any other
/// action is declined loudly.
pub fn child_step(action: &Action, event: WorkflowEvent) -> (r: Result<ChildStep, Error>)
    ensures
        match r {
            Ok(ChildStep::OpenGate) => (*action matches Action::Dispatch { role, .. } && role@ == VERIFIER_ROLE@),
            Ok(ChildStep::Hold) => *action == Action::GateReturnOn,
            Ok(ChildStep::Deliver) => *action == Action::DeliverResult,
            Ok(ChildStep::Merge) => *action == Action::CompactionMerge,
            Err(e) => (e matches Error::ActionUnsupported { event: ev, .. } && ev@ == event_key(event)) && match *action {
                Action::Dispatch { role, .. } => role@ != VERIFIER_ROLE@,
                Action::Other(_) => true,
                _ => false,
            },
        },
{
    match action {
        Action::Dispatch { role, .. } => {
            if same_chars(&chars_of(role.as_str()), &chars_of(VERIFIER_ROLE)) {
                Ok(ChildStep::OpenGate)
            } else {
                Err(Error::ActionUnsupported { action: action_key(action), event: event.as_str() })
            }
        },
        Action::GateReturnOn => Ok(ChildStep::Hold),
        Action::DeliverResult => Ok(ChildStep::Deliver),
        Action::CompactionMerge => Ok(ChildStep::Merge),
        Action::Other(_) => Err(Error::ActionUnsupported { action: action_key(action), event: event.as_str() }),
    }
}

/// Execute-or-decline one `worker_flush` action: the compactor dispatch is
/// the only flush action; another is declined.
pub fn execute_flush(action: &Action) -> (r: Result<(), Error>)
    ensures
        r is Ok <==> (*action matches Action::Dispatch { role, .. } && role@ == COMPACTOR_ROLE@),
        r matches Err(e) ==> e matches Error::ActionUnsupported { event: ev, .. } && ev@ == event_key(WorkflowEvent::WorkerFlush),
{
    match action {
        Action::Dispatch { role, .. } => {
            if same_chars(&chars_of(role.as_str()), &chars_of(COMPACTOR_ROLE)) {
                return Ok(());
            }
        },
        _ => {},
    }
    Err(Error::ActionUnsupported { action: action_key(action), event: WorkflowEvent::WorkerFlush.as_str() })
}

/// `v` is what a boundary runs under `workflow` in checkpoint state `st`.
pub open spec fn flush_actions_for(workflow: Workflow, st: CheckpointState, v: Seq<Action>) -> bool {
    &&& (workflow.compaction is None || !due_spec(workflow.compaction, st)) ==> v.len() == 0
    &&& (workflow.compaction is Some && due_spec(workflow.compaction, st)) ==> (
        bound(workflow.events@, WorkflowEvent::WorkerFlush).len() > 0 ==> v == bound(workflow.events@, WorkflowEvent::WorkerFlush))
    &&& (workflow.compaction is Some && due_spec(workflow.compaction, st)) ==> (
        bound(workflow.events@, WorkflowEvent::WorkerFlush).len() == 0 ==> v.len() == 1 && dispatches(v[0], COMPACTOR_ROLE@, None))
}

/// The `worker_flush` actions a boundary runs given the branch's
/// checkpoint state: none without a `compaction:` block or when the clock
/// is not due, else the event's actions.
pub fn flush_due(workflow: &Workflow, st: &CheckpointState) -> (r: Vec<Action>)
    ensures
        (workflow.compaction is None || !due_spec(workflow.compaction, *st)) ==> r@.len() == 0,
        (workflow.compaction is Some && due_spec(workflow.compaction, *st)) ==> (
            bound(workflow.events@, WorkflowEvent::WorkerFlush).len() > 0 ==> r@ == bound(workflow.events@, WorkflowEvent::WorkerFlush)),
        (workflow.compaction is Some && due_spec(workflow.compaction, *st)) ==> (
            bound(workflow.events@, WorkflowEvent::WorkerFlush).len() == 0 ==> r@.len() == 1 && dispatches(r@[0], COMPACTOR_ROLE@, None)),
        flush_actions_for(*workflow, *st, r@),
{
    match &workflow.compaction {
        None => Vec::new(),
        Some(c) => {
            if due(Some(c), st) {
                flush_actions(workflow)
            } else {
                Vec::new()
            }
        },
    }
}

/// Run the `worker_flush` checkpoint at a step boundary: the actions to
/// execute, in order, for the branch at `worktree` — none (and no git
/// asked) when the workflow has no `compaction:` block.
pub fn run_flush<G: GitRunner>(worktree: &str, agent_id: &str, now_unix: u64, workflow: &Workflow, git: &G) -> (r:
    Result<Vec<Action>, Error>)
    ensures
        workflow.compaction is None ==> (r matches Ok(v) && v@.len() == 0),
        r matches Err(e) ==> e matches Error::Git { .. },
        r matches Ok(v) ==> (workflow.compaction is Some ==> exists|st: CheckpointState|
            #[trigger] state_read(git, worktree@, agent_id@, now_unix, false, st) && flush_actions_for(*workflow, st, v@)),
        r matches Err(Error::Git { op, .. }) ==> workflow.compaction is Some && state_failed_at(git, worktree@, agent_id@, op@),
{
    if workflow.compaction.is_none() {
        return Ok(Vec::new());
    }
    let st = match state(worktree, agent_id, now_unix, false, git) {
        Ok(st) => st,
        Err(e) => return Err(e),
    };
    Ok(flush_due(workflow, &st))
}

/// The compactor dispatch of `agent_id`: off its tip, with the compactor's
/// boilerplate goal naming the branch.
pub open spec fn compactor_req(workspace: Seq<char>, agent_id: Seq<char>, worktree: Seq<char>) -> ReqView {
    (
        workspace,
        agent_id,
        worktree,
        COMPACTOR_ROLE@,
        crate::prompt::compactor::GOAL_HEAD@ + agent_id + crate::prompt::compactor::GOAL_TAIL@,
        None,
        None,
    )
}

/// Fork a compactor child off `agent_id`'s tip and start it through the
/// front door, as a harness-initiated dispatch: a budget refusal comes back
/// as `Ok(Some(_))` to be reported, not as a failure of the branch.
pub fn dispatch_compactor<W: Workspace, C: Clock, I: IdGen>(
    workspace: &str,
    agent_id: &str,
    worktree: &str,
    ws: &W,
    clock: &C,
    id_gen: &I,
) -> (r: Result<Option<Exhausted>, Error>)
    ensures
        r matches Err(e) ==> !(e is DispatchRefused),
        r matches Ok(None) ==> exists|ts: Seq<char>, short: Seq<char>|
            #[trigger] ws.launches(workspace@, child_id_spec(agent_id@, ts, short)),
        r matches Ok(Some(ex)) ==> exists|ts: Seq<char>, short: Seq<char>|
            #[trigger] refused_at(child_id_spec(agent_id@, ts, short), ex),
        exists|d: Result<String, Error>|
            #[trigger] dispatched(ws, clock, id_gen, compactor_req(workspace@, agent_id@, worktree@), d) && r == procedure_spec(d),
{
    let goal = compactor_goal(agent_id);
    let req = ChildDispatchRequest {
        repo: workspace,
        parent_branch: agent_id,
        parent_worktree: worktree,
        role: COMPACTOR_ROLE,
        goal: goal.as_str(),
        name: None,
        fork_point: None,
    };
    assert(req_view(req) == compactor_req(workspace@, agent_id@, worktree@));
    let o = run_procedure(&req, ws, clock, id_gen);
    proof {
        let (ts, short, d) = choose|ts: Seq<char>, short: Seq<char>, d: Result<String, Error>|
            #[trigger] clock.ticks(ts) && #[trigger] id_gen.mints(short) && #[trigger] dispatch_result(ws, req_view(req), ts, short, d)
                && o == procedure_spec(d);
        assert(dispatched(ws, clock, id_gen, compactor_req(workspace@, agent_id@, worktree@), d));
    }
    o
}

/// The `worker_flush` checkpoint, run: the boundary's actions (see
/// [`run_flush`]), each executed in order — the compactor dispatch, or a
/// loud decline of any other action. The answer holds one entry per action:
/// the budget refusal that dispatch reported, if any.
pub fn flush<G: GitRunner, W: Workspace, C: Clock, I: IdGen>(
    workspace: &str,
    agent_id: &str,
    worktree: &str,
    now_unix: u64,
    workflow: &Workflow,
    git: &G,
    ws: &W,
    clock: &C,
    id_gen: &I,
) -> (r: Result<Vec<Option<Exhausted>>, Error>)
    ensures
        workflow.compaction is None ==> (r matches Ok(v) && v@.len() == 0),
        r matches Ok(v) ==> exists|acts: Seq<Action>| #[trigger] flush_ran(git, worktree@, agent_id@, now_unix, *workflow, acts)
            && v@.len() == acts.len() && forall|i: int| 0 <= i < acts.len() ==> (#[trigger] acts[i] matches Action::Dispatch {
            role,
            ..
        } && role@ == COMPACTOR_ROLE@),
        r matches Err(e) ==> !(e is DispatchRefused),
{
    let actions = run_flush(worktree, agent_id, now_unix, workflow, git)?;
    let mut out: Vec<Option<Exhausted>> = Vec::new();
    let mut i: usize = 0;
    while i < actions.len()
        invariant
            i <= actions@.len(),
            out@.len() == i,
            workflow.compaction is None ==> actions@.len() == 0,
            forall|k: int| 0 <= k < i ==> (#[trigger] actions@[k] matches Action::Dispatch { role, .. } && role@
                == COMPACTOR_ROLE@),
        decreases actions.len() - i,
    {
        match execute_flush(&actions[i]) {
            Ok(()) => {},
            Err(e) => return Err(e),
        }
        let refused = dispatch_compactor(workspace, agent_id, worktree, ws, clock, id_gen)?;
        out.push(refused);
        i += 1;
    }
    proof {
        assert(flush_ran(git, worktree@, agent_id@, now_unix, *workflow, actions@));
    }
    Ok(out)
}

/// The boundary's flush actions were `acts`: none without a `compaction:`
/// block, else those of the checkpoint state git answered.
pub open spec fn flush_ran<G: GitRunner>(
    git: &G,
    worktree: Seq<char>,
    agent_id: Seq<char>,
    now_unix: u64,
    workflow: Workflow,
    acts: Seq<Action>,
) -> bool {
    if workflow.compaction is None {
        acts.len() == 0
    } else {
        exists|st: CheckpointState| #[trigger] state_read(git, worktree, agent_id, now_unix, false, st) && flush_actions_for(workflow, st, acts)
    }
}

} // verus!
