//! Child dispatch — fork plus front door, never a spawn.
//!
//! A dispatch starts a child agent with a goal, inline and synchronously:
//! it **forks** the child branch off the parent's tip (or another ref) and
//! lands its dispatch commit, **deposits** the goal into the new agent's
//! inbox through the front door and launches its driver, and **returns**
//! the child's id — `<parent>-<ts>-<short>`, its branch name and its
//! address.
//!
//! **One budget gate, every dispatch**. `budgets:` is a ceiling on the
//! conversation tree, and a dispatch is the only act that can deepen it, so
//! the check is made at the fork, against the child's own prospective
//! branch name, *before* anything exists: a dispatch that would breach
//! `max_depth` — or start work under a tree that has already spent its
//! tokens or wall — is refused and leaves no branch, worktree or inbox
//! behind. Depth is positional and derives from the name alone, so the
//! check is exact for a branch that does not exist yet. A
//! harness-initiated dispatch differs in one thing only: its refusal is the
//! operator's declared ceiling, not the dispatching branch's failure, so it
//! is reported and the branch steps on.

use vstd::prelude::*;
use crate::error::{one_of, Error};
use crate::prompt::budget::{check, check_spec, root_of, root_spec, Budgets, Exhausted};
use crate::prompt::dispatch::step_loop::Epitaph;
use crate::text::append_str;

verus! {

/// Where the roles' souls live in a config commit.
pub const SOULS_DIR: &'static str = "souls";
/// The workflow declaration in a config commit.
pub const WORKFLOW_FILE: &'static str = "workflow.yaml";
/// The per-repo providers declaration (roles, models, tool grants).
pub const PER_REPO_PROVIDERS_FILE: &'static str = "providers.yaml";

/// Inputs to a child dispatch, built the same way by every caller
/// regardless of the target role.
pub struct ChildDispatchRequest<'a> {
    /// Workspace repository root.
    pub repo: &'a str,
    /// The dispatching branch — the child forks off its tip, its id is
    /// `<parent>-<sub-id>`, and it is the deposit's sender and the derived
    /// return address.
    pub parent_branch: &'a str,
    /// The dispatching branch's worktree, where the fork runs.
    pub parent_worktree: &'a str,
    /// The child's role: selects its pinned soul and labels its dispatch
    /// commit.
    pub role: &'a str,
    /// The goal: written to the child's `goal.md` and deposited as its
    /// first inbox message.
    pub goal: &'a str,
    /// The child's optional display name; `None` for every
    /// harness-initiated dispatch.
    pub name: Option<&'a str>,
    /// The ref the child forks off; `None` is the parent's tip.
    pub fork_point: Option<&'a str>,
}

/// Any truth value for an answer `a` of kind `tag`: what picks one, per
/// call and answer, where nothing else is known of it.
closed spec fn any_answer<A>(tag: int, a: A, b: bool) -> bool {
    b || !b
}

/// The clock a dispatch names its child by.
pub trait Clock {
    /// The clock can read `ts`: a truth value fixed per reading and
    /// otherwise unknown.
    closed spec fn ticks(&self, ts: Seq<char>) -> bool {
        choose|b: bool| any_answer(20, ts, b)
    }

    /// The current time, compact (`YYYYMMDD-HHMMSS` style).
    fn now_compact(&self) -> (r: String)
        ensures
            self.ticks(r@),
    ;
}

/// The short random part of a child's id.
pub trait IdGen {
    /// The generator can hand out `short`: a truth value fixed per id and
    /// otherwise unknown.
    closed spec fn mints(&self, short: Seq<char>) -> bool {
        choose|b: bool| any_answer(21, short, b)
    }

    /// A fresh short id.
    fn short(&self) -> (r: String)
        ensures
            self.mints(r@),
    ;
}

/// A dispatch request as plain values: repo, parent branch, parent
/// worktree, role, goal, name and fork point.
pub type ReqView = (
    Seq<char>,
    Seq<char>,
    Seq<char>,
    Seq<char>,
    Seq<char>,
    Option<Seq<char>>,
    Option<Seq<char>>,
);

/// A dispatch request by its characters: repo, parent branch, parent
/// worktree, role, goal, name and fork point.
pub open spec fn req_view(req: ChildDispatchRequest) -> (
    Seq<char>,
    Seq<char>,
    Seq<char>,
    Seq<char>,
    Seq<char>,
    Option<Seq<char>>,
    Option<Seq<char>>,
) {
    (
        req.repo@,
        req.parent_branch@,
        req.parent_worktree@,
        req.role@,
        req.goal@,
        crate::paths::opt_view(req.name),
        crate::paths::opt_view(req.fork_point),
    )
}

/// Any truth value for a result deposit: what picks one, per call, where
/// nothing else is known of it.
closed spec fn any_deposit(
    repo: Seq<char>,
    agent: Seq<char>,
    epitaph: Epitaph,
    terminal_ref: Seq<char>,
    response: Option<Seq<char>>,
    b: bool,
) -> bool {
    b || !b
}

/// What a dispatch asks of the workspace and the inbox: reading the
/// governing config, measuring the tree's spend, forking the child, and
/// starting it through the front door. Production runs git and the file
/// system; tests script it.
///
/// As with git, what the workspace answers is not modelled: the relations
/// below only record, per implementation, which answers were seen, so a
/// contract over them states what was asked and what was made of it.
pub trait Workspace {
    /// `show_control(repo, commit, path)` can answer `raw`: a truth value
    /// fixed per call and otherwise unknown.
    closed spec fn shows(&self, repo: Seq<char>, commit: Seq<char>, path: Seq<char>, raw: Seq<char>) -> bool {
        choose|b: bool| one_of(3, repo, seq![commit, path], raw, b)
    }

    /// `probe_and_launch(repo, agent)` can succeed: a truth value fixed per
    /// call and otherwise unknown.
    closed spec fn launches(&self, repo: Seq<char>, agent: Seq<char>) -> bool {
        choose|b: bool| one_of(4, repo, seq![agent], seq![], b)
    }

    /// `deposit_result(repo, agent, epitaph, terminal_ref, response)` can
    /// succeed: a truth value fixed per call and otherwise unknown.
    closed spec fn deposits(
        &self,
        repo: Seq<char>,
        agent: Seq<char>,
        epitaph: Epitaph,
        terminal_ref: Seq<char>,
        response: Option<Seq<char>>,
    ) -> bool {
        choose|b: bool| any_deposit(repo, agent, epitaph, terminal_ref, response, b)
    }

    /// `branch`'s governing config commit can be read as `commit`.
    closed spec fn governs(&self, repo: Seq<char>, branch: Seq<char>, commit: Seq<char>) -> bool {
        choose|b: bool| any_answer(5, (repo, branch, commit), b)
    }

    /// Reading `branch`'s governing config commit can fail.
    closed spec fn config_fails(&self, repo: Seq<char>, branch: Seq<char>) -> bool {
        choose|b: bool| any_answer(6, (repo, branch), b)
    }

    /// Reading control file `path` of `commit` can fail.
    closed spec fn show_fails(&self, repo: Seq<char>, commit: Seq<char>, path: Seq<char>) -> bool {
        choose|b: bool| any_answer(7, (repo, commit, path), b)
    }

    /// The `budgets:` block of `raw` can read as `budgets`.
    closed spec fn budgets_in(&self, raw: Seq<char>, budgets: Budgets) -> bool {
        choose|b: bool| any_answer(8, (raw, budgets), b)
    }

    /// Reading the `budgets:` block of `raw` can fail with `e`.
    closed spec fn budgets_error(&self, raw: Seq<char>, e: Error) -> bool {
        choose|b: bool| any_answer(9, (raw, e), b)
    }

    /// `providers.yaml` text `raw` can grant `role` the tools `granted`.
    closed spec fn grants(&self, raw: Seq<char>, role: Seq<char>, granted: Seq<Seq<char>>) -> bool {
        choose|b: bool| any_answer(10, (raw, role, granted), b)
    }

    /// Reading `role`'s grant out of `raw` can fail with `e`.
    closed spec fn grant_error(&self, raw: Seq<char>, role: Seq<char>, e: Error) -> bool {
        choose|b: bool| any_answer(11, (raw, role, e), b)
    }

    /// The fork of `child` for request `req` with this soul, grant and
    /// subject can fail with `e`.
    closed spec fn fork_error(
        &self,
        req: (Seq<char>, Seq<char>, Seq<char>, Seq<char>, Seq<char>, Option<Seq<char>>, Option<Seq<char>>),
        child: Seq<char>,
        soul: Seq<char>,
        granted: Seq<Seq<char>>,
        subject: Seq<char>,
        e: Error,
    ) -> bool {
        choose|b: bool| any_answer(16, (req, child, soul, granted, subject, e), b)
    }

    /// Depositing `body` from `sender` into `agent`'s inbox can fail with
    /// `e`.
    closed spec fn deposit_error(&self, repo: Seq<char>, agent: Seq<char>, sender: Seq<char>, body: Seq<char>, e: Error) -> bool {
        choose|b: bool| any_answer(17, (repo, agent, sender, body, e), b)
    }

    /// Depositing `agent`'s result message can fail with `e`.
    closed spec fn result_error(
        &self,
        repo: Seq<char>,
        agent: Seq<char>,
        epitaph: Epitaph,
        terminal_ref: Seq<char>,
        response: Option<Seq<char>>,
        e: Error,
    ) -> bool {
        choose|b: bool| any_answer(18, (repo, agent, epitaph, terminal_ref, response, e), b)
    }

    /// The tree rooted at `root` can have spent `spend` tokens over `wall`
    /// seconds.
    closed spec fn spent(&self, repo: Seq<char>, root: Seq<char>, spend: u64, wall: u64) -> bool {
        choose|b: bool| any_answer(12, (repo, root, spend, wall), b)
    }

    /// The fork of `child` for request `req` with this soul, grant and
    /// subject can succeed (`ok`) or fail (`!ok`).
    closed spec fn forks(
        &self,
        req: (Seq<char>, Seq<char>, Seq<char>, Seq<char>, Seq<char>, Option<Seq<char>>, Option<Seq<char>>),
        child: Seq<char>,
        soul: Seq<char>,
        granted: Seq<Seq<char>>,
        subject: Seq<char>,
        ok: bool,
    ) -> bool {
        choose|b: bool| any_answer(13, (req, child, soul, granted, subject, ok), b)
    }

    /// Depositing `body` from `sender` into `agent`'s inbox can succeed
    /// (`ok`) or fail (`!ok`).
    closed spec fn deposited(&self, repo: Seq<char>, agent: Seq<char>, sender: Seq<char>, body: Seq<char>, ok: bool) -> bool {
        choose|b: bool| any_answer(14, (repo, agent, sender, body, ok), b)
    }

    /// Probing and launching `agent` can fail with `e`.
    closed spec fn launch_error(&self, repo: Seq<char>, agent: Seq<char>, e: Error) -> bool {
        choose|b: bool| any_answer(15, (repo, agent, e), b)
    }

    /// The governing config commit of `branch`.
    fn governing_config(&self, repo: &str, branch: &str) -> (r: std::io::Result<String>)
        ensures
            r matches Ok(commit) ==> self.governs(repo@, branch@, commit@),
            r is Err ==> self.config_fails(repo@, branch@),
    ;
    /// A control file at `path` in config `commit`, verbatim.
    fn show_control(&self, repo: &str, commit: &str, path: &str) -> (r: std::io::Result<String>)
        ensures
            r matches Ok(raw) ==> self.shows(repo@, commit@, path@, raw@),
            r is Err ==> self.show_fails(repo@, commit@, path@),
    ;
    /// The `budgets:` block of a `workflow.yaml`.
    fn parse_budgets(&self, raw: &str) -> (r: Result<Budgets, Error>)
        ensures
            r matches Ok(b) ==> self.budgets_in(raw@, b),
            r matches Err(e) ==> self.budgets_error(raw@, e),
    ;
    /// The tools `role` is granted by a `providers.yaml`.
    fn granted_tools(&self, raw: &str, role: &str) -> (r: Result<Vec<String>, Error>)
        ensures
            r matches Ok(g) ==> self.grants(raw@, role@, crate::error::strs(g@)),
            r matches Err(e) ==> self.grant_error(raw@, role@, e),
    ;
    /// The tokens spent and the wall seconds elapsed in the tree rooted at
    /// `root`.
    fn usage(&self, repo: &str, root: &str) -> (r: (u64, u64))
        ensures
            self.spent(repo@, root@, r.0, r.1),
    ;
    /// Fork `child` off the parent (or `fork_point`) and land its dispatch
    /// commit: `goal.md`, the soul, and the tree trimmed to the grant.
    fn fork(&self, req: &ChildDispatchRequest, child: &str, soul: &str, granted: &Vec<String>, subject: &str) -> (r:
        Result<(), Error>)
        ensures
            self.forks(req_view(*req), child@, soul@, crate::error::strs(granted@), subject@, r is Ok),
            r matches Err(e) ==> self.fork_error(req_view(*req), child@, soul@, crate::error::strs(granted@), subject@, e),
    ;
    /// Deposit `body` from `sender` into `agent`'s inbox.
    fn deposit(&self, repo: &str, agent: &str, sender: &str, body: &str) -> (r: Result<(), Error>)
        ensures
            self.deposited(repo@, agent@, sender@, body@, r is Ok),
            r matches Err(e) ==> self.deposit_error(repo@, agent@, sender@, body@, e),
    ;
    /// Probe `agent`'s inbox and launch its driver if it is quiescent.
    fn probe_and_launch(&self, repo: &str, agent: &str) -> (r: Result<(), Error>)
        ensures
            r is Ok ==> self.launches(repo@, agent@),
            r matches Err(e) ==> self.launch_error(repo@, agent@, e),
    ;
    /// Deposit `agent`'s result message — its epitaph, its terminal ref,
    /// and its response iff it spoke — into its parent's inbox; nothing for
    /// a root, which has no parent inbox.
    fn deposit_result(
        &self,
        repo: &str,
        agent: &str,
        epitaph: Epitaph,
        terminal_ref: &str,
        response: Option<&str>,
    ) -> (r: Result<(), Error>)
        ensures
            r is Ok ==> self.deposits(repo@, agent@, epitaph, terminal_ref@, crate::paths::opt_view(response)),
            r matches Err(e) ==> self.result_error(repo@, agent@, epitaph, terminal_ref@, crate::paths::opt_view(response), e),
    ;
}

/// The child's id: `<parent>-<ts>-<short>` — its branch name and worktree
/// share it, a hyphenated descent of the parent's.
pub open spec fn child_id_spec(parent: Seq<char>, ts: Seq<char>, short: Seq<char>) -> Seq<char> {
    parent + "-"@ + ts + "-"@ + short
}

/// `<parent>-<ts>-<short>`.
pub fn child_id(parent: &str, ts: &str, short: &str) -> (r: String)
    ensures
        r@ == child_id_spec(parent@, ts@, short@),
{
    let mut r = String::new();
    append_str(&mut r, parent);
    append_str(&mut r, "-");
    append_str(&mut r, ts);
    append_str(&mut r, "-");
    append_str(&mut r, short);
    r
}

/// `souls/<role>.md`.
pub fn soul_path(role: &str) -> (r: String)
    ensures
        r@ == SOULS_DIR@ + "/"@ + role@ + ".md"@,
{
    let mut r = String::new();
    append_str(&mut r, SOULS_DIR);
    append_str(&mut r, "/");
    append_str(&mut r, role);
    append_str(&mut r, ".md");
    r
}

/// The dispatch commit's subject: `dispatch: <role> [<child>]`.
pub fn dispatch_subject(role: &str, child: &str) -> (r: String)
    ensures
        r@ == "dispatch: "@ + role@ + " ["@ + child@ + "]"@,
{
    let mut r = String::new();
    append_str(&mut r, "dispatch: ");
    append_str(&mut r, role);
    append_str(&mut r, " [");
    append_str(&mut r, child);
    append_str(&mut r, "]");
    r
}

/// `<commit>:<path>`, the name a control read is reported under.
pub fn control_name(commit: &str, path: &str) -> (r: String)
    ensures
        r@ == commit@ + ":"@ + path@,
{
    let mut r = String::new();
    append_str(&mut r, commit);
    append_str(&mut r, ":");
    append_str(&mut r, path);
    r
}

/// The budget check on a prospective `child` of `parent`: refused exactly when
/// the budgets, evaluated against the child's own name and the tree's
/// spend, are crossed.
pub fn gate(child: &str, parent: &str, budgets: &Budgets, spend: u64, wall_seconds: u64) -> (r: Result<(), Error>)
    ensures
        check_spec(child@, *budgets, spend, wall_seconds) is None ==> r is Ok,
        check_spec(child@, *budgets, spend, wall_seconds) matches Some(ex) ==> (r matches Err(
            Error::DispatchRefused { child: c, parent: p, exhausted },
        ) && c@ == child@ && p@ == parent@ && exhausted == ex),
{
    match check(child, budgets, spend, wall_seconds) {
        None => Ok(()),
        Some(ex) => {
            let mut c = String::new();
            append_str(&mut c, child);
            let mut p = String::new();
            append_str(&mut p, parent);
            Err(Error::DispatchRefused { child: c, parent: p, exhausted: ex })
        },
    }
}

/// `ex` is what the budgets refuse `child` for, under some declared
/// budgets and some measured spend and wall time.
pub open spec fn refused_at(child: Seq<char>, ex: Exhausted) -> bool {
    exists|b: Budgets, spend: u64, wall: u64| #[trigger] check_spec(child, b, spend, wall) == Some(ex)
}

/// A control file read from the governing config commit.
fn read_control<W: Workspace>(ws: &W, repo: &str, commit: &str, path: &str) -> (r: Result<String, Error>)
    ensures
        r matches Ok(raw) ==> ws.shows(repo@, commit@, path@, raw@),
        r matches Err(e) ==> e matches Error::ControlRead { path: p, .. } && p@ == commit@ + ":"@ + path@,
        r is Err ==> ws.show_fails(repo@, commit@, path@),
{
    match ws.show_control(repo, commit, path) {
        Ok(raw) => Ok(raw),
        Err(source) => Err(Error::ControlRead { path: control_name(commit, path), source }),
    }
}

/// `souls/<role>.md`.
pub open spec fn soul_rel(role: Seq<char>) -> Seq<char> {
    SOULS_DIR@ + "/"@ + role + ".md"@
}

/// `dispatch: <role> [<child>]`.
pub open spec fn subject_of(role: Seq<char>, child: Seq<char>) -> Seq<char> {
    "dispatch: "@ + role + " ["@ + child + "]"@
}

/// The budget check on `child`, against the budgets declared in the
/// `workflow.yaml` of config `commit` and the spend and wall time of the
/// child's tree, as the workspace answered them, gave `verdict`.
pub open spec fn gate_read<W: Workspace>(
    ws: &W,
    rv: ReqView,
    child: Seq<char>,
    commit: Seq<char>,
    verdict: Option<Exhausted>,
) -> bool {
    exists|raw: Seq<char>, b: Budgets, spend: u64, wall: u64|
        #![trigger ws.shows(rv.0, commit, WORKFLOW_FILE@, raw), ws.budgets_in(raw, b), ws.spent(rv.0, root_spec(child), spend, wall)]
        ws.shows(rv.0, commit, WORKFLOW_FILE@, raw) && ws.budgets_in(raw, b) && ws.spent(
            rv.0,
            root_spec(child),
            spend,
            wall,
        ) && check_spec(child, b, spend, wall) == verdict
}

/// The dispatch of `child` got past the budget check under config
/// `commit`, read `soul` and the grant `granted` from that commit.
pub open spec fn prepared<W: Workspace>(
    ws: &W,
    rv: ReqView,
    child: Seq<char>,
    commit: Seq<char>,
    soul: Seq<char>,
    granted: Seq<Seq<char>>,
) -> bool {
    &&& ws.governs(rv.0, rv.1, commit)
    &&& gate_read(ws, rv, child, commit, None)
    &&& ws.shows(rv.0, commit, soul_rel(rv.3), soul)
    &&& exists|providers: Seq<char>|
        #[trigger] ws.shows(rv.0, commit, PER_REPO_PROVIDERS_FILE@, providers) && ws.grants(providers, rv.3, granted)
}

/// The fork of a prepared `child` landed with what was read.
pub open spec fn forked<W: Workspace>(
    ws: &W,
    rv: ReqView,
    child: Seq<char>,
    commit: Seq<char>,
    soul: Seq<char>,
    granted: Seq<Seq<char>>,
) -> bool {
    prepared(ws, rv, child, commit, soul, granted) && ws.forks(
        rv,
        child,
        soul,
        granted,
        subject_of(rv.3, child),
        true,
    )
}

/// Where a dispatch of `child` that was not refused failed, step by step:
/// the governing config, the workflow read, its `budgets:` block, the soul
/// read, the providers read, the grant, the fork, the goal deposit, the
/// launch — each after every step before it answered.
pub open spec fn failed_at<W: Workspace>(ws: &W, rv: ReqView, child: Seq<char>, e: Error) -> bool {
    let repo = rv.0;
    ||| (e matches Error::Git { op, .. } && op == "governing config") && ws.config_fails(repo, rv.1)
    ||| exists|commit: Seq<char>|
        #[trigger] ws.governs(repo, rv.1, commit) && {
            ||| (e matches Error::ControlRead { path, .. } && path@ == commit + ":"@ + WORKFLOW_FILE@) && ws.show_fails(
                repo,
                commit,
                WORKFLOW_FILE@,
            )
            ||| exists|raw: Seq<char>, e0: Error|
                #[trigger] ws.shows(repo, commit, WORKFLOW_FILE@, raw) && #[trigger] ws.budgets_error(raw, e0) && passed_on(e0, e)
            ||| gate_read(ws, rv, child, commit, None) && (e matches Error::ControlRead { path, .. } && path@ == commit
                + ":"@ + soul_rel(rv.3)) && ws.show_fails(repo, commit, soul_rel(rv.3))
            ||| gate_read(ws, rv, child, commit, None) && (exists|soul: Seq<char>|
                #[trigger] ws.shows(repo, commit, soul_rel(rv.3), soul)) && (e matches Error::ControlRead {
                path,
                ..
            } && path@ == commit + ":"@ + PER_REPO_PROVIDERS_FILE@) && ws.show_fails(repo, commit, PER_REPO_PROVIDERS_FILE@)
            ||| gate_read(ws, rv, child, commit, None) && (exists|soul: Seq<char>|
                #[trigger] ws.shows(repo, commit, soul_rel(rv.3), soul)) && (exists|providers: Seq<char>|
                #[trigger] ws.shows(repo, commit, PER_REPO_PROVIDERS_FILE@, providers) && exists|e0: Error|
                    #[trigger] ws.grant_error(providers, rv.3, e0) && passed_on(e0, e))
            ||| exists|soul: Seq<char>, granted: Seq<Seq<char>>|
                #[trigger] prepared(ws, rv, child, commit, soul, granted) && exists|e0: Error|
                    #[trigger] ws.fork_error(rv, child, soul, granted, subject_of(rv.3, child), e0) && passed_on(e0, e)
            ||| exists|soul: Seq<char>, granted: Seq<Seq<char>>|
                #[trigger] forked(ws, rv, child, commit, soul, granted) && exists|e0: Error|
                    #[trigger] ws.deposit_error(repo, child, rv.1, rv.4, e0) && passed_on(e0, e)
            ||| exists|soul: Seq<char>, granted: Seq<Seq<char>>|
                #[trigger] forked(ws, rv, child, commit, soul, granted) && ws.deposited(
                    repo,
                    child,
                    rv.1,
                    rv.4,
                    true,
                ) && exists|e0: Error| #[trigger] ws.launch_error(repo, child, e0) && passed_on(e0, e)
        }
}

/// What a dispatch of `req`'s child named by `ts` and `short` answers:
/// the child's id once it was forked, its goal deposited from the parent
/// and its driver launched; a refusal exactly when the budget check under
/// the governing config failed it; or the step that failed.
pub open spec fn dispatch_result<W: Workspace>(
    ws: &W,
    rv: ReqView,
    ts: Seq<char>,
    short: Seq<char>,
    r: Result<String, Error>,
) -> bool {
    let child = child_id_spec(rv.1, ts, short);
    match r {
        Ok(c) => c@ == child && exists|commit: Seq<char>, soul: Seq<char>, granted: Seq<Seq<char>>|
            #[trigger] forked(ws, rv, child, commit, soul, granted) && ws.deposited(
                rv.0,
                child,
                rv.1,
                rv.4,
                true,
            ) && ws.launches(rv.0, child),
        Err(Error::DispatchRefused { child: c, parent: p, exhausted }) => c@ == child && p@ == rv.1
            && exists|commit: Seq<char>|
            #[trigger] ws.governs(rv.0, rv.1, commit) && gate_read(ws, rv, child, commit, Some(exhausted)),
        Err(e) => failed_at(ws, rv, child, e),
    }
}

/// A dispatch of request `rv`, named by the clock's and the id
/// generator's readings, answered `r`.
pub open spec fn dispatched<W: Workspace, C: Clock, I: IdGen>(
    ws: &W,
    clock: &C,
    id_gen: &I,
    rv: ReqView,
    r: Result<String, Error>,
) -> bool {
    exists|ts: Seq<char>, short: Seq<char>|
        #[trigger] clock.ticks(ts) && #[trigger] id_gen.mints(short) && dispatch_result(ws, rv, ts, short, r)
}

/// Dispatch the child `<parent>-<ts>-<short>` of `req`: read the governing
/// config, refuse by its declared budgets against the child's own id and
/// the tree's usage, then read the soul and the grant, fork, deposit the
/// goal from the parent, and launch.
pub fn run_with<W: Workspace>(req: &ChildDispatchRequest, ws: &W, ts: &str, short: &str) -> (r: Result<String, Error>)
    ensures
        dispatch_result(ws, req_view(*req), ts@, short@, r),
{
    let ghost rv = req_view(*req);
    assert(rv.0 == req.repo@ && rv.1 == req.parent_branch@ && rv.3 == req.role@ && rv.4 == req.goal@);
    let child = child_id(req.parent_branch, ts, short);
    let ghost cv = child_id_spec(req.parent_branch@, ts@, short@);
    let commit = match ws.governing_config(req.repo, req.parent_branch) {
        Ok(c) => c,
        Err(source) => return Err(Error::Git { op: "governing config", source }),
    };
    assert(ws.governs(req.repo@, req.parent_branch@, commit@));
    let raw_workflow = match read_control(ws, req.repo, commit.as_str(), WORKFLOW_FILE) {
        Ok(raw) => raw,
        Err(e) => {
            assert(failed_at(ws, rv, cv, e));
            return Err(e);
        },
    };
    let budgets = match not_refused(ws.parse_budgets(raw_workflow.as_str())) {
        Ok(b) => b,
        Err(e) => {
            assert(ws.shows(req.repo@, commit@, WORKFLOW_FILE@, raw_workflow@));
            assert(failed_at(ws, rv, cv, e));
            return Err(e);
        },
    };
    let root = root_of(child.as_str());
    let (spend, wall) = ws.usage(req.repo, root.as_str());
    match gate(child.as_str(), req.parent_branch, &budgets, spend, wall) {
        Ok(()) => {},
        Err(e) => {
            assert(gate_read(ws, rv, cv, commit@, check_spec(cv, budgets, spend, wall)));
            return Err(e);
        },
    }
    assert(gate_read(ws, rv, cv, commit@, None));
    let soul_rel_s = soul_path(req.role);
    let soul = match read_control(ws, req.repo, commit.as_str(), soul_rel_s.as_str()) {
        Ok(t) => t,
        Err(e) => {
            assert(failed_at(ws, rv, cv, e));
            return Err(e);
        },
    };
    assert(ws.shows(req.repo@, commit@, soul_rel(req.role@), soul@));
    let raw_providers = match read_control(ws, req.repo, commit.as_str(), PER_REPO_PROVIDERS_FILE) {
        Ok(t) => t,
        Err(e) => {
            assert(failed_at(ws, rv, cv, e));
            return Err(e);
        },
    };
    let granted = match not_refused(ws.granted_tools(raw_providers.as_str(), req.role)) {
        Ok(g) => g,
        Err(e) => {
            assert(ws.shows(req.repo@, commit@, PER_REPO_PROVIDERS_FILE@, raw_providers@));
            assert(failed_at(ws, rv, cv, e));
            return Err(e);
        },
    };
    let ghost gv = crate::error::strs(granted@);
    assert(ws.shows(req.repo@, commit@, PER_REPO_PROVIDERS_FILE@, raw_providers@));
    assert(prepared(ws, rv, cv, commit@, soul@, gv));
    let subject = dispatch_subject(req.role, child.as_str());
    let forked_r = ws.fork(req, child.as_str(), soul.as_str(), &granted, subject.as_str());
    let ghost fg = forked_r;
    match not_refused(forked_r) {
        Ok(()) => {},
        Err(e) => {
            let ghost e0 = fg->Err_0;
            assert(ws.fork_error(rv, cv, soul@, gv, subject_of(rv.3, cv), e0) && passed_on(e0, e));
            assert(prepared(ws, rv, cv, commit@, soul@, gv));
            assert(failed_at(ws, rv, cv, e));
            return Err(e);
        },
    }
    assert(forked(ws, rv, cv, commit@, soul@, gv));
    match not_refused(ws.deposit(req.repo, child.as_str(), req.parent_branch, req.goal)) {
        Ok(()) => {},
        Err(e) => {
            assert(failed_at(ws, rv, cv, e));
            return Err(e);
        },
    }
    match not_refused(ws.probe_and_launch(req.repo, child.as_str())) {
        Ok(()) => {},
        Err(e) => {
            assert(failed_at(ws, rv, cv, e));
            return Err(e);
        },
    }
    Ok(child)
}

/// Fork a child agent off `req.parent_branch` and start it through the
/// front door, naming it by the clock and the id generator: the child's id
/// `<parent>-<ts>-<short>` on success. The budget check is evaluated
/// against that id before the fork.
pub fn run<W: Workspace, C: Clock, I: IdGen>(req: &ChildDispatchRequest, ws: &W, clock: &C, id_gen: &I) -> (r:
    Result<String, Error>)
    ensures
        exists|ts: Seq<char>, short: Seq<char>|
            #[trigger] clock.ticks(ts) && #[trigger] id_gen.mints(short) && dispatch_result(ws, req_view(*req), ts, short, r),
        r matches Ok(child) ==> exists|ts: Seq<char>, short: Seq<char>|
            child@ == #[trigger] child_id_spec(req.parent_branch@, ts, short),
        r matches Ok(child) ==> ws.launches(req.repo@, child@),
        r matches Err(Error::DispatchRefused { child, exhausted, .. }) ==> refused_at(child@, exhausted),
        r matches Err(Error::DispatchRefused { child, parent, .. }) ==> parent@ == req.parent_branch@ && exists|
            ts: Seq<char>,
            short: Seq<char>,
        | child@ == #[trigger] child_id_spec(req.parent_branch@, ts, short),
{
    let ts = clock.now_compact();
    let short = id_gen.short();
    let r = run_with(req, ws, ts.as_str(), short.as_str());
    proof {
        let cv = child_id_spec(req.parent_branch@, ts@, short@);
        if let Err(Error::DispatchRefused { exhausted, .. }) = &r {
            let commit = choose|commit: Seq<char>|
                #[trigger] ws.governs(req.repo@, req.parent_branch@, commit) && gate_read(ws, req_view(*req), cv, commit, Some(*exhausted));
            let (raw, b, spend, wall) = choose|raw: Seq<char>, b: Budgets, spend: u64, wall: u64|
                #![trigger ws.shows(req.repo@, commit, WORKFLOW_FILE@, raw), ws.budgets_in(raw, b), ws.spent(req.repo@, root_spec(cv), spend, wall)]
                ws.shows(req.repo@, commit, WORKFLOW_FILE@, raw) && ws.budgets_in(raw, b) && ws.spent(
                    req.repo@,
                    root_spec(cv),
                    spend,
                    wall,
                ) && check_spec(cv, b, spend, wall) == Some(*exhausted);
            assert(check_spec(cv, b, spend, wall) == Some(*exhausted));
        }
    }
    r
}

/// `e` is what a step's error `e0` is answered as: itself, or, where a step
/// other than the budget check reported a refusal, an I/O error.
pub open spec fn passed_on(e0: Error, e: Error) -> bool {
    if e0 is DispatchRefused {
        e is Io
    } else {
        e == e0
    }
}

/// A failure of a step after the budget check, kept apart from a refusal: only the
/// budget check refuses.
fn not_refused<T>(r: Result<T, Error>) -> (o: Result<T, Error>)
    ensures
        o matches Err(e) ==> !(e is DispatchRefused),
        r matches Err(e0) ==> (o matches Err(e) && passed_on(e0, e)),
        r matches Ok(v) ==> o == Ok::<T, Error>(v),
        o is Ok ==> r is Ok,
{
    match r {
        Ok(v) => Ok(v),
        Err(Error::DispatchRefused { child, .. }) => Err(Error::Io(crate::error::other_io_error(child))),
        Err(other) => Err(other),
    }
}

/// A dispatch's answer as a harness-initiated dispatch reports it: success
/// as `Ok(None)`, a refusal as `Ok(Some(exhausted))`, every other error
/// unchanged.
pub open spec fn procedure_spec(r: Result<String, Error>) -> Result<Option<Exhausted>, Error> {
    match r {
        Ok(_) => Ok(None),
        Err(Error::DispatchRefused { exhausted, .. }) => Ok(Some(exhausted)),
        Err(e) => Err(e),
    }
}

/// What a harness-initiated dispatch answers: a budget refusal is the
/// operator's declared ceiling, not the dispatching branch's failure, so
/// it is handed back to be reported and the branch steps on; every other
/// error still propagates.
pub fn procedure_outcome(r: Result<String, Error>) -> (o: Result<Option<Exhausted>, Error>)
    ensures
        o == procedure_spec(r),
        r is Ok ==> o matches Ok(None),
        r matches Err(Error::DispatchRefused { exhausted, .. }) ==> o == Ok::<Option<Exhausted>, Error>(Some(exhausted)),
        r matches Err(e) && !(e is DispatchRefused) ==> o is Err,
        o matches Err(e) ==> !(e is DispatchRefused),
{
    match r {
        Ok(_) => Ok(None),
        Err(Error::DispatchRefused { exhausted, .. }) => Ok(Some(exhausted)),
        Err(other) => Err(other),
    }
}

/// A **harness-initiated** dispatch: the same fork, front door and budget
/// gate as [`run`], differing only in whose failure a refusal is (see
/// [`procedure_outcome`]). `Ok(Some(ex))` is a refusal to report.
pub fn run_procedure<W: Workspace, C: Clock, I: IdGen>(req: &ChildDispatchRequest, ws: &W, clock: &C, id_gen: &I) -> (o:
    Result<Option<Exhausted>, Error>)
    ensures
        exists|ts: Seq<char>, short: Seq<char>, r: Result<String, Error>|
            #[trigger] clock.ticks(ts) && #[trigger] id_gen.mints(short) && #[trigger] dispatch_result(ws, req_view(*req), ts, short, r)
                && o == procedure_spec(r),
        o matches Err(e) ==> !(e is DispatchRefused),
        o matches Ok(None) ==> exists|ts: Seq<char>, short: Seq<char>|
            #[trigger] ws.launches(req.repo@, child_id_spec(req.parent_branch@, ts, short)),
        o matches Ok(Some(ex)) ==> exists|ts: Seq<char>, short: Seq<char>|
            #[trigger] refused_at(child_id_spec(req.parent_branch@, ts, short), ex),
{
    let r = run(req, ws, clock, id_gen);
    proof {
        if let Ok(child) = &r {
            let (ts, short) = choose|ts: Seq<char>, short: Seq<char>|
                child@ == #[trigger] child_id_spec(req.parent_branch@, ts, short);
            assert(ws.launches(req.repo@, child_id_spec(req.parent_branch@, ts, short)));
        }
        if let Err(Error::DispatchRefused { child, exhausted, .. }) = &r {
            let (ts, short) = choose|ts: Seq<char>, short: Seq<char>|
                child@ == #[trigger] child_id_spec(req.parent_branch@, ts, short);
            assert(refused_at(child_id_spec(req.parent_branch@, ts, short), *exhausted));
        }
    }
    procedure_outcome(r)
}

} // verus!
