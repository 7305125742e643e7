//! Per-step landings on the agent branch.
//!
//! Step 1's dispatch commit lays `goal.md` and `soul.md` at the worktree
//! root, removes the config's control files from the agent's tree, and
//! commits — that single commit's tree is the model-read state for step 1.
//! Step ≥2 takes no pre-call commit: the branch tip already represents
//! what the model reads, and its sha is recorded so replay can re-run
//! context assembly against the right tree.

use vstd::prelude::*;
use crate::error::{argv, strs, Error, GitRunner};
use crate::prompt::compactor::merge::with_paths;
use crate::text::append_str;
use crate::workspace::{agent_ref, agent_ref_spec, repo_git, DEFAULT_CONFIG_REF, REPO_GIT};

verus! {

/// Worktree-relative path the conversation's goal is committed at.
pub const GOAL_FILE: &'static str = "goal.md";
/// Worktree-relative path the role's system prompt is committed at.
pub const SOUL_FILE: &'static str = "soul.md";

/// The goal framed at the head of the soul: `<goal>\n{goal}\n</goal>\n\n{soul}`.
pub open spec fn goal_framed(goal: Seq<char>, soul: Seq<char>) -> Seq<char> {
    "<goal>\n"@ + goal + "\n</goal>\n\n"@ + soul
}

/// Prepend the branch's goal to the role's soul so it sits at the head of
/// assembled context.
pub fn prepend_goal(goal: &str, soul: &str) -> (r: String)
    ensures
        r@ == goal_framed(goal@, soul@),
{
    let mut r = String::new();
    append_str(&mut r, "<goal>\n");
    append_str(&mut r, goal);
    append_str(&mut r, "\n</goal>\n\n");
    append_str(&mut r, soul);
    r
}

/// The subject of a step-1 commit of `kind` for `conv_id`:
/// `step 001: <kind> [<conv-id>]`.
pub open spec fn step_one_subject(kind: Seq<char>, conv_id: Seq<char>) -> Seq<char> {
    "step 001: "@ + kind + " ["@ + conv_id + "]"@
}

/// `step 001: <kind> [<conv-id>]`.
pub fn step_one_subject_of(kind: &str, conv_id: &str) -> (r: String)
    ensures
        r@ == step_one_subject(kind@, conv_id@),
{
    let mut r = String::new();
    append_str(&mut r, "step 001: ");
    append_str(&mut r, kind);
    append_str(&mut r, " [");
    append_str(&mut r, conv_id);
    append_str(&mut r, "]");
    r
}

/// `git worktree add -b agents/<id> <worktree_path> config/default`, run
/// against the workspace's bare `repo.git`: fork a fresh root agent off the
/// default config branch's head — the fork is the freeze. Root id
/// uniqueness is structural: the `-b` creation fails if the ref exists.
pub fn spawn_branch<G: GitRunner>(workspace: &str, worktree_path: &str, agent_id: &str, git: &G) -> (r:
    Result<(), Error>)
    ensures
        r is Ok ==> git.succeeds(
            crate::paths::join_spec(workspace@, REPO_GIT@),
            seq!["worktree"@, "add"@, "-b"@, agent_ref_spec(agent_id@), worktree_path@, DEFAULT_CONFIG_REF@],
        ),
        r is Err ==> git.fails(
            crate::paths::join_spec(workspace@, REPO_GIT@),
            seq!["worktree"@, "add"@, "-b"@, agent_ref_spec(agent_id@), worktree_path@, DEFAULT_CONFIG_REF@],
        ),
        r matches Err(e) ==> e matches Error::Git { op, .. } && op@ == "worktree add"@,
{
    let branch_ref = agent_ref(agent_id);
    let dest = repo_git(workspace);
    let args = ["worktree", "add", "-b", branch_ref.as_str(), worktree_path, DEFAULT_CONFIG_REF];
    assert(argv(args@) =~= seq!["worktree"@, "add"@, "-b"@, branch_ref@, worktree_path@, DEFAULT_CONFIG_REF@]);
    match git.run(dest.as_str(), &args) {
        Ok(()) => Ok(()),
        Err(source) => Err(Error::Git { op: "worktree add", source }),
    }
}

/// `rm -r -q --ignore-unmatch -- <paths>`.
pub open spec fn rm_control_args(control: Seq<String>) -> Seq<Seq<char>> {
    seq!["rm"@, "-r"@, "-q"@, "--ignore-unmatch"@, "--"@] + strs(control)
}

/// Stage the removal of the config's control files from the agent's tree:
/// `git rm -r -q --ignore-unmatch -- <paths>`. Total, not conditional:
/// `--ignore-unmatch` makes it a no-op where the tree already lost them.
pub fn remove_control_files<G: GitRunner>(worktree_path: &str, control: &Vec<String>, git: &G) -> (r:
    Result<(), Error>)
    ensures
        r is Ok ==> git.succeeds(worktree_path@, rm_control_args(control@)),
        r is Err ==> git.fails(worktree_path@, rm_control_args(control@)),
        r matches Err(e) ==> e matches Error::Git { op, .. } && op@ == "rm control files"@,
{
    let head = ["rm", "-r", "-q", "--ignore-unmatch", "--"];
    let args = with_paths(&head, control);
    assert(argv(head@) =~= seq!["rm"@, "-r"@, "-q"@, "--ignore-unmatch"@, "--"@]);
    match git.run(worktree_path, args.as_slice()) {
        Ok(()) => Ok(()),
        Err(source) => Err(Error::Git { op: "rm control files", source }),
    }
}

/// Step 1's dispatch commit: remove the control files from
/// the agent's tree, `git add goal.md soul.md`, then commit
/// `step 001: dispatch [<conv-id>]`. The first failing git call names the
/// error; nothing after it runs.
pub fn commit_dispatch<G: GitRunner>(worktree_path: &str, conv_id: &str, control: &Vec<String>, git: &G) -> (r:
    Result<(), Error>)
    ensures
        r is Ok ==> git.succeeds(worktree_path@, rm_control_args(control@)) && git.succeeds(
            worktree_path@,
            seq!["add"@, GOAL_FILE@, SOUL_FILE@],
        ) && git.succeeds(worktree_path@, seq!["commit"@, "-m"@, step_one_subject("dispatch"@, conv_id@)]),
        r matches Err(Error::Git { op, .. }) ==> (op@ == "rm control files"@ && git.fails(worktree_path@, rm_control_args(control@)))
            || (git.succeeds(worktree_path@, rm_control_args(control@)) && crate::prompt::exchange::committed_failed_at(
            git,
            worktree_path@,
            seq!["add"@, GOAL_FILE@, SOUL_FILE@],
            step_one_subject("dispatch"@, conv_id@),
            op@,
        )),
        r matches Err(e) ==> e matches Error::Git { op, .. } && (op@ == "rm control files"@ || op@
            == "add"@ || op@ == "commit"@),
{
    match remove_control_files(worktree_path, control, git) {
        Ok(()) => {},
        Err(e) => return Err(e),
    }
    let add = ["add", GOAL_FILE, SOUL_FILE];
    assert(argv(add@) =~= seq!["add"@, GOAL_FILE@, SOUL_FILE@]);
    if let Err(source) = git.run(worktree_path, &add) {
        return Err(Error::Git { op: "add", source });
    }
    let msg = step_one_subject_of("dispatch", conv_id);
    let commit = ["commit", "-m", msg.as_str()];
    assert(argv(commit@) =~= seq!["commit"@, "-m"@, msg@]);
    match git.run(worktree_path, &commit) {
        Ok(()) => Ok(()),
        Err(source) => Err(Error::Git { op: "commit", source }),
    }
}

/// `rev-parse HEAD`.
pub open spec fn tip_args() -> Seq<Seq<char>> {
    seq!["rev-parse"@, "HEAD"@]
}

/// The branch tip's sha at step start (`git rev-parse HEAD`), as git
/// printed it — recorded so replay can re-run context assembly against
/// the right tree.
pub fn read_branch_tip<G: GitRunner>(worktree_path: &str, git: &G) -> (r: Result<String, Error>)
    ensures
        r matches Ok(sha) ==> git.prints(worktree_path@, tip_args(), sha@),
        r is Err ==> git.fails(worktree_path@, tip_args()),
        r matches Err(e) ==> e matches Error::Git { op, .. } && op@ == "rev-parse"@,
{
    let args = ["rev-parse", "HEAD"];
    assert(argv(args@) =~= tip_args());
    match git.run_capture(worktree_path, &args) {
        Ok(out) => Ok(out),
        Err(source) => Err(Error::Git { op: "rev-parse", source }),
    }
}

} // verus!
