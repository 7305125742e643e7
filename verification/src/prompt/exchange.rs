//! A root conversation's first landing off `main`: spawn
//! the branch as a sibling worktree, commit the step's snapshot before the
//! model call so the commit's tree is exactly what the call reads, then
//! land the response as a follow-up commit — never an amend, so the
//! snapshot's tree keeps reflecting pre-call state for replay.

use vstd::prelude::*;
use crate::error::{argv, Error, GitRunner};
use crate::prompt::dispatch::step_commit::{step_one_subject, step_one_subject_of, GOAL_FILE, SOUL_FILE};
use crate::text::append_str;

verus! {

/// The trunk every root conversation eventually merges into.
pub const TRUNK_BRANCH: &'static str = "main";
/// A step's request record, under its step directory.
pub const REQUEST_FILE: &'static str = "request.json";
/// A step's response record, under its step directory.
pub const RESPONSE_FILE: &'static str = "response.json";

/// `<step-dir>/<file>`.
pub open spec fn step_file(step_dir: Seq<char>, file: Seq<char>) -> Seq<char> {
    step_dir + "/"@ + file
}

/// `<step-dir>/<file>`.
pub fn step_file_of(step_dir: &str, file: &str) -> (r: String)
    ensures
        r@ == step_file(step_dir@, file@),
{
    let mut r = String::new();
    append_str(&mut r, step_dir);
    append_str(&mut r, "/");
    append_str(&mut r, file);
    r
}

/// `git worktree add -b <branch> <worktree_path> main`, inside the primary
/// worktree where `.git` and `main` live: creates the branch ref and
/// checks it out at `worktree_path`.
pub fn spawn_branch<G: GitRunner>(primary_worktree: &str, worktree_path: &str, branch_name: &str, git: &G) -> (r:
    Result<(), Error>)
    ensures
        r is Ok ==> git.succeeds(
            primary_worktree@,
            seq!["worktree"@, "add"@, "-b"@, branch_name@, worktree_path@, TRUNK_BRANCH@],
        ),
        r matches Err(e) ==> e matches Error::Git { op, .. } && op@ == "worktree add"@,
        r is Err ==> git.fails(
            primary_worktree@,
            seq!["worktree"@, "add"@, "-b"@, branch_name@, worktree_path@, TRUNK_BRANCH@],
        ),
{
    let args = ["worktree", "add", "-b", branch_name, worktree_path, TRUNK_BRANCH];
    assert(argv(args@) =~= seq!["worktree"@, "add"@, "-b"@, branch_name@, worktree_path@, TRUNK_BRANCH@]);
    match git.run(primary_worktree, &args) {
        Ok(()) => Ok(()),
        Err(source) => Err(Error::Git { op: "worktree add", source }),
    }
}

/// Which call of an add-then-commit failed with error op `op`: the `add`,
/// or the commit after it.
pub open spec fn committed_failed_at<G: GitRunner>(
    git: &G,
    worktree: Seq<char>,
    add: Seq<Seq<char>>,
    subject: Seq<char>,
    op: Seq<char>,
) -> bool {
    ||| op == "add"@ && git.fails(worktree, add)
    ||| op == "commit"@ && git.succeeds(worktree, add) && git.fails(worktree, seq!["commit"@, "-m"@, subject])
}

/// `git add` a step's files then commit with `subject`; the first failing
/// call names the error.
fn add_and_commit<G: GitRunner>(worktree_path: &str, paths: &[&str], subject: &str, git: &G) -> (r:
    Result<(), Error>)
    ensures
        r is Ok ==> git.succeeds(worktree_path@, seq!["add"@] + argv(paths@)) && git.succeeds(
            worktree_path@,
            seq!["commit"@, "-m"@, subject@],
        ),
        r matches Err(e) ==> e matches Error::Git { op, .. } && (op@ == "add"@ || op@ == "commit"@),
        r matches Err(Error::Git { op, .. }) ==> committed_failed_at(git, worktree_path@, seq!["add"@] + argv(paths@), subject@, op@),
{
    let mut add: Vec<&str> = Vec::new();
    add.push("add");
    let mut i: usize = 0;
    while i < paths.len()
        invariant
            i <= paths@.len(),
            add@ == seq!["add"] + paths@.take(i as int),
        decreases paths.len() - i,
    {
        add.push(paths[i]);
        i += 1;
    }
    assert(paths@.take(paths@.len() as int) =~= paths@);
    assert(argv(add@) =~= seq!["add"@] + argv(paths@));
    if let Err(source) = git.run(worktree_path, add.as_slice()) {
        return Err(Error::Git { op: "add", source });
    }
    let commit = ["commit", "-m", subject];
    assert(argv(commit@) =~= seq!["commit"@, "-m"@, subject@]);
    match git.run(worktree_path, &commit) {
        Ok(()) => Ok(()),
        Err(source) => Err(Error::Git { op: "commit", source }),
    }
}

/// Commit the step's snapshot — `goal.md`, `soul.md` and the step's
/// `request.json` — as `step 001: dispatch [<conv-id>]`, so history stays
/// legible to `git log` alone.
pub fn commit_snapshot<G: GitRunner>(worktree_path: &str, step_dir_rel: &str, conv_id: &str, git: &G) -> (r:
    Result<(), Error>)
    ensures
        r is Ok ==> git.succeeds(
            worktree_path@,
            seq!["add"@, GOAL_FILE@, SOUL_FILE@, step_file(step_dir_rel@, REQUEST_FILE@)],
        ) && git.succeeds(
            worktree_path@,
            seq!["commit"@, "-m"@, step_one_subject("dispatch"@, conv_id@)],
        ),
        r matches Err(e) ==> e matches Error::Git { op, .. } && (op@ == "add"@ || op@ == "commit"@),
        r matches Err(Error::Git { op, .. }) ==> committed_failed_at(
            git,
            worktree_path@,
            seq!["add"@, GOAL_FILE@, SOUL_FILE@, step_file(step_dir_rel@, REQUEST_FILE@)],
            step_one_subject("dispatch"@, conv_id@),
            op@,
        ),
{
    let request = step_file_of(step_dir_rel, REQUEST_FILE);
    let msg = step_one_subject_of("dispatch", conv_id);
    let paths = [GOAL_FILE, SOUL_FILE, request.as_str()];
    assert(seq!["add"@] + argv(paths@) =~= seq!["add"@, GOAL_FILE@, SOUL_FILE@, request@]);
    add_and_commit(worktree_path, &paths, msg.as_str(), git)
}

/// The follow-up commit: `git add` the step's `response.json` and commit
/// it as `step 001: response [<conv-id>]`.
pub fn commit_response<G: GitRunner>(worktree_path: &str, step_dir_rel: &str, conv_id: &str, git: &G) -> (r:
    Result<(), Error>)
    ensures
        r is Ok ==> git.succeeds(worktree_path@, seq!["add"@, step_file(step_dir_rel@, RESPONSE_FILE@)])
            && git.succeeds(
            worktree_path@,
            seq!["commit"@, "-m"@, step_one_subject("response"@, conv_id@)],
        ),
        r matches Err(e) ==> e matches Error::Git { op, .. } && (op@ == "add"@ || op@ == "commit"@),
        r matches Err(Error::Git { op, .. }) ==> committed_failed_at(
            git,
            worktree_path@,
            seq!["add"@, step_file(step_dir_rel@, RESPONSE_FILE@)],
            step_one_subject("response"@, conv_id@),
            op@,
        ),
{
    let response = step_file_of(step_dir_rel, RESPONSE_FILE);
    let msg = step_one_subject_of("response", conv_id);
    let paths = [response.as_str()];
    assert(seq!["add"@] + argv(paths@) =~= seq!["add"@, response@]);
    add_and_commit(worktree_path, &paths, msg.as_str(), git)
}

/// A root conversation's id: `<ts>-<short>`, also its branch name.
pub open spec fn root_id(ts: Seq<char>, short: Seq<char>) -> Seq<char> {
    ts + "-"@ + short
}

/// How an exchange begins once its id is minted and its inbox lock tried.
#[derive(Debug, PartialEq, Eq)]
pub enum ExchangeStart {
    /// Another driver holds the new branch's lock: spawn nothing and answer
    /// the id.
    AlreadyDriven(String),
    /// The lock is ours: spawn the branch named by the id and run.
    Spawn(String),
}

/// The start of an exchange: the id `<ts>-<short>` is answered either way;
/// only a held lock keeps the branch from being spawned.
pub fn exchange_start(ts: &str, short: &str, acquired: bool) -> (r: ExchangeStart)
    ensures
        match r {
            ExchangeStart::AlreadyDriven(id) => !acquired && id@ == root_id(ts@, short@),
            ExchangeStart::Spawn(id) => acquired && id@ == root_id(ts@, short@),
        },
{
    let mut id = String::new();
    append_str(&mut id, ts);
    append_str(&mut id, "-");
    append_str(&mut id, short);
    if acquired {
        ExchangeStart::Spawn(id)
    } else {
        ExchangeStart::AlreadyDriven(id)
    }
}

} // verus!
