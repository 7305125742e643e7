//! Checkpoint trigger evaluation.
//!
//! Compaction runs at **checkpoints** during a branch's execution. The
//! triggers are declared in the governing `workflow.yaml` `compaction:`
//! block — `every_n_commits`, `every_t_seconds`, or the agent-elected
//! `on_flush` — and read at the step boundary. A branch with no configured
//! trigger never compacts.
//!
//! [`due`] is a pure predicate over the config and a [`CheckpointState`];
//! [`state`] derives that state from git. Two invariants govern
//! eligibility: the clock starts at the branch's own founding commit
//! (never its inherited history), and a compactor is never
//! compaction-eligible — it *is* the compaction, not a subject of one.

use vstd::prelude::*;
use crate::error::{argv, Error, GitRunner};
use crate::prompt::role;
use crate::ui::opt_chars;
use crate::text::{
    append_str, chars_of, lines, lines_of, parse_u32, parse_u32_spec, parse_u64, parse_u64_spec,
    string_of, trim, trim_chars, views,
};
use super::COMPACTOR_ROLE;

verus! {

/// Subject prefix of a compaction-merge commit. The most recent such commit
/// marks the last checkpoint.
pub const MERGE_SUBJECT_PREFIX: &'static str = "compaction merge [";

/// Which clock a `compaction:` block runs on.
#[derive(Debug, Clone, Copy, PartialEq, Eq, Structural)]
pub enum CompactionTrigger {
    EveryNCommits,
    EveryTSeconds,
    OnFlush,
}

/// The intermediate (checkpoint) compaction declaration.
#[derive(Debug, Clone, Copy, PartialEq, Eq, Structural)]
pub struct IntermediateCompaction {
    pub trigger: CompactionTrigger,
    /// The threshold for the clock triggers; absent or zero never fires.
    pub n: Option<u32>,
    /// How many recent transcript entries a compactor leaves alone.
    pub keep_recent: Option<u32>,
}

/// The `compaction:` block of `workflow.yaml`.
#[derive(Debug, Clone, Copy, PartialEq, Eq, Structural)]
pub struct CompactionConfig {
    pub intermediate: IntermediateCompaction,
}

/// Branch state a checkpoint trigger is evaluated against. Every field
/// is a live derivation, never a stored counter.
#[derive(Debug, Clone, Copy, PartialEq, Eq, Structural)]
pub struct CheckpointState {
    /// Commits on the branch since its last checkpoint (or its founding).
    pub commits_since_checkpoint: u32,
    /// Wall-clock seconds since the last checkpoint commit, saturating at 0.
    pub seconds_since_checkpoint: u64,
    /// The agent elected a flush this boundary.
    pub flush_requested: bool,
    /// This branch is itself a compactor.
    pub is_compactor: bool,
}

/// A clock reading `v` meets the threshold `n`: present, positive, reached.
pub open spec fn meets(n: Option<u32>, v: u64) -> bool {
    n is Some && n->0 > 0 && v >= n->0
}

/// Whether a checkpoint is due: never for a compactor, never without a
/// configured trigger; otherwise the trigger's own predicate.
pub open spec fn due_spec(cfg: Option<CompactionConfig>, st: CheckpointState) -> bool {
    if st.is_compactor {
        false
    } else {
        match cfg {
            None => false,
            Some(c) => match c.intermediate.trigger {
                CompactionTrigger::EveryNCommits => meets(
                    c.intermediate.n,
                    st.commits_since_checkpoint as u64,
                ),
                CompactionTrigger::EveryTSeconds => meets(
                    c.intermediate.n,
                    st.seconds_since_checkpoint,
                ),
                CompactionTrigger::OnFlush => st.flush_requested,
            },
        }
    }
}

fn threshold(n: Option<u32>, v: u64) -> (b: bool)
    ensures
        b == meets(n, v),
{
    match n {
        Some(n) => n > 0 && v >= n as u64,
        None => false,
    }
}

/// Whether a checkpoint is due this boundary — the one home of compaction
/// eligibility. `None` config never compacts, a compactor is never
/// eligible, and an absent or zero threshold is never due, so a malformed
/// config fails closed rather than compacting every step.
pub fn due(cfg: Option<&CompactionConfig>, state: &CheckpointState) -> (b: bool)
    ensures
        b == due_spec(
            match cfg {
                Some(c) => Some(*c),
                None => None,
            },
            *state,
        ),
{
    if state.is_compactor {
        return false;
    }
    match cfg {
        None => false,
        Some(cfg) => match cfg.intermediate.trigger {
            CompactionTrigger::EveryNCommits => threshold(
                cfg.intermediate.n,
                state.commits_since_checkpoint as u64,
            ),
            CompactionTrigger::EveryTSeconds => threshold(
                cfg.intermediate.n,
                state.seconds_since_checkpoint,
            ),
            CompactionTrigger::OnFlush => state.flush_requested,
        },
    }
}

/// A count printed by `git rev-list --count`: the trimmed output parsed,
/// or 0 when it does not parse.
pub open spec fn count_of_spec(out: Seq<char>) -> u32 {
    match parse_u32_spec(trim(out)) {
        Some(n) => n,
        None => 0,
    }
}

/// Parse `git rev-list --count` output.
pub fn count_of(out: &str) -> (n: u32)
    ensures
        n == count_of_spec(out@),
{
    let v = chars_of(out);
    let t = trim_chars(&v);
    match parse_u32(&t) {
        Some(n) => n,
        None => 0,
    }
}

/// A timestamp printed by `git log --format=%ct`: the trimmed output
/// parsed, or 0 when it does not parse.
pub open spec fn time_of_spec(out: Seq<char>) -> u64 {
    match parse_u64_spec(trim(out)) {
        Some(n) => n,
        None => 0,
    }
}

/// Parse `git log --format=%ct` output.
pub fn time_of(out: &str) -> (n: u64)
    ensures
        n == time_of_spec(out@),
{
    let v = chars_of(out);
    let t = trim_chars(&v);
    match parse_u64(&t) {
        Some(n) => n,
        None => 0,
    }
}

/// The last line of `out`, trimmed — the eldest root `git rev-list
/// --max-parents=0` lists — or empty when there is none.
pub open spec fn last_line_spec(out: Seq<char>) -> Seq<char> {
    let ls = lines_of(out);
    if ls.len() == 0 {
        Seq::empty()
    } else {
        trim(ls.last())
    }
}

/// [`last_line_spec`], computed.
pub fn last_line(out: &str) -> (s: String)
    ensures
        s@ == last_line_spec(out@),
{
    let v = chars_of(out);
    let ls = lines(&v);
    if ls.len() == 0 {
        String::new()
    } else {
        proof {
            assert(views(ls@).last() == ls@[ls@.len() - 1]@);
        }
        let t = trim_chars(&ls[ls.len() - 1]);
        string_of(&t)
    }
}

/// The sha `git log -n 1 --format=%H` printed, trimmed; `None` when the
/// query found nothing.
pub open spec fn sha_of_spec(out: Seq<char>) -> Option<Seq<char>> {
    if trim(out).len() == 0 {
        None
    } else {
        Some(trim(out))
    }
}

/// Parse a single-sha `git log` answer.
pub fn sha_of(out: &str) -> (r: Option<String>)
    ensures
        match r {
            Some(s) => sha_of_spec(out@) == Some(s@),
            None => sha_of_spec(out@) is None,
        },
{
    let v = chars_of(out);
    let t = trim_chars(&v);
    if t.len() == 0 {
        None
    } else {
        Some(string_of(&t))
    }
}

/// `literal` with each `[` escaped as `\[`, so a literal subject prefix
/// reads as a literal under `git log -E`.
pub open spec fn escape_brackets(s: Seq<char>) -> Seq<char>
    decreases s.len(),
{
    if s.len() == 0 {
        Seq::empty()
    } else {
        escape_brackets(s.drop_last()) + if s.last() == '[' {
            seq!['\\', '[']
        } else {
            seq![s.last()]
        }
    }
}

/// Escape the one regex metacharacter a commit-subject prefix constant can
/// carry (`[`), keeping both `--grep` patterns of [`origin`] in one dialect.
pub fn regex_escape_brackets(literal: &str) -> (r: String)
    ensures
        r@ == escape_brackets(literal@),
{
    let v = chars_of(literal);
    let mut out: Vec<char> = Vec::new();
    let mut i: usize = 0;
    while i < v.len()
        invariant
            i <= v.len(),
            out@ == escape_brackets(v@.take(i as int)),
        decreases v.len() - i,
    {
        proof {
            assert(v@.take(i + 1).drop_last() =~= v@.take(i as int));
        }
        if v[i] == '[' {
            out.push('\\');
            out.push('[');
            proof {
                assert(out@ =~= escape_brackets(v@.take(i as int)) + seq!['\\', '[']);
            }
        } else {
            out.push(v[i]);
            proof {
                assert(out@ =~= escape_brackets(v@.take(i as int)) + seq![v@[i as int]]);
            }
        }
        i += 1;
    }
    proof {
        assert(v@.take(v.len() as int) =~= v@);
    }
    string_of(&out)
}

/// The `git log` answer naming where `agent_id`'s checkpoint clock starts:
/// the newest commit on `HEAD` that founds this branch (subject ending
/// `[<agent-id>]`) or is a compaction merge. The two `--grep` patterns are
/// OR'd, so one query answers it; `None` when neither is reachable.
pub fn origin<G: GitRunner>(worktree: &str, agent_id: &str, git: &G) -> (r: Result<
    Option<String>,
    Error,
>)
    ensures
        r matches Err(e) ==> e matches Error::Git { op, .. } && op@ == "checkpoint log grep"@,
        r matches Ok(Some(sha)) ==> sha@.len() > 0,
        r matches Ok(sha) ==> exists|out: Seq<char>|
            #[trigger] git.prints(worktree@, origin_args("HEAD"@, agent_id@), out) && opt_chars(sha) == sha_of_spec(out),
        r is Err ==> git.fails(worktree@, origin_args("HEAD"@, agent_id@)),
{
    origin_at(worktree, "HEAD", agent_id, git)
}

/// The `^compaction merge \[` pattern: a compaction merge's subject, as
/// an extended regex.
pub fn landing_subject_pattern() -> (r: String)
    ensures
        r@ == "^"@ + escape_brackets(MERGE_SUBJECT_PREFIX@),
{
    let mut merged = String::new();
    append_str(&mut merged, "^");
    let escaped = regex_escape_brackets(MERGE_SUBJECT_PREFIX);
    append_str(&mut merged, escaped.as_str());
    merged
}

/// `log -n 1 --format=%H -E --grep <founding> --grep <landing> <rev>`.
pub open spec fn origin_args(rev: Seq<char>, agent_id: Seq<char>) -> Seq<Seq<char>> {
    seq![
        "log"@,
        "-n"@,
        "1"@,
        "--format=%H"@,
        "-E"@,
        "--grep"@,
        role::founding_pattern(agent_id),
        "--grep"@,
        "^"@ + escape_brackets(MERGE_SUBJECT_PREFIX@),
        rev,
    ]
}

/// `rev-list --count <range>`, the range `<last>..HEAD` or `HEAD`.
pub open spec fn count_args(last: Option<Seq<char>>) -> Seq<Seq<char>> {
    seq![
        "rev-list"@,
        "--count"@,
        match last {
            Some(sha) => sha + "..HEAD"@,
            None => "HEAD"@,
        },
    ]
}

/// `rev-list --max-parents=0 <rev>`.
pub open spec fn root_args(rev: Seq<char>) -> Seq<Seq<char>> {
    seq!["rev-list"@, "--max-parents=0"@, rev]
}

/// `log -n 1 --format=%ct <rev>`.
pub open spec fn time_args(rev: Seq<char>) -> Seq<Seq<char>> {
    seq!["log"@, "-n"@, "1"@, "--format=%ct"@, rev]
}

/// Where `agent_id`'s checkpoint clock starts as of `rev`: the newest
/// commit reachable from `rev` that founds the branch or is a compaction
/// merge; `None` when neither is.
pub fn origin_at<G: GitRunner>(worktree: &str, rev: &str, agent_id: &str, git: &G) -> (r: Result<
    Option<String>,
    Error,
>)
    ensures
        r matches Err(e) ==> e matches Error::Git { op, .. } && op@ == "checkpoint log grep"@,
        r matches Ok(Some(sha)) ==> sha@.len() > 0,
        r matches Ok(sha) ==> exists|out: Seq<char>|
            #[trigger] git.prints(worktree@, origin_args(rev@, agent_id@), out) && opt_chars(sha) == sha_of_spec(out),
        r is Err ==> git.fails(worktree@, origin_args(rev@, agent_id@)),
{
    let founding = role::founding_pattern_of(agent_id);
    let merged = landing_subject_pattern();
    let args = [
        "log",
        "-n",
        "1",
        "--format=%H",
        "-E",
        "--grep",
        founding.as_str(),
        "--grep",
        merged.as_str(),
        rev,
    ];
    assert(argv(args@) =~= origin_args(rev@, agent_id@));
    match git.run_capture(worktree, &args) {
        Err(source) => Err(Error::Git { op: "checkpoint log grep", source }),
        Ok(out) => Ok(sha_of(out.as_str())),
    }
}

/// Count commits on `HEAD` after `last` (exclusive), or the whole branch
/// when `last` is `None`.
pub fn commits_since<G: GitRunner>(worktree: &str, last: Option<&str>, git: &G) -> (r: Result<
    u32,
    Error,
>)
    ensures
        r matches Err(e) ==> e matches Error::Git { op, .. } && op@ == "checkpoint rev-list count"@,
        r matches Ok(n) ==> exists|out: Seq<char>|
            #[trigger] git.prints(
                worktree@,
                count_args(crate::paths::opt_view(last)),
                out,
            ) && n == count_of_spec(out),
        r is Err ==> git.fails(worktree@, count_args(crate::paths::opt_view(last))),
{
    let mut range = String::new();
    match last {
        Some(sha) => {
            append_str(&mut range, sha);
            append_str(&mut range, "..HEAD");
        },
        None => append_str(&mut range, "HEAD"),
    }
    let args = ["rev-list", "--count", range.as_str()];
    assert(argv(args@) =~= count_args(crate::paths::opt_view(last)));
    match git.run_capture(worktree, &args) {
        Err(source) => Err(Error::Git { op: "checkpoint rev-list count", source }),
        Ok(out) => Ok(count_of(out.as_str())),
    }
}

/// The branch's root commit (its eldest parentless commit).
pub fn root_commit<G: GitRunner>(worktree: &str, git: &G) -> (r: Result<String, Error>)
    ensures
        r matches Err(e) ==> e matches Error::Git { op, .. } && op@ == "checkpoint root rev-list"@,
        r matches Ok(root) ==> exists|out: Seq<char>|
            #[trigger] git.prints(worktree@, root_args("HEAD"@), out) && root@ == last_line_spec(out),
        r is Err ==> git.fails(worktree@, root_args("HEAD"@)),
{
    root_commit_at(worktree, "HEAD", git)
}

/// The eldest parentless commit reachable from `rev`: the last line of
/// `git rev-list --max-parents=0 <rev>`, trimmed.
pub fn root_commit_at<G: GitRunner>(worktree: &str, rev: &str, git: &G) -> (r: Result<String, Error>)
    ensures
        r matches Err(e) ==> e matches Error::Git { op, .. } && op@ == "checkpoint root rev-list"@,
        r matches Ok(root) ==> exists|out: Seq<char>|
            #[trigger] git.prints(worktree@, root_args(rev@), out) && root@ == last_line_spec(out),
        r is Err ==> git.fails(worktree@, root_args(rev@)),
{
    let args = ["rev-list", "--max-parents=0", rev];
    assert(argv(args@) =~= root_args(rev@));
    match git.run_capture(worktree, &args) {
        Err(source) => Err(Error::Git { op: "checkpoint root rev-list", source }),
        Ok(out) => Ok(last_line(out.as_str())),
    }
}

/// Committer Unix timestamp of the reference commit: `last` when one
/// exists, else the branch's root commit.
pub fn checkpoint_time<G: GitRunner>(worktree: &str, last: &Option<String>, git: &G) -> (r:
    Result<u64, Error>)
    ensures
        r matches Err(e) ==> e matches Error::Git { op, .. } && (op@ == "checkpoint root rev-list"@ || op@
            == "checkpoint commit time"@),
        last is Some ==> (r matches Err(Error::Git { op, .. }) ==> op@
            == "checkpoint commit time"@),
        r matches Ok(t) ==> time_read(git, worktree@, opt_chars(*last), t),
        r matches Err(Error::Git { op, .. }) ==> time_failed_at(git, worktree@, opt_chars(*last), op@),
{
    let reference = match last {
        Some(sha) => sha.clone(),
        None => match root_commit(worktree, git) {
            Ok(root) => root,
            Err(e) => return Err(e),
        },
    };
    let args = ["log", "-n", "1", "--format=%ct", reference.as_str()];
    assert(argv(args@) =~= time_args(reference@));
    match git.run_capture(worktree, &args) {
        Err(source) => Err(Error::Git { op: "checkpoint commit time", source }),
        Ok(out) => Ok(time_of(out.as_str())),
    }
}

/// `t` is the commit time git printed for the checkpoint reference: `last`
/// where there is one, else the last root commit git listed.
pub open spec fn time_read<G: GitRunner>(git: &G, worktree: Seq<char>, last: Option<Seq<char>>, t: u64) -> bool {
    exists|reference: Seq<char>, out: Seq<char>|
        #[trigger] git.prints(worktree, time_args(reference), out) && t == time_of_spec(out) && match last {
            Some(sha) => reference == sha,
            None => exists|roots: Seq<char>|
                #[trigger] git.prints(worktree, root_args("HEAD"@), roots) && reference == last_line_spec(roots),
        }
}

/// Which query of the checkpoint time failed with error op `op`: the root
/// listing (with no `last`), or the time of the reference commit.
pub open spec fn time_failed_at<G: GitRunner>(git: &G, worktree: Seq<char>, last: Option<Seq<char>>, op: Seq<char>) -> bool {
    ||| op == "checkpoint root rev-list"@ && last is None && git.fails(worktree, root_args("HEAD"@))
    ||| op == "checkpoint commit time"@ && match last {
        Some(sha) => git.fails(worktree, time_args(sha)),
        None => exists|roots: Seq<char>|
            #[trigger] git.prints(worktree, root_args("HEAD"@), roots) && git.fails(worktree, time_args(last_line_spec(roots))),
    }
}

/// Which query of a checkpoint state failed with error op `op`, each after
/// every query before it answered: the origin, the commit count, the
/// checkpoint time, the founding subject.
pub open spec fn state_failed_at<G: GitRunner>(git: &G, worktree: Seq<char>, agent_id: Seq<char>, op: Seq<char>) -> bool {
    ||| op == "checkpoint log grep"@ && git.fails(worktree, origin_args("HEAD"@, agent_id))
    ||| exists|origin_out: Seq<char>|
        #[trigger] git.prints(worktree, origin_args("HEAD"@, agent_id), origin_out) && {
            let last = sha_of_spec(origin_out);
            ||| op == "checkpoint rev-list count"@ && git.fails(worktree, count_args(last))
            ||| (exists|count_out: Seq<char>| #[trigger] git.prints(worktree, count_args(last), count_out)) && {
                ||| time_failed_at(git, worktree, last, op)
                ||| op == "role founding subject"@ && (exists|t: u64| #[trigger] time_read(git, worktree, last, t))
                    && git.fails(worktree, role::founding_log_args("--format=%s"@, "HEAD"@, agent_id))
            }
        }
}

/// `s` is the checkpoint state of `agent_id` as git answered each query:
/// its origin, the commits since it, the reference commit's time against
/// `now_unix`, and whether the branch's founding subject names a compactor.
pub open spec fn state_read<G: GitRunner>(
    git: &G,
    worktree: Seq<char>,
    agent_id: Seq<char>,
    now_unix: u64,
    flush_requested: bool,
    s: CheckpointState,
) -> bool {
    &&& s.flush_requested == flush_requested
    &&& exists|origin_out: Seq<char>|
        #[trigger] git.prints(worktree, origin_args("HEAD"@, agent_id), origin_out) && (exists|count_out: Seq<char>|
            #[trigger] git.prints(worktree, count_args(sha_of_spec(origin_out)), count_out)
                && s.commits_since_checkpoint == count_of_spec(count_out)) && exists|t: u64|
            #[trigger] time_read(git, worktree, sha_of_spec(origin_out), t) && s.seconds_since_checkpoint == (if now_unix
                >= t {
                now_unix - t
            } else {
                0
            })
    &&& exists|sub: Seq<char>|
        #[trigger] git.prints(worktree, role::founding_log_args("--format=%s"@, "HEAD"@, agent_id), sub)
            && s.is_compactor == (role::role_of_subject_spec(role::first_subject(sub), agent_id) == Some(COMPACTOR_ROLE@))
}

/// Derive [`CheckpointState`] for `agent_id`, whose branch is checked out
/// at `worktree`. `now_unix` is the current wall clock in Unix seconds and
/// `flush_requested` the agent-elected input; the commit count and the
/// checkpoint timestamp both measure from [`origin`], so inherited history
/// is never counted as this branch's own.
pub fn state<G: GitRunner>(
    worktree: &str,
    agent_id: &str,
    now_unix: u64,
    flush_requested: bool,
    git: &G,
) -> (r: Result<CheckpointState, Error>)
    ensures
        r matches Ok(s) ==> s.flush_requested == flush_requested && s.seconds_since_checkpoint
            <= now_unix,
        r matches Ok(s) ==> state_read(git, worktree@, agent_id@, now_unix, flush_requested, s),
        r matches Err(e) ==> e matches Error::Git { op, .. } && (op@ == "checkpoint log grep"@ || op@
            == "checkpoint rev-list count"@ || op@ == "checkpoint root rev-list"@ || op@
            == "checkpoint commit time"@ || op@ == "role founding subject"@),
        r matches Err(Error::Git { op, .. }) ==> state_failed_at(git, worktree@, agent_id@, op@),
{
    let last = match origin(worktree, agent_id, git) {
        Ok(l) => l,
        Err(e) => return Err(e),
    };
    let ghost origin_out = choose|out: Seq<char>|
        #[trigger] git.prints(worktree@, origin_args("HEAD"@, agent_id@), out) && opt_chars(last) == sha_of_spec(out);
    let counted = match &last {
        Some(sha) => commits_since(worktree, Some(sha.as_str()), git),
        None => commits_since(worktree, None, git),
    };
    let commits = match counted {
        Ok(n) => n,
        Err(e) => return Err(e),
    };
    assert(exists|count_out: Seq<char>|
        #[trigger] git.prints(worktree@, count_args(sha_of_spec(origin_out)), count_out)
            && commits == count_of_spec(count_out));
    let t = match checkpoint_time(worktree, &last, git) {
        Ok(t) => t,
        Err(e) => return Err(e),
    };
    let seconds = if now_unix >= t {
        now_unix - t
    } else {
        0
    };
    let derived = match role::derive(worktree, "HEAD", agent_id, git) {
        Ok(d) => d,
        Err(e) => return Err(e),
    };
    let is_compactor = match &derived {
        Some(r) => crate::order::same_chars(&chars_of(r.as_str()), &chars_of(COMPACTOR_ROLE)),
        None => false,
    };
    assert(is_compactor == (opt_chars(derived) == Some(COMPACTOR_ROLE@)));
    Ok(
        CheckpointState {
            commits_since_checkpoint: commits,
            seconds_since_checkpoint: seconds,
            flush_requested,
            is_compactor,
        },
    )
}

// ---- laws ------------------------------------------------------------------

/// A compactor is never compaction-eligible, whatever the config, count,
/// elapsed time or elected flush — compacting it would fork a compactor off
/// a compactor.
pub proof fn law_compactor_never_due(cfg: Option<CompactionConfig>, st: CheckpointState)
    requires
        st.is_compactor,
    ensures
        !due_spec(cfg, st),
{
}

/// A branch with no `compaction:` block never compacts.
pub proof fn law_unconfigured_never_due(st: CheckpointState)
    ensures
        !due_spec(None, st),
{
}

/// The clocks only move forward: a checkpoint due at some count, elapsed
/// time and flush stays due at any later count and elapsed time.
pub proof fn law_due_monotone(cfg: Option<CompactionConfig>, st: CheckpointState, later: CheckpointState)
    requires
        due_spec(cfg, st),
        later.is_compactor == st.is_compactor,
        later.flush_requested == st.flush_requested,
        later.commits_since_checkpoint >= st.commits_since_checkpoint,
        later.seconds_since_checkpoint >= st.seconds_since_checkpoint,
    ensures
        due_spec(cfg, later),
{
}

/// **A configured clock fires exactly when it reaches its threshold**: for
/// a non-compactor under a positive threshold `n`, an `every_n_commits`
/// trigger is due exactly when at least `n` commits were counted, an
/// `every_t_seconds` trigger exactly when at least `n` seconds passed, and
/// `on_flush` exactly when a flush was elected; an absent or zero `n`
/// never fires a clock.
pub proof fn law_due_exactly_at_the_threshold(c: CompactionConfig, st: CheckpointState)
    requires
        !st.is_compactor,
    ensures
        c.intermediate.trigger == CompactionTrigger::EveryNCommits ==> (due_spec(Some(c), st) <==> (
        c.intermediate.n matches Some(n) && n > 0 && st.commits_since_checkpoint >= n)),
        c.intermediate.trigger == CompactionTrigger::EveryTSeconds ==> (due_spec(Some(c), st) <==> (
        c.intermediate.n matches Some(n) && n > 0 && st.seconds_since_checkpoint >= n)),
        c.intermediate.trigger == CompactionTrigger::OnFlush ==> (due_spec(Some(c), st)
            <==> st.flush_requested),
        (c.intermediate.n matches Some(n) ==> n == 0) && c.intermediate.trigger != CompactionTrigger::OnFlush
            ==> !due_spec(Some(c), st),
{
}

/// **Commits are counted from the origin, never over inherited history**:
/// in a checkpoint state read from git, where the origin query named a
/// commit `sha`, the commit count is what `rev-list --count <sha>..HEAD`
/// printed; only where it named none is it the count of all of `HEAD`.
pub proof fn law_commits_counted_since_the_origin<G: GitRunner>(
    git: &G,
    worktree: Seq<char>,
    agent_id: Seq<char>,
    now_unix: u64,
    flush_requested: bool,
    s: CheckpointState,
)
    requires
        state_read(git, worktree, agent_id, now_unix, flush_requested, s),
    ensures
        exists|origin_out: Seq<char>|
            #[trigger] git.prints(worktree, origin_args("HEAD"@, agent_id), origin_out) && (sha_of_spec(
                origin_out,
            ) matches Some(sha) ==> exists|count_out: Seq<char>|
                #[trigger] git.prints(
                    worktree,
                    Seq::empty().push("rev-list"@).push("--count"@).push(sha + "..HEAD"@),
                    count_out,
                )
                    && s.commits_since_checkpoint == count_of_spec(count_out)) && (sha_of_spec(origin_out) is None
                ==> exists|count_out: Seq<char>|
                #[trigger] git.prints(
                    worktree,
                    Seq::empty().push("rev-list"@).push("--count"@).push("HEAD"@),
                    count_out,
                )
                    && s.commits_since_checkpoint == count_of_spec(count_out)),
{
    let origin_out = choose|o: Seq<char>|
        #[trigger] git.prints(worktree, origin_args("HEAD"@, agent_id), o) && exists|c: Seq<char>|
            #[trigger] git.prints(worktree, count_args(sha_of_spec(o)), c) && s.commits_since_checkpoint
                == count_of_spec(c);
    let count_out = choose|count_out: Seq<char>|
        #[trigger] git.prints(worktree, count_args(sha_of_spec(origin_out)), count_out)
            && s.commits_since_checkpoint == count_of_spec(count_out);
    match sha_of_spec(origin_out) {
        Some(sha) => {
            assert(count_args(sha_of_spec(origin_out)) =~= Seq::empty().push("rev-list"@).push("--count"@).push(
                sha + "..HEAD"@,
            ));
        },
        None => {
            assert(count_args(sha_of_spec(origin_out)) =~= Seq::empty().push("rev-list"@).push("--count"@).push(
                "HEAD"@,
            ));
        },
    }
}

} // verus!
