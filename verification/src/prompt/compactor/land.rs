//! Landing a returning compactor's pass: where the pass begins and
//! ends on the dispatching branch, and the replay of everything after it.
//!
//! **The span.** The compaction point `P` is the parent of the compactor's
//! own dispatch commit — the commit it forked off. The span's lower bound
//! is the dispatching branch's checkpoint origin as of `P` (its founding
//! commit or its last compaction, whichever is newer), falling back to the
//! root commit. The pass is **superseded** when another compaction landed
//! since `P`: the point no longer reaches `HEAD`, or a compaction — or any
//! merge — sits inside `P..HEAD`.
//!
//! **The replay.** `git rebase --empty=keep --onto <base> <P> <branch>`
//! re-lands each commit after `P` in order and moves the branch to the
//! result. Transcript entries are one immutable file each, so the replay
//! is conflict-free by construction; where git stops anyway, the index
//! stages say which case it is. Stages 1 and 3 alone — the replayed
//! commit rewrote a work product the compaction deleted — resolve
//! **live-branch-wins** by staging the live content. Anything else is
//! declined loudly: the rebase is aborted, the branch is exactly as it
//! was, and `refs/lernie/conflicted/<compactor-id>` marks the compactor's
//! tip. The loop is bounded by the number of commits replayed: more stops
//! than commits means git is making no progress, and the landing aborts
//! rather than spins.

use vstd::prelude::*;
use crate::error::{argv, other_io_error, strs, Error, GitRunner};
use crate::prompt::dispatch::gate::ancestor_args;
use crate::prompt::compactor::stages::stages_spec;
use crate::text::{blank, trim};
use crate::prompt::compactor::checkpoint::{
    escape_brackets, landing_subject_pattern, last_line_spec, origin_args, origin_at, root_args, root_commit_at, sha_of_spec,
    MERGE_SUBJECT_PREFIX,
};
use crate::prompt::role::founding_log_args;
use crate::prompt::compactor::merge::with_paths;
use crate::prompt::compactor::stages::{paths_of, unmerged_stages, Unmerged};
use crate::text::{append_str, chars_of, is_blank, parse_u32, trim_chars};
use crate::workspace::{agent_ref, agent_ref_spec, conflicted_ref, CONFLICTED_REF_PREFIX};

verus! {

/// What a landing did.
#[derive(Debug, PartialEq, Eq)]
pub enum LandOutcome {
    /// The replay finished and the branch moved to its tip.
    Landed,
    /// The replay stopped on these paths and was declined.
    Conflicted(Vec<String>),
}

/// A current (un-superseded) compaction span, ready to land.
#[derive(Debug)]
pub struct Span {
    /// The compactor's dispatch commit on its own branch.
    pub dispatch: String,
    /// The compaction point `P` — the commit the compactor forked off.
    pub point: String,
    /// The span's lower bound — everything between it and `P` is squashed.
    pub bound: String,
}

/// `<from>..HEAD`.
fn range_to_head(from: &str) -> (r: String)
    ensures
        r@ == from@ + "..HEAD"@,
{
    let mut r = String::new();
    append_str(&mut r, from);
    append_str(&mut r, "..HEAD");
    r
}

/// Whether `point` still reaches `HEAD` (`git merge-base --is-ancestor`,
/// answered by exit code). A non-zero exit reads as "no", the safe
/// direction: a pass that cannot prove its point lands nothing.
pub fn reaches<G: GitRunner>(parent_worktree: &str, point: &str, git: &G) -> (b: bool)
    ensures
        b ==> git.succeeds(parent_worktree@, ancestor_args(point@, "HEAD"@)),
        !b ==> git.fails(parent_worktree@, ancestor_args(point@, "HEAD"@)),
{
    let args = ["merge-base", "--is-ancestor", point, "HEAD"];
    assert(argv(args@) =~= ancestor_args(point@, "HEAD"@));
    git.run(parent_worktree, &args).is_ok()
}

/// `rev-list -E --grep <landing pattern> <point>..HEAD`.
pub open spec fn landings_args(point: Seq<char>) -> Seq<Seq<char>> {
    seq!["rev-list"@, "-E"@, "--grep"@, "^"@ + escape_brackets(MERGE_SUBJECT_PREFIX@), point + "..HEAD"@]
}

/// `rev-list --merges <point>..HEAD`.
pub open spec fn merge_list_args(point: Seq<char>) -> Seq<Seq<char>> {
    seq!["rev-list"@, "--merges"@, point + "..HEAD"@]
}

/// What the two span queries answered about `point`: `b` is whether a
/// compaction, or else a merge, was listed inside `point..HEAD`.
pub open spec fn landed_reading<G: GitRunner>(git: &G, worktree: Seq<char>, point: Seq<char>, b: bool) -> bool {
    exists|out: Seq<char>|
        #[trigger] git.prints(worktree, landings_args(point), out) && if !blank(out) {
            b
        } else {
            exists|merges: Seq<char>| #[trigger] git.prints(worktree, merge_list_args(point), merges) && b == !blank(merges)
        }
}

/// A span query about `point` failed: the landings listing, or, after it
/// listed none, the merges listing.
pub open spec fn landed_failed<G: GitRunner>(git: &G, worktree: Seq<char>, point: Seq<char>) -> bool {
    git.fails(worktree, landings_args(point)) || exists|out: Seq<char>|
        #[trigger] git.prints(worktree, landings_args(point), out) && blank(out) && git.fails(worktree, merge_list_args(point))
}

/// Whether a compaction landed inside `point..HEAD`: a compaction commit,
/// or any merge, inside the replay span means this pass was overtaken.
pub fn landed_since<G: GitRunner>(parent_worktree: &str, point: &str, git: &G) -> (r: Result<bool, Error>)
    ensures
        r matches Err(e) ==> e matches Error::Git { op, .. } && op@ == "compaction land span rev-list"@,
        r matches Ok(b) ==> landed_reading(git, parent_worktree@, point@, b),
        r is Err ==> landed_failed(git, parent_worktree@, point@),
{
    let range = range_to_head(point);
    let landed = landing_subject_pattern();
    let grep = ["rev-list", "-E", "--grep", landed.as_str(), range.as_str()];
    assert(argv(grep@) =~= landings_args(point@));
    let bases = match git.run_capture(parent_worktree, &grep) {
        Ok(out) => out,
        Err(source) => return Err(Error::Git { op: "compaction land span rev-list", source }),
    };
    if !is_blank(bases.as_str()) {
        return Ok(true);
    }
    let merges_args = ["rev-list", "--merges", range.as_str()];
    assert(argv(merges_args@) =~= merge_list_args(point@));
    match git.run_capture(parent_worktree, &merges_args) {
        Ok(out) => Ok(!is_blank(out.as_str())),
        Err(source) => Err(Error::Git { op: "compaction land span rev-list", source }),
    }
}

/// `<sha>^`, the parent of `sha`.
fn parent_rev(sha: &str) -> (r: String)
    ensures
        r@ == sha@ + "^"@,
{
    let mut r = String::new();
    append_str(&mut r, sha);
    append_str(&mut r, "^");
    r
}

/// `d` is the sha of `compactor_id`'s dispatch commit, as the founding
/// query on `compactor_ref` printed it.
pub open spec fn dispatch_read<G: GitRunner>(git: &G, worktree: Seq<char>, compactor_id: Seq<char>, compactor_ref: Seq<char>, d: Seq<char>) -> bool {
    exists|out: Seq<char>|
        #[trigger] git.prints(worktree, founding_log_args("--format=%H"@, compactor_ref, compactor_id), out) && sha_of_spec(out) == Some(d)
}

/// `rev-parse <d>^`.
pub open spec fn parent_query(d: Seq<char>) -> Seq<Seq<char>> {
    seq!["rev-parse"@, d + "^"@]
}

/// `p` is the parent of `d`, as `rev-parse <d>^` printed it, trimmed.
pub open spec fn point_read<G: GitRunner>(git: &G, worktree: Seq<char>, d: Seq<char>, p: Seq<char>) -> bool {
    exists|out: Seq<char>| #[trigger] git.prints(worktree, parent_query(d), out) && p == trim(out)
}

/// `bound` is `parent_id`'s checkpoint origin as of `p`, or, where there
/// is none, the root commit reachable from `p`.
pub open spec fn bound_read<G: GitRunner>(git: &G, worktree: Seq<char>, p: Seq<char>, parent_id: Seq<char>, bound: Seq<char>) -> bool {
    exists|out: Seq<char>|
        #[trigger] git.prints(worktree, origin_args(p, parent_id), out) && (sha_of_spec(out) == Some(bound) || (sha_of_spec(out) is None
            && exists|roots: Seq<char>| #[trigger] git.prints(worktree, root_args(p), roots) && bound == last_line_spec(roots)))
}

/// The span of a current pass, as git answered each of its queries.
pub open spec fn span_read<G: GitRunner>(
    git: &G,
    worktree: Seq<char>,
    parent_id: Seq<char>,
    compactor_id: Seq<char>,
    compactor_ref: Seq<char>,
    s: Span,
) -> bool {
    &&& dispatch_read(git, worktree, compactor_id, compactor_ref, s.dispatch@)
    &&& point_read(git, worktree, s.dispatch@, s.point@)
    &&& git.succeeds(worktree, ancestor_args(s.point@, "HEAD"@))
    &&& landed_reading(git, worktree, s.point@, false)
    &&& bound_read(git, worktree, s.point@, parent_id, s.bound@)
}

/// The pass was found superseded: its point no longer reaches `HEAD`, or
/// a compaction or merge was listed since it.
pub open spec fn superseded_read<G: GitRunner>(git: &G, worktree: Seq<char>, compactor_id: Seq<char>, compactor_ref: Seq<char>) -> bool {
    exists|d: Seq<char>, p: Seq<char>|
        #[trigger] dispatch_read(git, worktree, compactor_id, compactor_ref, d) && #[trigger] point_read(git, worktree, d, p) && (git.fails(
            worktree,
            ancestor_args(p, "HEAD"@),
        ) || landed_reading(git, worktree, p, true))
}

/// Which query of a span derivation failed with error op `op`, each after
/// every query before it answered as the derivation needs.
pub open spec fn of_failed_at<G: GitRunner>(
    git: &G,
    worktree: Seq<char>,
    parent_id: Seq<char>,
    compactor_id: Seq<char>,
    compactor_ref: Seq<char>,
    op: Seq<char>,
) -> bool {
    let founding = founding_log_args("--format=%H"@, compactor_ref, compactor_id);
    ||| op == "role founding sha"@ && git.fails(worktree, founding)
    ||| op == "compaction land dispatch commit"@ && exists|out: Seq<char>|
        #[trigger] git.prints(worktree, founding, out) && sha_of_spec(out) is None
    ||| op == "compaction land point"@ && exists|d: Seq<char>|
        #[trigger] dispatch_read(git, worktree, compactor_id, compactor_ref, d) && git.fails(worktree, parent_query(d))
    ||| exists|d: Seq<char>, p: Seq<char>|
        #[trigger] dispatch_read(git, worktree, compactor_id, compactor_ref, d) && #[trigger] point_read(git, worktree, d, p)
            && git.succeeds(worktree, ancestor_args(p, "HEAD"@)) && {
            ||| op == "compaction land span rev-list"@ && landed_failed(git, worktree, p)
            ||| op == "checkpoint log grep"@ && landed_reading(git, worktree, p, false) && git.fails(
                worktree,
                origin_args(p, parent_id),
            )
            ||| op == "checkpoint root rev-list"@ && landed_reading(git, worktree, p, false) && (exists|out: Seq<char>|
                #[trigger] git.prints(worktree, origin_args(p, parent_id), out) && sha_of_spec(out) is None) && git.fails(
                worktree,
                root_args(p),
            )
        }
}

/// Derive the span for `compactor_id`'s return, or `None` when the pass is
/// superseded. A compactor branch with no dispatch commit is declined
/// loudly — it is not a compactor branch.
pub fn of<G: GitRunner>(
    parent_worktree: &str,
    parent_id: &str,
    compactor_id: &str,
    compactor_ref: &str,
    git: &G,
) -> (r: Result<Option<Span>, Error>)
    ensures
        r matches Err(e) ==> e matches Error::Git { op, .. } && (op@ == "role founding sha"@ || op@
            == "compaction land dispatch commit"@ || op@ == "compaction land point"@ || op@
            == "compaction land span rev-list"@ || op@ == "checkpoint log grep"@ || op@
            == "checkpoint root rev-list"@),
        r matches Ok(Some(s)) ==> s.dispatch@.len() > 0,
        r matches Ok(Some(s)) ==> span_read(git, parent_worktree@, parent_id@, compactor_id@, compactor_ref@, s),
        r matches Ok(None) ==> superseded_read(git, parent_worktree@, compactor_id@, compactor_ref@),
        r matches Err(Error::Git { op, .. }) ==> of_failed_at(
            git,
            parent_worktree@,
            parent_id@,
            compactor_id@,
            compactor_ref@,
            op@,
        ),
{
    let found = match crate::prompt::role::founding_sha(parent_worktree, compactor_ref, compactor_id, git) {
        Ok(f) => f,
        Err(e) => return Err(e),
    };
    let dispatch = match found {
        Some(sha) => sha,
        None => {
            let mut msg = String::new();
            append_str(&mut msg, "no dispatch commit names [");
            append_str(&mut msg, compactor_id);
            append_str(&mut msg, "] on ");
            append_str(&mut msg, compactor_ref);
            return Err(Error::Git { op: "compaction land dispatch commit", source: other_io_error(msg) });
        },
    };
    assert(dispatch_read(git, parent_worktree@, compactor_id@, compactor_ref@, dispatch@));
    let parent = parent_rev(dispatch.as_str());
    let args = ["rev-parse", parent.as_str()];
    assert(argv(args@) =~= parent_query(dispatch@));
    let point = match git.run_capture(parent_worktree, &args) {
        Ok(out) => crate::text::trim_string(out.as_str()),
        Err(source) => return Err(Error::Git { op: "compaction land point", source }),
    };
    assert(point_read(git, parent_worktree@, dispatch@, point@));
    if !reaches(parent_worktree, point.as_str(), git) {
        assert(superseded_read(git, parent_worktree@, compactor_id@, compactor_ref@));
        return Ok(None);
    }
    let landed = match landed_since(parent_worktree, point.as_str(), git) {
        Ok(b) => b,
        Err(e) => return Err(e),
    };
    if landed {
        assert(superseded_read(git, parent_worktree@, compactor_id@, compactor_ref@));
        return Ok(None);
    }
    let origin = match origin_at(parent_worktree, point.as_str(), parent_id, git) {
        Ok(o) => o,
        Err(e) => return Err(e),
    };
    let bound = match origin {
        Some(sha) => sha,
        None => match root_commit_at(parent_worktree, point.as_str(), git) {
            Ok(b) => b,
            Err(e) => return Err(e),
        },
    };
    Ok(Some(Span { dispatch, point, bound }))
}

/// Whether an unmerged path resolves live-branch-wins: stages 1 and 3
/// only — the replayed commit rewrote what the compaction deleted.
pub open spec fn live_wins(u: Unmerged) -> bool {
    u.base && !u.ours && u.theirs
}

/// The paths of `v` that resolve live-branch-wins (or, with `keep` false,
/// those that do not), in order.
pub open spec fn sorted_out(v: Seq<Unmerged>, keep: bool) -> Seq<Seq<char>>
    decreases v.len(),
{
    if v.len() == 0 {
        Seq::empty()
    } else if live_wins(v.last()) == keep {
        sorted_out(v.drop_last(), keep).push(v.last().path@)
    } else {
        sorted_out(v.drop_last(), keep)
    }
}

/// **A replay stop resolves only when the compaction's deletions are all
/// that conflicted**: no path is left to decline exactly when every
/// stopped path populates stages 1 and 3 alone (the replayed commit
/// rewrote what the compaction deleted); then every stopped path, in
/// order, is staged live-branch-wins. Otherwise the paths to decline are
/// exactly the others, in order.
pub proof fn law_resolve_only_live_branch_wins(v: Seq<Unmerged>)
    ensures
        sorted_out(v, false).len() == 0 <==> forall|i: int|
            0 <= i < v.len() ==> #[trigger] v[i].base && !v[i].ours && v[i].theirs,
        sorted_out(v, false).len() == 0 ==> sorted_out(v, true) == paths_of(v),
        sorted_out(v, true).len() + sorted_out(v, false).len() == v.len(),
    decreases v.len(),
{
    if v.len() > 0 {
        let before = v.drop_last();
        law_resolve_only_live_branch_wins(before);
        if sorted_out(v, false).len() == 0 {
            assert(live_wins(v.last()));
            assert forall|i: int| 0 <= i < v.len() implies #[trigger] v[i].base && !v[i].ours && v[i].theirs by {
                if i < v.len() - 1 {
                    assert(v[i] == before[i]);
                }
            }
            assert(paths_of(v) =~= paths_of(before).push(v.last().path@));
        }
        if forall|i: int| 0 <= i < v.len() ==> #[trigger] v[i].base && !v[i].ours && v[i].theirs {
            assert forall|i: int| 0 <= i < before.len() implies #[trigger] before[i].base && !before[i].ours
                && before[i].theirs by {
                assert(before[i] == v[i]);
            }
            assert(v[v.len() - 1].base && !v[v.len() - 1].ours && v[v.len() - 1].theirs);
        }
    } else {
        assert(paths_of(v) =~= Seq::<Seq<char>>::empty());
    }
}

/// What a replay does at a stop.
#[derive(Debug, PartialEq, Eq)]
pub enum AtStop {
    /// Not a conflict stop, or no progress left: abort and surface the
    /// rebase's own failure.
    Abort,
    /// A conflict the construction does not admit: decline on these paths.
    Decline(Vec<String>),
    /// Every stopped path resolves live-branch-wins: stage these and
    /// continue.
    Resolve(Vec<String>),
}

/// The views of a list of strings.
pub open spec fn views_of(v: Seq<String>) -> Seq<Seq<char>> {
    v.map_values(|s: String| s@)
}

/// Split the stopped paths into those that resolve live-branch-wins and
/// the rest, each in order.
fn split_stops(unmerged: &Vec<Unmerged>) -> (r: (Vec<String>, Vec<String>))
    ensures
        views_of(r.0@) == sorted_out(unmerged@, true),
        views_of(r.1@) == sorted_out(unmerged@, false),
{
    let mut keep: Vec<String> = Vec::new();
    let mut marked: Vec<String> = Vec::new();
    let mut i: usize = 0;
    while i < unmerged.len()
        invariant
            i <= unmerged@.len(),
            views_of(keep@) == sorted_out(unmerged@.take(i as int), true),
            views_of(marked@) == sorted_out(unmerged@.take(i as int), false),
        decreases unmerged.len() - i,
    {
        let u = &unmerged[i];
        proof {
            assert(unmerged@.take(i + 1).drop_last() =~= unmerged@.take(i as int));
            assert(unmerged@.take(i + 1).last() == unmerged@[i as int]);
        }
        let p = u.path.clone();
        if u.base && !u.ours && u.theirs {
            let ghost before = keep@;
            keep.push(p);
            proof {
                assert(views_of(keep@) =~= views_of(before).push(p@));
            }
        } else {
            let ghost before = marked@;
            marked.push(p);
            proof {
                assert(views_of(marked@) =~= views_of(before).push(p@));
            }
        }
        i += 1;
    }
    proof {
        assert(unmerged@.take(unmerged@.len() as int) =~= unmerged@);
    }
    (keep, marked)
}

/// The decision at a replay stop with `budget` continues left.
pub fn at_stop(unmerged: &Vec<Unmerged>, budget: u32) -> (r: AtStop)
    ensures
        (unmerged@.len() == 0 || budget == 0) ==> r == AtStop::Abort,
        (unmerged@.len() > 0 && budget > 0 && sorted_out(unmerged@, false).len() > 0) ==> (r matches AtStop::Decline(p)
            && views_of(p@) == sorted_out(unmerged@, false)),
        (unmerged@.len() > 0 && budget > 0 && sorted_out(unmerged@, false).len() == 0) ==> (r matches AtStop::Resolve(p)
            && views_of(p@) == sorted_out(unmerged@, true)),
{
    let (keep, marked) = split_stops(unmerged);
    if unmerged.len() == 0 || budget == 0 {
        return AtStop::Abort;
    }
    if marked.len() > 0 {
        return AtStop::Decline(marked);
    }
    AtStop::Resolve(keep)
}

/// The unmerged paths and which index stages each populates
/// (`git ls-files -u`, read by [`unmerged_stages`]).
pub fn unmerged_in<G: GitRunner>(parent_worktree: &str, git: &G) -> (r: Result<Vec<Unmerged>, Error>)
    ensures
        r matches Err(e) ==> e matches Error::Git { op, .. } && op@ == "compaction land unmerged"@,
        r matches Ok(v) ==> exists|out: Seq<char>|
            #[trigger] git.prints(parent_worktree@, unmerged_args(), out) && stages_spec(out, v@),
        r is Err ==> git.fails(parent_worktree@, unmerged_args()),
{
    let args = ["ls-files", "-u"];
    assert(argv(args@) =~= unmerged_args());
    match git.run_capture(parent_worktree, &args) {
        Ok(out) => {
            Ok(unmerged_stages(out.as_str()))
        },
        Err(source) => Err(Error::Git { op: "compaction land unmerged", source }),
    }
}

/// `ls-files -u`.
pub open spec fn unmerged_args() -> Seq<Seq<char>> {
    seq!["ls-files"@, "-u"@]
}

/// `rebase --abort`.
pub open spec fn abort_args() -> Seq<Seq<char>> {
    seq!["rebase"@, "--abort"@]
}

/// `update-ref refs/lernie/conflicted/<compactor-id> <compactor-ref>`.
pub open spec fn mark_args(compactor_id: Seq<char>, compactor_ref: Seq<char>) -> Seq<Seq<char>> {
    seq!["update-ref"@, CONFLICTED_REF_PREFIX@ + compactor_id, compactor_ref]
}

/// `rebase --empty=keep --onto <base> <point> <branch>`.
pub open spec fn rebase_args(base: Seq<char>, point: Seq<char>, branch: Seq<char>) -> Seq<Seq<char>> {
    seq!["rebase"@, "--empty=keep"@, "--onto"@, base, point, branch]
}

/// `-c core.editor=true rebase --continue`.
pub open spec fn continue_args() -> Seq<Seq<char>> {
    seq!["-c"@, "core.editor=true"@, "rebase"@, "--continue"@]
}

/// `paths` are the stopped paths that do not resolve live-branch-wins, as
/// `ls-files -u` listed them.
pub open spec fn declined_read<G: GitRunner>(git: &G, worktree: Seq<char>, paths: Seq<Seq<char>>) -> bool {
    exists|out: Seq<char>, v: Seq<Unmerged>|
        #[trigger] git.prints(worktree, unmerged_args(), out) && #[trigger] stages_spec(out, v) && paths == sorted_out(v, false)
}

/// Which call of a decline failed with error op `op`: the abort, or the
/// marker after it.
pub open spec fn decline_failed_at<G: GitRunner>(
    git: &G,
    worktree: Seq<char>,
    compactor_id: Seq<char>,
    compactor_ref: Seq<char>,
    op: Seq<char>,
) -> bool {
    ||| op == "compaction land abort"@ && git.fails(worktree, abort_args())
    ||| op == "compaction land decline update-ref"@ && git.succeeds(worktree, abort_args()) && git.fails(
        worktree,
        mark_args(compactor_id, compactor_ref),
    )
}

/// `rev-list --count <point>..HEAD`.
pub open spec fn replay_count_args(point: Seq<char>) -> Seq<Seq<char>> {
    seq!["rev-list"@, "--count"@, point + "..HEAD"@]
}

/// Which step of a replay failed with error op `op`: the commit count; or,
/// once the rebase (or a continue) stopped, the unmerged listing, the
/// live-branch-wins staging of what it listed, the stop itself (given up
/// on), or the decline.
pub open spec fn replay_failed_at<G: GitRunner>(
    git: &G,
    worktree: Seq<char>,
    parent_id: Seq<char>,
    compactor_id: Seq<char>,
    compactor_ref: Seq<char>,
    point: Seq<char>,
    base: Seq<char>,
    op: Seq<char>,
) -> bool {
    let stopped = git.fails(worktree, rebase_args(base, point, agent_ref_spec(parent_id))) || git.fails(
        worktree,
        continue_args(),
    );
    ||| op == "compaction land replay count"@ && git.fails(worktree, replay_count_args(point))
    ||| op == "compaction land rebase"@ && stopped
    ||| op == "compaction land unmerged"@ && stopped && git.fails(worktree, unmerged_args())
    ||| op == "compaction land live-branch-wins add"@ && stopped && exists|out: Seq<char>, v: Seq<Unmerged>|
        #[trigger] git.prints(worktree, unmerged_args(), out) && #[trigger] stages_spec(out, v) && git.fails(
            worktree,
            seq!["add"@, "--"@] + sorted_out(v, true),
        )
    ||| stopped && (exists|paths: Seq<Seq<char>>| paths.len() > 0 && #[trigger] declined_read(git, worktree, paths))
        && decline_failed_at(git, worktree, compactor_id, compactor_ref, op)
}

/// Refuse the landing loudly: abort the rebase so the branch and its
/// worktree are exactly as they were, mark the compactor's tip under
/// `refs/lernie/conflicted/<compactor-id>`, and land nothing.
pub fn decline<G: GitRunner>(
    parent_worktree: &str,
    compactor_id: &str,
    compactor_ref: &str,
    paths: Vec<String>,
    git: &G,
) -> (r: Result<LandOutcome, Error>)
    ensures
        r matches Err(e) ==> e matches Error::Git { op, .. } && (op@ == "compaction land abort"@ || op@
            == "compaction land decline update-ref"@),
        r matches Ok(o) ==> o == LandOutcome::Conflicted(paths),
        r is Ok ==> git.succeeds(parent_worktree@, abort_args()) && git.succeeds(
            parent_worktree@,
            mark_args(compactor_id@, compactor_ref@),
        ),
        r matches Err(Error::Git { op, .. }) ==> decline_failed_at(git, parent_worktree@, compactor_id@, compactor_ref@, op@),
{
    let abort = ["rebase", "--abort"];
    assert(argv(abort@) =~= abort_args());
    if let Err(source) = git.run(parent_worktree, &abort) {
        return Err(Error::Git { op: "compaction land abort", source });
    }
    let marker = conflicted_ref(compactor_id);
    let args = ["update-ref", marker.as_str(), compactor_ref];
    assert(argv(args@) =~= mark_args(compactor_id@, compactor_ref@));
    match git.run(parent_worktree, &args) {
        Ok(()) => Ok(LandOutcome::Conflicted(paths)),
        Err(source) => Err(Error::Git { op: "compaction land decline update-ref", source }),
    }
}

/// Rebase the branch's commits after `point` onto `base` and move
/// `parent_id`'s branch to the replayed tip. Each stop either resolves
/// live-branch-wins and continues, or declines; the number of continues is
/// bounded by the number of commits replayed (`git rev-list --count
/// <point>..HEAD`, 0 when unreadable), after which the landing aborts.
pub fn run<G: GitRunner>(
    parent_worktree: &str,
    parent_id: &str,
    compactor_id: &str,
    compactor_ref: &str,
    point: &str,
    base: &str,
    git: &G,
) -> (r: Result<LandOutcome, Error>)
    ensures
        r matches Err(e) ==> e matches Error::Git { op, .. } && (op@ == "compaction land replay count"@ || op@
            == "compaction land rebase"@ || op@ == "compaction land unmerged"@ || op@
            == "compaction land live-branch-wins add"@ || op@ == "compaction land abort"@ || op@
            == "compaction land decline update-ref"@),
        r matches Ok(LandOutcome::Conflicted(p)) ==> p@.len() > 0,
        r matches Ok(LandOutcome::Conflicted(p)) ==> declined_read(git, parent_worktree@, views_of(p@))
            && git.succeeds(parent_worktree@, abort_args()) && git.succeeds(
            parent_worktree@,
            mark_args(compactor_id@, compactor_ref@),
        ),
        r == Ok::<LandOutcome, Error>(LandOutcome::Landed) ==> git.succeeds(
            parent_worktree@,
            rebase_args(base@, point@, agent_ref_spec(parent_id@)),
        ) || git.succeeds(parent_worktree@, continue_args()),
        r matches Err(Error::Git { op, .. }) ==> replay_failed_at(
            git,
            parent_worktree@,
            parent_id@,
            compactor_id@,
            compactor_ref@,
            point@,
            base@,
            op@,
        ),
{
    let branch = agent_ref(parent_id);
    let range = range_to_head(point);
    let count_args = ["rev-list", "--count", range.as_str()];
    assert(argv(count_args@) =~= replay_count_args(point@));
    let counted = match git.run_capture(parent_worktree, &count_args) {
        Ok(out) => out,
        Err(source) => return Err(Error::Git { op: "compaction land replay count", source }),
    };
    let stops: u32 = match parse_u32(&trim_chars(&chars_of(counted.as_str()))) {
        Some(n) => n,
        None => 0,
    };
    let rebase = ["rebase", "--empty=keep", "--onto", base, point, branch.as_str()];
    assert(argv(rebase@) =~= rebase_args(base@, point@, agent_ref_spec(parent_id@)));
    let mut result = git.run(parent_worktree, &rebase);
    let mut budget: u32 = stops;
    loop
        invariant
            result is Ok ==> git.succeeds(parent_worktree@, rebase_args(base@, point@, agent_ref_spec(parent_id@)))
                || git.succeeds(parent_worktree@, continue_args()),
            result is Err ==> git.fails(parent_worktree@, rebase_args(base@, point@, agent_ref_spec(parent_id@)))
                || git.fails(parent_worktree@, continue_args()),
        decreases budget,
    {
        let source = match result {
            Ok(()) => return Ok(LandOutcome::Landed),
            Err(source) => source,
        };
        let unmerged = match unmerged_in(parent_worktree, git) {
            Ok(u) => u,
            Err(e) => return Err(e),
        };
        let ghost uout = choose|out: Seq<char>|
            #[trigger] git.prints(parent_worktree@, unmerged_args(), out) && stages_spec(out, unmerged@);
        match at_stop(&unmerged, budget) {
            AtStop::Abort => {
                let abort = ["rebase", "--abort"];
                let _ = git.run(parent_worktree, &abort);
                return Err(Error::Git { op: "compaction land rebase", source });
            },
            AtStop::Decline(marked) => {
                assert(declined_read(git, parent_worktree@, views_of(marked@)));
                assert(views_of(marked@).len() > 0);
                return decline(parent_worktree, compactor_id, compactor_ref, marked, git);
            },
            AtStop::Resolve(keep) => {
                budget = budget - 1;
                let head = ["add", "--"];
                let add = with_paths(&head, &keep);
                assert(argv(head@) =~= seq!["add"@, "--"@]);
                assert(strs(keep@) =~= views_of(keep@));
                if let Err(source) = git.run(parent_worktree, add.as_slice()) {
                    assert(git.prints(parent_worktree@, unmerged_args(), uout) && stages_spec(uout, unmerged@));
                    return Err(Error::Git { op: "compaction land live-branch-wins add", source });
                }
                let cont = ["-c", "core.editor=true", "rebase", "--continue"];
                assert(argv(cont@) =~= continue_args());
                result = git.run(parent_worktree, &cont);
            },
        }
    }
}

} // verus!
