//! The compaction merge — the one merge left in
//! the system.
//!
//! A compactor forks off a checkpoint commit `C` and rewrites only what
//! existed at `C`: deleting superseded transcript entries, landing a new
//! summary, nominating superseded work products for deletion. The live
//! agent keeps stepping past `C`, only *appending*, so the write sets are
//! disjoint and the merge is conflict-free by construction — save one
//! overlap: a compactor may nominate a work product the live agent has
//! rewritten. That surfaces as a modify/delete conflict, resolved
//! **live-branch-wins** by staging the working tree (`git add -A`).
//!
//! **Anything else is refused, loudly.** Where git had to write conflict
//! markers into a path (index stages 2 and 3 both populated), staging it
//! would commit the markup into the live branch's context. So the merge
//! asks git which paths it had to mark ([`content_conflicts`]) and, for any,
//! aborts, marks `refs/lernie/conflicted/<compactor-id>` and lands nothing.
//!
//! **Filtered to the compaction product.** The compactor's own dialog
//! (its `goal.md`, `soul.md`, transcript) is not the dispatching branch's
//! context: every path the merge would add or rewrite outside `summary/`
//! is restored to the dispatching branch's version before committing,
//! while deletions pass untouched.

use vstd::prelude::*;
use crate::error::{argv, strs, Error, GitRunner};
use crate::order::{ascending, lex_lt};
use crate::prompt::compactor::stages::{staged, stages_spec, unmerged_stages, paths_of};
use crate::text::{append_str, is_blank, kept_lines, lines_of, nonblank_lines, string_views};
use crate::workspace::{agent_ref, agent_ref_spec, conflicted_ref, CONFLICTED_REF_PREFIX};
use crate::prompt::compactor::land::{mark_args, unmerged_args};

verus! {

/// The compaction product's sole addition surface, as a git exclude
/// pathspec.
pub const SUMMARY_EXCLUDE: &'static str = ":(exclude)summary";

/// Outcome of a compaction merge attempt against the dispatching branch.
#[derive(Debug, PartialEq, Eq)]
pub enum MergeOutcome {
    /// The compactor's branch landed as a `--no-ff` merge commit.
    Merged,
    /// The dispatching branch was already up to date — nothing to land.
    NoOp,
    /// Git wrote conflict markers into these paths; the merge was aborted,
    /// the conflicted ref marked, and nothing landed.
    Conflicted(Vec<String>),
}

/// The paths of `ls-files -u` output `out` that git had to mark: both
/// stage 2 (ours) and stage 3 (theirs) populated — ascending, each once.
pub open spec fn conflicts_spec(out: Seq<char>, r: Seq<Seq<char>>) -> bool {
    let ls = lines_of(out);
    &&& ascending(r)
    &&& forall|p: Seq<char>| r.contains(p) <==> (staged(ls, p, '2') && staged(ls, p, '3'))
}

/// The entries of `all` at the indices `idx`, in order.
pub open spec fn pick(all: Seq<Seq<char>>, idx: Seq<int>) -> Seq<Seq<char>> {
    idx.map_values(|k: int| all[k])
}

/// A filtered subsequence of an ascending sequence is ascending.
proof fn lemma_filter_ascending(all: Seq<Seq<char>>, idx: Seq<int>)
    requires
        ascending(all),
        forall|a: int, b: int| 0 <= a < b < idx.len() ==> idx[a] < idx[b],
        forall|a: int| 0 <= a < idx.len() ==> 0 <= #[trigger] idx[a] < all.len(),
    ensures
        ascending(pick(all, idx)),
{
    let r = pick(all, idx);
    assert forall|a: int, b: int| 0 <= a < b < r.len() implies lex_lt(
        #[trigger] r[a],
        #[trigger] r[b],
    ) by {
        assert(r[a] == all[idx[a]]);
        assert(r[b] == all[idx[b]]);
    }
}

/// The marked paths of `ls-files -u` output.
pub fn conflicts_in(out: &str) -> (r: Vec<String>)
    ensures
        conflicts_spec(out@, string_views(r@)),
{
    let entries = unmerged_stages(out);
    let ghost ls = lines_of(out@);
    let ghost all = paths_of(entries@);
    let mut r: Vec<String> = Vec::new();
    let ghost mut idx: Seq<int> = Seq::empty();
    let mut k: usize = 0;
    while k < entries.len()
        invariant
            stages_spec(out@, entries@),
            all == paths_of(entries@),
            ls == lines_of(out@),
            k <= entries.len(),
            idx.len() == r.len(),
            forall|a: int| 0 <= a < idx.len() ==> 0 <= #[trigger] idx[a] < k,
            forall|a: int, b: int| 0 <= a < b < idx.len() ==> idx[a] < idx[b],
            string_views(r@) == pick(all, idx),
            forall|j: int|
                0 <= j < k ==> (idx.contains(j) <==> (#[trigger] entries@[j]).ours
                    && entries@[j].theirs),
        decreases entries.len() - k,
    {
        let e = &entries[k];
        if e.ours && e.theirs {
            let p = e.path.clone();
            proof {
                assert(all[k as int] == entries@[k as int].path@);
                let nidx = idx.push(k as int);
                assert(p@ == all[k as int]);
                assert(string_views(r@.push(p)) =~= string_views(r@).push(p@));
                assert(pick(all, nidx) =~= pick(all, idx).push(all[k as int]));
                assert forall|j: int| 0 <= j < k + 1 implies (nidx.contains(j) <==> (
                #[trigger] entries@[j]).ours && entries@[j].theirs) by {
                    if j < k && idx.contains(j) {
                        let a = choose|a: int| 0 <= a < idx.len() && idx[a] == j;
                        assert(nidx[a] == j);
                    }
                    if nidx.contains(j) && j < k {
                        let a = choose|a: int| 0 <= a < nidx.len() && nidx[a] == j;
                        assert(a < idx.len());
                        assert(idx[a] == j);
                    }
                    if j == k {
                        assert(nidx[idx.len() as int] == j);
                    }
                }
            }
            r.push(p);
            proof {
                idx = idx.push(k as int);
            }
        } else {
            proof {
                assert forall|j: int| 0 <= j < k + 1 implies (idx.contains(j) <==> (
                #[trigger] entries@[j]).ours && entries@[j].theirs) by {
                    if j == k && idx.contains(j) {
                        let a = choose|a: int| 0 <= a < idx.len() && idx[a] == j;
                    }
                }
            }
        }
        k += 1;
    }
    proof {
        lemma_filter_ascending(all, idx);
        let rv = string_views(r@);
        assert forall|p: Seq<char>| rv.contains(p) <==> (staged(ls, p, '2') && staged(
            ls,
            p,
            '3',
        )) by {
            if rv.contains(p) {
                let a = choose|a: int| 0 <= a < rv.len() && rv[a] == p;
                let j = idx[a];
                assert(idx.contains(j));
                assert(entries@[j].path@ == p);
            }
            if staged(ls, p, '2') && staged(ls, p, '3') {
                let k2 = choose|k2: int|
                    0 <= k2 < ls.len() && crate::prompt::compactor::stages::line_path(
                        #[trigger] ls[k2],
                    ) == Some(p) && crate::prompt::compactor::stages::line_stage(ls[k2]) == seq!['2'];
                assert(crate::prompt::compactor::stages::listed(ls, p));
                assert(all.contains(p));
                let j = choose|j: int| 0 <= j < all.len() && all[j] == p;
                assert(entries@[j].path@ == p);
                assert(idx.contains(j));
                let a = choose|a: int| 0 <= a < idx.len() && idx[a] == j;
                assert(rv[a] == p);
            }
        }
    }
    r
}

/// Paths git could not merge on its own and wrote conflict markers into:
/// `git ls-files -u`, read for paths with stages 2 and 3 both present —
/// the case, and the only case, where both sides carried content. A
/// modify/delete populates one of the two and is not listed.
pub fn content_conflicts<G: GitRunner>(parent_worktree: &str, git: &G) -> (r: Result<
    Vec<String>,
    Error,
>)
    ensures
        r matches Err(Error::Git { op, .. }) ==> op@ == "compaction merge unmerged"@,
        r matches Ok(paths) ==> ascending(string_views(paths@)),
        r matches Ok(paths) ==> exists|out: Seq<char>|
            #[trigger] git.prints(parent_worktree@, unmerged_args(), out) && conflicts_spec(out, string_views(paths@)),
        r is Err ==> git.fails(parent_worktree@, unmerged_args()),
{
    let args = ["ls-files", "-u"];
    assert(argv(args@) =~= unmerged_args());
    match git.run_capture(parent_worktree, &args) {
        Err(source) => Err(Error::Git { op: "compaction merge unmerged", source }),
        Ok(out) => Ok(conflicts_in(out.as_str())),
    }
}

/// Whether `git rev-parse --verify -q MERGE_HEAD` answered that a merge is
/// in progress: a non-blank sha on success; a failure is "no merge".
pub open spec fn in_progress_spec(reply: Result<Seq<char>, ()>) -> bool {
    match reply {
        Ok(out) => !crate::text::blank(out),
        Err(_) => false,
    }
}

/// `rev-parse --verify -q MERGE_HEAD`.
pub open spec fn merge_head_args() -> Seq<Seq<char>> {
    seq!["rev-parse"@, "--verify"@, "-q"@, "MERGE_HEAD"@]
}

/// The `MERGE_HEAD` query was answered `b`: a non-blank sha, or a blank
/// one or a failure.
pub open spec fn merge_head_read<G: GitRunner>(git: &G, worktree: Seq<char>, b: bool) -> bool {
    if b {
        exists|out: Seq<char>| #[trigger] git.prints(worktree, merge_head_args(), out) && in_progress_spec(Ok(out))
    } else {
        git.fails(worktree, merge_head_args()) || exists|out: Seq<char>|
            #[trigger] git.prints(worktree, merge_head_args(), out) && !in_progress_spec(Ok(out))
    }
}

/// True iff a merge is in progress in `parent_worktree` — `MERGE_HEAD`
/// resolves. Derived from git state, never a stored flag; never fails.
pub fn merge_in_progress<G: GitRunner>(parent_worktree: &str, git: &G) -> (b: bool)
    ensures
        b ==> merge_head_read(git, parent_worktree@, true),
        !b ==> merge_head_read(git, parent_worktree@, false),
{
    let args = ["rev-parse", "--verify", "-q", "MERGE_HEAD"];
    assert(argv(args@) =~= merge_head_args());
    match git.run_capture(parent_worktree, &args) {
        Ok(out) => !is_blank(out.as_str()),
        Err(_) => false,
    }
}

/// `args` followed by `paths`.
pub fn with_paths<'a>(args: &[&'a str], paths: &'a Vec<String>) -> (r: Vec<&'a str>)
    ensures
        r@.len() == args@.len() + paths@.len(),
        forall|i: int| 0 <= i < args@.len() ==> r@[i] == args@[i],
        forall|j: int| 0 <= j < paths@.len() ==> (#[trigger] r@[args@.len() + j])@ == paths@[j]@,
        argv(r@) == argv(args@) + strs(paths@),
{
    let mut r: Vec<&'a str> = Vec::new();
    let mut i: usize = 0;
    while i < args.len()
        invariant
            i <= args@.len(),
            r@.len() == i,
            forall|k: int| 0 <= k < i ==> r@[k] == args@[k],
        decreases args@.len() - i,
    {
        r.push(args[i]);
        i += 1;
    }
    let mut j: usize = 0;
    while j < paths.len()
        invariant
            j <= paths@.len(),
            r@.len() == args@.len() + j,
            forall|k: int| 0 <= k < args@.len() ==> r@[k] == args@[k],
            forall|k: int| 0 <= k < j ==> (#[trigger] r@[args@.len() + k])@ == paths@[k]@,
        decreases paths@.len() - j,
    {
        r.push(paths[j].as_str());
        j += 1;
    }
    assert(argv(r@) =~= argv(args@) + strs(paths@)) by {
        assert forall|k: int| 0 <= k < r@.len() implies #[trigger] argv(r@)[k] == (argv(args@) + strs(paths@))[k] by {
            if k >= args@.len() {
                assert(r@[args@.len() + (k - args@.len())]@ == paths@[k - args@.len()]@);
            }
        }
    }
    r
}

/// Run `args` extended with `paths`, or nothing at all when `paths` is
/// empty (git would read a pathspec-less `rm` as an error).
pub fn run_on_paths<G: GitRunner>(
    parent_worktree: &str,
    args: &[&str],
    paths: &Vec<String>,
    git: &G,
) -> (r: Result<(), Error>)
    ensures
        paths@.len() == 0 ==> r is Ok,
        r matches Err(Error::Git { op, .. }) ==> op@ == "compaction merge filter"@,
        r is Ok && paths@.len() > 0 ==> git.succeeds(parent_worktree@, argv(args@) + strs(paths@)),
        r is Err ==> paths@.len() > 0 && git.fails(parent_worktree@, argv(args@) + strs(paths@)),
{
    if paths.len() == 0 {
        return Ok(());
    }
    let full = with_paths(args, paths);
    match git.run(parent_worktree, full.as_slice()) {
        Ok(()) => Ok(()),
        Err(source) => Err(Error::Git { op: "compaction merge filter", source }),
    }
}

/// `diff --cached --name-only --no-renames --diff-filter=<filter> HEAD --
/// :(exclude)summary`.
pub open spec fn staged_diff_args(filter: Seq<char>) -> Seq<Seq<char>> {
    seq![
        "diff"@,
        "--cached"@,
        "--name-only"@,
        "--no-renames"@,
        "--diff-filter="@ + filter,
        "HEAD"@,
        "--"@,
        SUMMARY_EXCLUDE@,
    ]
}

/// The paths staged under class `filter` outside `summary/` were listed,
/// and `head` was run on them where there were any.
pub open spec fn filtered<G: GitRunner>(git: &G, worktree: Seq<char>, filter: Seq<char>, head: Seq<Seq<char>>) -> bool {
    exists|out: Seq<char>|
        #[trigger] git.prints(worktree, staged_diff_args(filter), out) && (kept_lines(lines_of(out)).len() == 0
            || git.succeeds(worktree, head + kept_lines(lines_of(out))))
}

/// The filter for class `filter` failed: the listing failed, or `head`
/// failed on the paths it listed.
pub open spec fn filter_failed<G: GitRunner>(git: &G, worktree: Seq<char>, filter: Seq<char>, head: Seq<Seq<char>>) -> bool {
    git.fails(worktree, staged_diff_args(filter)) || exists|out: Seq<char>|
        #[trigger] git.prints(worktree, staged_diff_args(filter), out) && kept_lines(lines_of(out)).len() > 0 && git.fails(
            worktree,
            head + kept_lines(lines_of(out)),
        )
}

/// `rm -q -f --`.
pub open spec fn rm_args() -> Seq<Seq<char>> {
    seq!["rm"@, "-q"@, "-f"@, "--"@]
}

/// `checkout HEAD --`.
pub open spec fn restore_args() -> Seq<Seq<char>> {
    seq!["checkout"@, "HEAD"@, "--"@]
}

/// Paths the staged merge would land outside `summary/` under diff class
/// `filter` (`A` added, `M` rewritten), relative to the dispatching
/// branch's tip: the non-blank lines git prints, trimmed. `--no-renames`
/// keeps the classes exhaustive.
pub fn staged_outside_summary<G: GitRunner>(parent_worktree: &str, filter: &str, git: &G) -> (r:
    Result<Vec<String>, Error>)
    ensures
        r matches Err(Error::Git { op, .. }) ==> op@ == "compaction merge filter"@,
        r matches Ok(v) ==> forall|i: int| 0 <= i < v@.len() ==> (#[trigger] v@[i])@.len() > 0,
        r matches Ok(v) ==> exists|out: Seq<char>|
            #[trigger] git.prints(parent_worktree@, staged_diff_args(filter@), out) && string_views(v@) == kept_lines(lines_of(out)),
        r is Err ==> git.fails(parent_worktree@, staged_diff_args(filter@)),
{
    let mut filter_arg = String::new();
    append_str(&mut filter_arg, "--diff-filter=");
    append_str(&mut filter_arg, filter);
    let args = [
        "diff",
        "--cached",
        "--name-only",
        "--no-renames",
        filter_arg.as_str(),
        "HEAD",
        "--",
        SUMMARY_EXCLUDE,
    ];
    assert(argv(args@) =~= staged_diff_args(filter@));
    match git.run_capture(parent_worktree, &args) {
        Err(source) => Err(Error::Git { op: "compaction merge filter", source }),
        Ok(out) => {
            let v = nonblank_lines(out.as_str());
            proof {
                lemma_kept_nonempty(lines_of(out@));
                assert forall|i: int| 0 <= i < v@.len() implies (#[trigger] v@[i])@.len() > 0 by {
                    assert(string_views(v@)[i] == v@[i]@);
                }
            }
            Ok(v)
        },
    }
}

proof fn lemma_kept_nonempty(ls: Seq<Seq<char>>)
    ensures
        forall|i: int|
            0 <= i < kept_lines(ls).len() ==> (#[trigger] kept_lines(ls)[i]).len() > 0,
    decreases ls.len(),
{
    if ls.len() > 0 {
        lemma_kept_nonempty(ls.drop_last());
        let front = kept_lines(ls.drop_last());
        let t = crate::text::trim(ls.last());
        let back = if t.len() > 0 {
            seq![t]
        } else {
            Seq::<Seq<char>>::empty()
        };
        assert(kept_lines(ls) == front + back);
        assert forall|i: int| 0 <= i < kept_lines(ls).len() implies (
        #[trigger] kept_lines(ls)[i]).len() > 0 by {
            if i < front.len() {
                assert(kept_lines(ls)[i] == front[i]);
            } else {
                assert(kept_lines(ls)[i] == back[i - front.len()]);
            }
        }
    }
}

/// Drop the compactor's private dialog from the staged merge: every path
/// added outside `summary/` is removed, every path rewritten outside it is
/// restored from `HEAD` — leaving only the summary and the deletions.
pub fn filter_to_product<G: GitRunner>(parent_worktree: &str, git: &G) -> (r: Result<(), Error>)
    ensures
        r matches Err(Error::Git { op, .. }) ==> op@ == "compaction merge filter"@,
        r is Ok ==> filtered(git, parent_worktree@, "A"@, rm_args()) && filtered(
            git,
            parent_worktree@,
            "M"@,
            restore_args(),
        ),
        r is Err ==> filter_failed(git, parent_worktree@, "A"@, rm_args()) || (filtered(git, parent_worktree@, "A"@, rm_args())
            && filter_failed(git, parent_worktree@, "M"@, restore_args())),
{
    let added = staged_outside_summary(parent_worktree, "A", git)?;
    let ghost aout = choose|out: Seq<char>|
        #[trigger] git.prints(parent_worktree@, staged_diff_args("A"@), out) && string_views(added@) == kept_lines(lines_of(out));
    let rm = ["rm", "-q", "-f", "--"];
    assert(argv(rm@) =~= rm_args());
    let r1 = run_on_paths(parent_worktree, &rm, &added, git);
    if r1.is_err() {
        assert(git.prints(parent_worktree@, staged_diff_args("A"@), aout));
        assert(filter_failed(git, parent_worktree@, "A"@, rm_args()));
        return r1;
    }
    assert(filtered(git, parent_worktree@, "A"@, rm_args()));
    let rewritten = staged_outside_summary(parent_worktree, "M", git)?;
    let ghost mout = choose|out: Seq<char>|
        #[trigger] git.prints(parent_worktree@, staged_diff_args("M"@), out) && string_views(rewritten@) == kept_lines(lines_of(out));
    let checkout = ["checkout", "HEAD", "--"];
    assert(argv(checkout@) =~= restore_args());
    let r = run_on_paths(parent_worktree, &checkout, &rewritten, git);
    assert(r is Ok ==> filtered(git, parent_worktree@, "M"@, restore_args()));
    assert(r is Err ==> git.prints(parent_worktree@, staged_diff_args("M"@), mout));
    r
}

/// Refuse the compaction merge loudly: abort the merge so
/// the dispatching branch is left exactly as it was, mark
/// `refs/lernie/conflicted/<compactor-id>` at the compactor's ref, land
/// nothing, and report the offending `paths`.
pub fn decline<G: GitRunner>(
    parent_worktree: &str,
    compactor_id: &str,
    compactor_ref: &str,
    paths: Vec<String>,
    git: &G,
) -> (r: Result<MergeOutcome, Error>)
    ensures
        r matches Err(Error::Git { op, .. }) ==> op@ == "compaction merge abort"@ || op@
            == "compaction merge decline update-ref"@,
        r matches Ok(o) ==> o == MergeOutcome::Conflicted(paths),
        r is Ok ==> git.succeeds(parent_worktree@, seq!["merge"@, "--abort"@]) && git.succeeds(
            parent_worktree@,
            mark_args(compactor_id@, compactor_ref@),
        ),
        r matches Err(Error::Git { op, .. }) ==> (op@ == "compaction merge abort"@ && git.fails(parent_worktree@, seq!["merge"@, "--abort"@]))
            || (op@ == "compaction merge decline update-ref"@ && git.succeeds(parent_worktree@, seq!["merge"@, "--abort"@])
            && git.fails(parent_worktree@, mark_args(compactor_id@, compactor_ref@))),
{
    let abort = ["merge", "--abort"];
    assert(argv(abort@) =~= seq!["merge"@, "--abort"@]);
    if let Err(source) = git.run(parent_worktree, &abort) {
        return Err(Error::Git { op: "compaction merge abort", source });
    }
    let marker = conflicted_ref(compactor_id);
    let args = ["update-ref", marker.as_str(), compactor_ref];
    assert(argv(args@) =~= mark_args(compactor_id@, compactor_ref@));
    match git.run(parent_worktree, &args) {
        Err(source) => Err(Error::Git { op: "compaction merge decline update-ref", source }),
        Ok(()) => Ok(MergeOutcome::Conflicted(paths)),
    }
}

/// `ls-files -u` listed `paths` as the marked conflicts.
pub open spec fn conflicts_read<G: GitRunner>(git: &G, worktree: Seq<char>, paths: Seq<Seq<char>>) -> bool {
    exists|out: Seq<char>| #[trigger] git.prints(worktree, unmerged_args(), out) && conflicts_spec(out, paths)
}

/// Which step of a compaction merge failed with error op `op`: the setup
/// (with no merge left in progress), the conflict listing, the abort or
/// the marker of a decline, the `add -A`, the product filter, or the
/// commit — each after every step before it answered as the merge needs.
pub open spec fn merge_failed_at<G: GitRunner>(git: &G, worktree: Seq<char>, compactor_id: Seq<char>, op: Seq<char>) -> bool {
    ||| op == "compaction merge"@ && git.fails(worktree, setup_args(compactor_id)) && merge_head_read(git, worktree, false)
    ||| op == "compaction merge unmerged"@ && merge_head_read(git, worktree, true) && git.fails(worktree, unmerged_args())
    ||| op == "compaction merge abort"@ && merge_head_read(git, worktree, true) && (exists|p: Seq<Seq<char>>|
        p.len() > 0 && #[trigger] conflicts_read(git, worktree, p)) && git.fails(worktree, seq!["merge"@, "--abort"@])
    ||| op == "compaction merge decline update-ref"@ && merge_head_read(git, worktree, true) && (exists|p: Seq<Seq<char>>|
        p.len() > 0 && #[trigger] conflicts_read(git, worktree, p)) && git.succeeds(worktree, seq!["merge"@, "--abort"@])
        && git.fails(worktree, mark_args(compactor_id, agent_ref_spec(compactor_id)))
    ||| op == "compaction merge add"@ && merge_head_read(git, worktree, true) && conflicts_read(git, worktree, Seq::empty())
        && git.fails(worktree, seq!["add"@, "-A"@])
    ||| op == "compaction merge filter"@ && merge_head_read(git, worktree, true) && conflicts_read(git, worktree, Seq::empty())
        && git.succeeds(worktree, seq!["add"@, "-A"@]) && (filter_failed(git, worktree, "A"@, rm_args()) || (filtered(
        git,
        worktree,
        "A"@,
        rm_args(),
    ) && filter_failed(git, worktree, "M"@, restore_args())))
    ||| op == "compaction merge commit"@ && merge_head_read(git, worktree, true) && conflicts_read(git, worktree, Seq::empty())
        && git.succeeds(worktree, seq!["add"@, "-A"@]) && filtered(git, worktree, "A"@, rm_args()) && filtered(
        git,
        worktree,
        "M"@,
        restore_args(),
    ) && git.fails(worktree, seq!["commit"@, "--no-edit"@, "-m"@, merge_subject(compactor_id)])
}

/// `merge --no-ff --no-commit --no-edit agents/<compactor-id>`.
pub open spec fn setup_args(compactor_id: Seq<char>) -> Seq<Seq<char>> {
    seq!["merge"@, "--no-ff"@, "--no-commit"@, "--no-edit"@, agent_ref_spec(compactor_id)]
}

/// The subject of a compaction-merge commit.
pub open spec fn merge_subject(compactor_id: Seq<char>) -> Seq<char> {
    "compaction merge ["@ + compactor_id + "]"@
}

/// `compaction merge [<compactor-id>]`.
pub fn merge_subject_of(compactor_id: &str) -> (s: String)
    ensures
        s@ == merge_subject(compactor_id@),
{
    let mut s = String::new();
    append_str(&mut s, "compaction merge [");
    append_str(&mut s, compactor_id);
    append_str(&mut s, "]");
    s
}

/// Land the compactor branch `compactor_id` into the dispatching branch
/// checked out at `parent_worktree`. `--no-ff --no-commit` sets the merge
/// up; no `MERGE_HEAD` afterwards means nothing to land (`NoOp`) or, when
/// the merge itself failed, a merge that could not begin (an error). A
/// merge git had to write markers into is declined; otherwise `git add -A`
/// resolves live-branch-wins, the product filter runs, and the two-parent
/// merge commits.
pub fn merge<G: GitRunner>(parent_worktree: &str, compactor_id: &str, git: &G) -> (r: Result<
    MergeOutcome,
    Error,
>)
    ensures
        r matches Err(Error::Git { op, .. }) ==> op@ == "compaction merge"@ || op@
            == "compaction merge unmerged"@ || op@ == "compaction merge abort"@ || op@
            == "compaction merge decline update-ref"@ || op@ == "compaction merge add"@ || op@
            == "compaction merge filter"@ || op@ == "compaction merge commit"@,
        r matches Ok(MergeOutcome::Conflicted(paths)) ==> paths@.len() > 0 && ascending(
            string_views(paths@),
        ),
        r == Ok::<MergeOutcome, Error>(MergeOutcome::NoOp) ==> git.succeeds(
            parent_worktree@,
            setup_args(compactor_id@),
        ) && merge_head_read(git, parent_worktree@, false),
        r matches Ok(MergeOutcome::Conflicted(paths)) ==> merge_head_read(git, parent_worktree@, true)
            && (exists|out: Seq<char>|
            #[trigger] git.prints(parent_worktree@, unmerged_args(), out) && conflicts_spec(out, string_views(paths@)))
            && git.succeeds(parent_worktree@, seq!["merge"@, "--abort"@]) && git.succeeds(
            parent_worktree@,
            mark_args(compactor_id@, agent_ref_spec(compactor_id@)),
        ),
        r == Ok::<MergeOutcome, Error>(MergeOutcome::Merged) ==> merge_head_read(git, parent_worktree@, true)
            && (exists|out: Seq<char>|
            #[trigger] git.prints(parent_worktree@, unmerged_args(), out) && conflicts_spec(out, Seq::empty()))
            && git.succeeds(parent_worktree@, seq!["add"@, "-A"@]) && filtered(git, parent_worktree@, "A"@, rm_args())
            && filtered(git, parent_worktree@, "M"@, restore_args()) && git.succeeds(
            parent_worktree@,
            seq!["commit"@, "--no-edit"@, "-m"@, merge_subject(compactor_id@)],
        ),
        r matches Err(Error::Git { op, .. }) ==> merge_failed_at(git, parent_worktree@, compactor_id@, op@),
{
    let compactor_ref = agent_ref(compactor_id);
    let subject = merge_subject_of(compactor_id);
    let setup = ["merge", "--no-ff", "--no-commit", "--no-edit", compactor_ref.as_str()];
    assert(argv(setup@) =~= setup_args(compactor_id@));
    let merge_res = git.run(parent_worktree, &setup);
    if !merge_in_progress(parent_worktree, git) {
        return match merge_res {
            Ok(()) => Ok(MergeOutcome::NoOp),
            Err(source) => Err(Error::Git { op: "compaction merge", source }),
        };
    }
    let conflicted = match content_conflicts(parent_worktree, git) {
        Ok(c) => c,
        Err(e) => return Err(e),
    };
    let ghost cout = choose|out: Seq<char>|
        #[trigger] git.prints(parent_worktree@, unmerged_args(), out) && conflicts_spec(out, string_views(conflicted@));
    assert(conflicts_read(git, parent_worktree@, string_views(conflicted@)));
    if conflicted.len() > 0 {
        let d = decline(parent_worktree, compactor_id, compactor_ref.as_str(), conflicted, git);
        proof {
            if let Err(Error::Git { op, .. }) = d {
                assert(string_views(conflicted@).len() > 0);
                assert(merge_failed_at(git, parent_worktree@, compactor_id@, op@));
            }
        }
        return d;
    }
    assert(string_views(conflicted@) =~= Seq::<Seq<char>>::empty());
    assert(git.prints(parent_worktree@, unmerged_args(), cout) && conflicts_spec(cout, Seq::empty()));
    let add = ["add", "-A"];
    assert(argv(add@) =~= seq!["add"@, "-A"@]);
    if let Err(source) = git.run(parent_worktree, &add) {
        return Err(Error::Git { op: "compaction merge add", source });
    }
    match filter_to_product(parent_worktree, git) {
        Ok(()) => {},
        Err(e) => return Err(e),
    }
    let commit = ["commit", "--no-edit", "-m", subject.as_str()];
    assert(argv(commit@) =~= seq!["commit"@, "--no-edit"@, "-m"@, merge_subject(compactor_id@)]);
    match git.run(parent_worktree, &commit) {
        Err(source) => Err(Error::Git { op: "compaction merge commit", source }),
        Ok(()) => Ok(MergeOutcome::Merged),
    }
}

} // verus!
