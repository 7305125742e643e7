//! The launched driver's own-branch entry.
//!
//! Every launch spawns a driver that runs this entry against its target
//! agent. Warrant is decided here, under the lock, never by the launcher:
//! the driver acquires or exits, and what it finds decides what happens.
//! A driver that acquires and finds nothing to deliver exits silently — no
//! step, no epitaph, no further launch — so the exit-launch recursion ends
//! there. Found mail is delivered through the ordinary step-boundary
//! drain, after rematerializing the worktree if quiescence tore it down.
//!
//! Taking the lock, listing the inbox and looking for the worktree are the
//! process edge's; [`drive`] is the decision they feed, and
//! [`rematerialize`] the one git act it may call for.

use vstd::prelude::*;
use crate::error::{argv, Error, GitRunner};
use crate::paths::join;

verus! {

/// The primary worktree, where the workspace's `.git` lives.
pub const ROOT_WORKTREE: &'static str = "root";

/// What one drive found and did — derived on the fly, nothing stored.
#[derive(Debug, PartialEq, Eq, Structural)]
pub enum DriveOutcome {
    /// Another executor holds the lock: the branch is already driven, so
    /// this driver exits as a clean no-op.
    AlreadyDriven,
    /// Acquired and found an empty inbox: the silent exit — no step, no
    /// epitaph, no further launch.
    NothingToDeliver,
    /// Acquired and delivered this many pending messages as delivery
    /// commits.
    Delivered(usize),
}

/// What the driver does with what it found.
#[derive(Debug, PartialEq, Eq, Structural)]
pub enum DrivePlan {
    /// Exit now with this outcome; nothing is delivered.
    Exit(DriveOutcome),
    /// Deliver the pending messages — rematerializing the worktree first
    /// when it is gone — and report [`DriveOutcome::Delivered`] with the
    /// number delivered as commits.
    Deliver { pending: usize, rematerialize: bool },
}

/// Drive an agent's branch given what was found: whether the lock was
/// acquired, how many deposits are pending, and whether the worktree is
/// still there. Without the lock nothing else was looked at, so the other
/// two do not count.
pub fn drive(acquired: bool, pending: usize, worktree_exists: bool) -> (p: DrivePlan)
    ensures
        !acquired ==> p == DrivePlan::Exit(DriveOutcome::AlreadyDriven),
        acquired && pending == 0 ==> p == DrivePlan::Exit(DriveOutcome::NothingToDeliver),
        acquired && pending > 0 ==> p == (DrivePlan::Deliver { pending, rematerialize: !worktree_exists }),
{
    if !acquired {
        return DrivePlan::Exit(DriveOutcome::AlreadyDriven);
    }
    if pending == 0 {
        return DrivePlan::Exit(DriveOutcome::NothingToDeliver);
    }
    DrivePlan::Deliver { pending, rematerialize: !worktree_exists }
}

/// The outcome a completed plan reports: for a delivery, the number of
/// messages the drain `delivered` as delivery commits — which leaves
/// result messages behind, so it may be fewer than were pending.
pub fn outcome_of(plan: &DrivePlan, delivered: usize) -> (o: DriveOutcome)
    ensures
        match *plan {
            DrivePlan::Exit(e) => o == e,
            DrivePlan::Deliver { .. } => o == DriveOutcome::Delivered(delivered),
        },
{
    match plan {
        DrivePlan::Exit(DriveOutcome::AlreadyDriven) => DriveOutcome::AlreadyDriven,
        DrivePlan::Exit(DriveOutcome::NothingToDeliver) => DriveOutcome::NothingToDeliver,
        DrivePlan::Exit(DriveOutcome::Delivered(n)) => DriveOutcome::Delivered(*n),
        DrivePlan::Deliver { .. } => DriveOutcome::Delivered(delivered),
    }
}

/// Rematerialize a torn-down quiescent worktree off the persistent branch
/// ref (the worktree is disposable materialization, never state):
/// `git worktree add <worktree> <agent-id>`, run inside the primary
/// worktree where `.git` lives.
pub fn rematerialize<G: GitRunner>(workspace: &str, agent_id: &str, worktree: &str, git: &G) -> (r:
    Result<(), Error>)
    ensures
        r matches Err(e) ==> e matches Error::Git { op, .. } && op@ == "worktree add (rematerialize)"@,
        r is Ok ==> git.succeeds(
            crate::paths::join_spec(workspace@, ROOT_WORKTREE@),
            seq!["worktree"@, "add"@, worktree@, agent_id@],
        ),
        r is Err ==> git.fails(
            crate::paths::join_spec(workspace@, ROOT_WORKTREE@),
            seq!["worktree"@, "add"@, worktree@, agent_id@],
        ),
{
    let primary = join(workspace, ROOT_WORKTREE);
    let args = ["worktree", "add", worktree, agent_id];
    assert(argv(args@) =~= seq!["worktree"@, "add"@, worktree@, agent_id@]);
    match git.run(primary.as_str(), &args) {
        Ok(()) => Ok(()),
        Err(source) => Err(Error::Git { op: "worktree add (rematerialize)", source }),
    }
}

} // verus!
