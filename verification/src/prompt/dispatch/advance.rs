//! `lernie advance` — one hop of a branch's driver: acquire or exit,
//! deliver the inbox, interpret returned children, and take at most one
//! step when the transcript warrants a model call. The hop's outcome says
//! what it did and, when tools are pending, carries the executor lock on
//! to the next hop.

use vstd::prelude::*;
use crate::prompt::dispatch::step_loop::{Epitaph, Warrant};

verus! {

/// What one hop did.
#[derive(Debug)]
pub enum AdvanceOutcome<L> {
    /// Another executor holds the lock; this hop did nothing.
    AlreadyDriven,
    /// Nothing warranted a model call (or the worktree is gone); the lock
    /// was released and the inbox re-probed.
    NothingToDo,
    /// The step reached a terminal event and concluded it.
    Terminal,
    /// The step ran tools; the lock is handed on to the next hop.
    ToolsPending(L),
    /// The step parked on a held tool; the lock was released.
    Held,
}

/// How the one step of a hop ended.
#[derive(Debug, Clone, Copy, PartialEq, Eq, Structural)]
pub enum StepOutcome {
    /// Tool calls ran and their results committed; another step is owed.
    ToolsRan,
    /// A tool parked the branch.
    Held,
    /// The loop ended with this epitaph.
    Terminal(Epitaph),
}

/// What the hop does once it knows the warrant: step, or stop here.
#[derive(Debug, Clone, Copy, PartialEq, Eq, Structural)]
pub enum OnWarrant {
    /// A model call is due: take one step.
    Step,
    /// Release the lock, re-probe, and report nothing to do.
    Release,
    /// Refuse: the branch's last turn asked for tools that never answered.
    Unpaired,
}

/// The hop's move on a warrant.
pub fn on_warrant(w: Warrant) -> (r: OnWarrant)
    ensures
        r == match w {
            Warrant::ModelCallDue => OnWarrant::Step,
            Warrant::NothingDue => OnWarrant::Release,
            Warrant::Unpaired => OnWarrant::Unpaired,
        },
{
    match w {
        Warrant::ModelCallDue => OnWarrant::Step,
        Warrant::NothingDue => OnWarrant::Release,
        Warrant::Unpaired => OnWarrant::Unpaired,
    }
}

/// The hop's outcome once its step ended: ran tools keeps the lease for
/// the next hop; a hold and a terminal event give it up.
pub fn outcome_after_step<L>(o: StepOutcome, lease: L) -> (r: AdvanceOutcome<L>)
    ensures
        match o {
            StepOutcome::ToolsRan => r == AdvanceOutcome::ToolsPending(lease),
            StepOutcome::Held => r is Held,
            StepOutcome::Terminal(_) => r is Terminal,
        },
{
    match o {
        StepOutcome::ToolsRan => AdvanceOutcome::ToolsPending(lease),
        StepOutcome::Held => AdvanceOutcome::Held,
        StepOutcome::Terminal(_) => AdvanceOutcome::Terminal,
    }
}

/// The handoff once a hop returns: the lease for a successor hop when
/// tools are pending (it re-enters the step loop holding the same lock),
/// else nothing — the process is done.
pub fn successor_lease<L>(o: AdvanceOutcome<L>) -> (r: Option<L>)
    ensures
        match o {
            AdvanceOutcome::ToolsPending(l) => r == Some(l),
            _ => r is None,
        },
{
    match o {
        AdvanceOutcome::ToolsPending(l) => Some(l),
        _ => None,
    }
}

} // verus!
