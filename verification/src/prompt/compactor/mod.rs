//! Compaction — the model-driven compactor, its
//! checkpoint triggers, and the compaction merge.
//!
//! A **compactor** is an ordinary child agent: dispatched like any other
//! child with the `compactor` role, running its own step loop, returning by
//! depositing a result message. Two things about it are this module's own:
//! its **toolset** ([`tools`]) — the fixed pair `write_summary` /
//! `mark_for_deletion`, making "deletion-only" structural — and how its
//! output **lands** ([`merge`]). [`checkpoint`] is the trigger evaluation.

pub mod checkpoint;
pub mod land;
pub mod merge;
pub mod stages;
pub mod tools;

use vstd::prelude::*;
use crate::text::append_str;

verus! {

/// Role name of the compactor child.
pub const COMPACTOR_ROLE: &'static str = "compactor";

/// The text of the compactor goal before the branch name.
pub const GOAL_HEAD: &'static str = "You are the compactor for branch `";

/// The text of the compactor goal after the branch name.
pub const GOAL_TAIL: &'static str = "`.\n\nRead the branch's transcript, prior summaries under `summary/`, and\nwork products, and produce a signal-preserving, minimal view of the\nbranch's history using the `write_summary` tool. The harness writes it\nto the next `summary/<NNN>.md` on this branch.\n\nUse `mark_for_deletion` to nominate superseded files \u{2014} stale transcript\nentries under `messages/`, a prior `summary/` you are replacing, spent\n`skills/` bodies. Your toolset is deletion-only: you can remove and\nsummarize, never rewrite, so the worst case is lost information, never\ncorrupted information. A work product the live branch has rewritten\nsince you forked is kept regardless of your nomination (live-branch-wins).\n\nDecide relevance against the branch's goal at `goal.md`.\n";

/// Boilerplate goal handed to a compactor at dispatch: the dispatching
/// branch's name between [`GOAL_HEAD`] and [`GOAL_TAIL`], so the compactor
/// knows which branch it compacts.
pub fn compactor_goal(parent_branch: &str) -> (g: String)
    ensures
        g@ == GOAL_HEAD@ + parent_branch@ + GOAL_TAIL@,
{
    let mut g = String::new();
    append_str(&mut g, GOAL_HEAD);
    append_str(&mut g, parent_branch);
    append_str(&mut g, GOAL_TAIL);
    g
}

/// The terminal compaction's summary body: it identifies the parent
/// conversation, and nothing of `response.json` is read to make it.
pub fn build_summary(parent_conv_id: &str) -> (s: String)
    ensures
        s@ == "conversation "@ + parent_conv_id@ + ": terminal compaction\n"@,
{
    let mut s = String::new();
    append_str(&mut s, "conversation ");
    append_str(&mut s, parent_conv_id);
    append_str(&mut s, ": terminal compaction\n");
    s
}

} // verus!
