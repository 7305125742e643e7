//! Workspace naming: where agents' branches live in git.

use vstd::prelude::*;
use crate::text::append_str;

verus! {

/// The ref namespace every agent branch lives under.
pub const AGENT_REF_PREFIX: &'static str = "agents/";

/// The marker-ref prefix a declined landing leaves at the refused
/// compactor's tip.
pub const CONFLICTED_REF_PREFIX: &'static str = "refs/lernie/conflicted/";

/// The default config branch a fresh root agent forks off.
pub const DEFAULT_CONFIG_REF: &'static str = "config/default";

/// The workspace's bare repository, beside the agents' worktrees.
pub const REPO_GIT: &'static str = "repo.git";

/// The workspace's bare repository.
pub fn repo_git(workspace: &str) -> (r: String)
    ensures
        r@ == crate::paths::join_spec(workspace@, REPO_GIT@),
{
    crate::paths::join(workspace, REPO_GIT)
}

/// The branch name of agent `id`: `agents/<id>`.
pub open spec fn agent_ref_spec(id: Seq<char>) -> Seq<char> {
    AGENT_REF_PREFIX@ + id
}

/// `agents/<id>`.
pub fn agent_ref(id: &str) -> (r: String)
    ensures
        r@ == agent_ref_spec(id@),
{
    let mut r = String::new();
    append_str(&mut r, AGENT_REF_PREFIX);
    append_str(&mut r, id);
    r
}

/// `refs/lernie/conflicted/<compactor-id>`.
pub fn conflicted_ref(compactor_id: &str) -> (r: String)
    ensures
        r@ == CONFLICTED_REF_PREFIX@ + compactor_id@,
{
    let mut r = String::new();
    append_str(&mut r, CONFLICTED_REF_PREFIX);
    append_str(&mut r, compactor_id);
    r
}

} // verus!
