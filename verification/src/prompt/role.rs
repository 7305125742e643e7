//! An agent's role, derived from its founding commit: a child's
//! dispatch commit is `dispatch: <role> [<agent-id>]`, a root's is
//! `step 001: dispatch [<agent-id>]`. Only the first names a role, so a
//! root derives to no role (and the worker default applies upstream).

use vstd::prelude::*;
use crate::error::{argv, Error, GitRunner};
use crate::prompt::compactor::checkpoint::sha_of_spec;
use crate::ui::opt_chars;
use crate::text::{append_str, chars_of, ends_with, has_prefix, has_suffix, starts_with, string_of_range, trim, trim_chars};

verus! {

/// The subject prefix of a child's dispatch commit.
pub const DISPATCH_SUBJECT_PREFIX: &'static str = "dispatch: ";

/// The role a founding-commit `subject` names for `agent_id`: the text
/// between `dispatch: ` and ` [<agent-id>]`, or `None` when the subject
/// is not a child's dispatch commit for that agent.
pub open spec fn role_of_subject_spec(subject: Seq<char>, agent_id: Seq<char>) -> Option<
    Seq<char>,
> {
    let head = DISPATCH_SUBJECT_PREFIX@;
    let tail = " ["@ + agent_id + "]"@;
    if has_prefix(subject, head) && has_suffix(subject, tail) && head.len() + tail.len()
        <= subject.len() {
        Some(subject.subrange(head.len() as int, subject.len() - tail.len()))
    } else {
        None
    }
}

/// **A dispatch commit's subject gives back the role it was written
/// with**: for any role and child id, `dispatch: <role> [<child>]` reads
/// as `role` for that child; and a root's founding subject,
/// `step 001: dispatch [<id>]`, names no role.
pub proof fn law_dispatch_subject_names_its_role(role: Seq<char>, child: Seq<char>)
    ensures
        role_of_subject_spec("dispatch: "@ + role + " ["@ + child + "]"@, child) == Some(role),
        role_of_subject_spec("step 001: dispatch ["@ + child + "]"@, child) is None,
{
    reveal_strlit("dispatch: ");
    reveal_strlit(" [");
    reveal_strlit("]");
    reveal_strlit("step 001: dispatch [");
    let head = DISPATCH_SUBJECT_PREFIX@;
    let tail = " ["@ + child + "]"@;
    let subject = "dispatch: "@ + role + " ["@ + child + "]"@;
    assert(subject =~= head + role + tail);
    assert(subject.subrange(0, head.len() as int) =~= head);
    assert(subject.subrange(subject.len() - tail.len(), subject.len() as int) =~= tail);
    assert(subject.subrange(head.len() as int, subject.len() - tail.len()) =~= role);
    let root = "step 001: dispatch ["@ + child + "]"@;
    assert(root[0] == 's');
    assert(head[0] == 'd');
    assert(!has_prefix(root, head)) by {
        if has_prefix(root, head) {
            assert(root.subrange(0, head.len() as int)[0] == root[0]);
        }
    }
}

/// The founding-subject tail ` [<agent-id>]`.
fn subject_tail(agent_id: &str) -> (v: Vec<char>)
    ensures
        v@ == " ["@ + agent_id@ + "]"@,
{
    let mut s = String::new();
    append_str(&mut s, " [");
    append_str(&mut s, agent_id);
    append_str(&mut s, "]");
    chars_of(s.as_str())
}

/// Read the role out of a founding-commit subject.
pub fn role_of_subject(subject: &str, agent_id: &str) -> (r: Option<String>)
    ensures
        match r {
            Some(role) => role_of_subject_spec(subject@, agent_id@) == Some(role@),
            None => role_of_subject_spec(subject@, agent_id@) is None,
        },
{
    let s = chars_of(subject);
    let head = chars_of(DISPATCH_SUBJECT_PREFIX);
    let tail = subject_tail(agent_id);
    if starts_with(&s, &head) && ends_with(&s, &tail) && head.len() <= s.len() && tail.len()
        <= s.len() - head.len() {
        Some(string_of_range(&s, head.len(), s.len() - tail.len()))
    } else {
        None
    }
}

/// The `--grep` pattern finding the commit that founds `agent_id`:
/// a subject ending `[<agent-id>]` (`-E` regex).
pub open spec fn founding_pattern(agent_id: Seq<char>) -> Seq<char> {
    "\\["@ + agent_id + "\\]$"@
}

/// [`founding_pattern`] as a string.
pub fn founding_pattern_of(agent_id: &str) -> (s: String)
    ensures
        s@ == founding_pattern(agent_id@),
{
    let mut s = String::new();
    append_str(&mut s, "\\[");
    append_str(&mut s, agent_id);
    append_str(&mut s, "\\]$");
    s
}

/// The first line of `out`, trimmed — the subject `git log -n 1
/// --format=%s` printed, or nothing.
pub open spec fn first_subject(out: Seq<char>) -> Seq<char> {
    trim(out)
}

/// `log -n 1 --format=<format> -E --grep <founding pattern> <rev>`.
pub open spec fn founding_log_args(format: Seq<char>, rev: Seq<char>, agent_id: Seq<char>) -> Seq<Seq<char>> {
    seq!["log"@, "-n"@, "1"@, format, "-E"@, "--grep"@, founding_pattern(agent_id), rev]
}

/// Derive `agent_id`'s role from its founding commit reachable from `rev`
/// (`git log -n 1 --format=%s -E --grep '\[<agent-id>\]$' <rev>`). No
/// founding commit, or a root's, derives to `None`.
pub fn derive<G: GitRunner>(worktree: &str, rev: &str, agent_id: &str, git: &G) -> (r: Result<
    Option<String>,
    Error,
>)
    ensures
        r matches Err(e) ==> e matches Error::Git { op, .. } && op@ == "role founding subject"@,
        r matches Ok(role) ==> exists|out: Seq<char>|
            #[trigger] git.prints(worktree@, founding_log_args("--format=%s"@, rev@, agent_id@), out)
                && opt_chars(role) == role_of_subject_spec(first_subject(out), agent_id@),
        r is Err ==> git.fails(worktree@, founding_log_args("--format=%s"@, rev@, agent_id@)),
{
    let pattern = founding_pattern_of(agent_id);
    let args = ["log", "-n", "1", "--format=%s", "-E", "--grep", pattern.as_str(), rev];
    assert(argv(args@) =~= founding_log_args("--format=%s"@, rev@, agent_id@));
    match git.run_capture(worktree, &args) {
        Err(source) => Err(Error::Git { op: "role founding subject", source }),
        Ok(out) => {
            let v = chars_of(out.as_str());
            let t = trim_chars(&v);
            let subject = string_of_range(&t, 0, t.len());
            assert(subject@ =~= first_subject(out@));
            Ok(role_of_subject(subject.as_str(), agent_id))
        },
    }
}

/// The sha of `agent_id`'s founding commit reachable from `rev`
/// (`git log -n 1 --format=%H -E --grep '\[<agent-id>\]$' <rev>`), or
/// `None` when there is none.
pub fn founding_sha<G: GitRunner>(worktree: &str, rev: &str, agent_id: &str, git: &G) -> (r: Result<
    Option<String>,
    Error,
>)
    ensures
        r matches Err(e) ==> e matches Error::Git { op, .. } && op@ == "role founding sha"@,
        r matches Ok(Some(sha)) ==> sha@.len() > 0,
        r matches Ok(sha) ==> exists|out: Seq<char>|
            #[trigger] git.prints(worktree@, founding_log_args("--format=%H"@, rev@, agent_id@), out)
                && opt_chars(sha) == sha_of_spec(out),
        r is Err ==> git.fails(worktree@, founding_log_args("--format=%H"@, rev@, agent_id@)),
{
    let pattern = founding_pattern_of(agent_id);
    let args = ["log", "-n", "1", "--format=%H", "-E", "--grep", pattern.as_str(), rev];
    assert(argv(args@) =~= founding_log_args("--format=%H"@, rev@, agent_id@));
    match git.run_capture(worktree, &args) {
        Err(source) => Err(Error::Git { op: "role founding sha", source }),
        Ok(out) => Ok(crate::prompt::compactor::checkpoint::sha_of(out.as_str())),
    }
}

} // verus!
