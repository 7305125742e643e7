//! Per-conversation budget enforcement.
//!
//! `workflow.yaml` declares `budgets: {max_total_tokens, max_wall_seconds,
//! max_depth}`, each optional (omitted is unbounded). The harness checks
//! them at every model-call boundary and at every dispatch. Tokens and wall
//! are whole-tree consumables, derived from the shared `steps/` tree of the
//! conversation's root ([`root_of`]) and exhausted at `actual >= limit`, so
//! the driver stops before it overspends. Depth is positional, derived from
//! the branch name alone and exhausted at `actual > limit`: `max_depth` is
//! the deepest allowed depth, and a root (depth 0) is never depth-exhausted.
//!
//! Exhaustion is an ordinary terminal state: the branch's step loop ends
//! and `refs/lernie/budget-exhausted/<branch>` marks it ([`mark_exhausted`]).

use vstd::prelude::*;
use crate::error::{argv, GitRunner};
use crate::text::{append_str, chars_of, string_of_range, to_decimal, u64_to_string};

verus! {

/// Git-native marker ref prefix for an exhausted conversation.
pub const BUDGET_EXHAUSTED_REF_PREFIX: &'static str = "refs/lernie/budget-exhausted/";

/// Which declared limit a conversation crossed.
#[derive(Debug, Clone, Copy, PartialEq, Eq, Structural)]
pub enum Axis {
    Tokens,
    Wall,
    Depth,
}

/// The `workflow.yaml` key each axis is declared under.
pub open spec fn axis_key(a: Axis) -> Seq<char> {
    match a {
        Axis::Tokens => "max_total_tokens"@,
        Axis::Wall => "max_wall_seconds"@,
        Axis::Depth => "max_depth"@,
    }
}

impl Axis {
    /// The declared key this axis is written as — its operator-facing name.
    pub fn as_str(&self) -> (r: &'static str)
        ensures
            r@ == axis_key(*self),
    {
        match self {
            Axis::Tokens => "max_total_tokens",
            Axis::Wall => "max_wall_seconds",
            Axis::Depth => "max_depth",
        }
    }
}

/// The crossed limit and the derived actual that crossed it.
#[derive(Debug, Clone, Copy, PartialEq, Eq, Structural)]
pub struct Exhausted {
    pub axis: Axis,
    pub limit: u64,
    pub actual: u64,
}

/// The operator-facing line for an exhaustion:
/// `<axis> exhausted (<actual>/<limit>)`.
pub open spec fn exhausted_line(e: Exhausted) -> Seq<char> {
    axis_key(e.axis) + " exhausted ("@ + to_decimal(e.actual as nat) + "/"@ + to_decimal(
        e.limit as nat,
    ) + ")"@
}

impl Exhausted {
    /// The diagnostic line naming the axis and the ratio that crossed it.
    pub fn describe(&self) -> (s: String)
        ensures
            s@ == exhausted_line(*self),
    {
        let mut s = String::new();
        append_str(&mut s, self.axis.as_str());
        append_str(&mut s, " exhausted (");
        let actual = u64_to_string(self.actual);
        append_str(&mut s, actual.as_str());
        append_str(&mut s, "/");
        let limit = u64_to_string(self.limit);
        append_str(&mut s, limit.as_str());
        append_str(&mut s, ")");
        s
    }
}

/// The declared `budgets:` block. `None` is unbounded.
#[derive(Debug, Clone, Copy, PartialEq, Eq)]
pub struct Budgets {
    pub max_total_tokens: Option<u64>,
    pub max_wall_seconds: Option<u64>,
    pub max_depth: Option<u32>,
}

impl Default for Budgets {
    fn default() -> (b: Self)
        ensures
            b.max_total_tokens is None,
            b.max_wall_seconds is None,
            b.max_depth is None,
    {
        Budgets { max_total_tokens: None, max_wall_seconds: None, max_depth: None }
    }
}

/// Number of `-` characters in `s`.
pub open spec fn hyphens(s: Seq<char>) -> nat
    decreases s.len(),
{
    if s.len() == 0 {
        0
    } else {
        hyphens(s.drop_last()) + if s.last() == '-' {
            1nat
        } else {
            0nat
        }
    }
}

/// A branch's dispatch depth. Ids are hyphenated descents: a root is
/// `<ts>-<short>` and every dispatch appends `-<ts>-<short>`, so two
/// hyphens make one level.
pub open spec fn depth_of(s: Seq<char>) -> nat {
    hyphens(s) / 2
}

/// Whether `i` is the position of the second hyphen of `s`.
pub open spec fn second_hyphen_at(s: Seq<char>, i: int) -> bool {
    0 <= i < s.len() && s[i] == '-' && hyphens(s.take(i)) == 1
}

/// The root conversation id of a branch: everything before its second
/// hyphen (`<ts>-<short>`), or the whole id when it has at most one.
pub open spec fn root_spec(s: Seq<char>) -> Seq<char> {
    if exists|i: int| second_hyphen_at(s, i) {
        s.take(choose|i: int| second_hyphen_at(s, i))
    } else {
        s
    }
}

proof fn lemma_hyphens_step(s: Seq<char>, i: int)
    requires
        0 <= i < s.len(),
    ensures
        hyphens(s.take(i + 1)) == hyphens(s.take(i)) + if s[i] == '-' {
            1nat
        } else {
            0nat
        },
{
    assert(s.take(i + 1).drop_last() =~= s.take(i));
}

proof fn lemma_hyphens_mono(s: Seq<char>, i: int, j: int)
    requires
        0 <= i <= j <= s.len(),
    ensures
        hyphens(s.take(i)) <= hyphens(s.take(j)),
    decreases j - i,
{
    if i < j {
        lemma_hyphens_mono(s, i, j - 1);
        lemma_hyphens_step(s, j - 1);
    }
}

proof fn lemma_take_all(s: Seq<char>)
    ensures
        s.take(s.len() as int) == s,
{
    assert(s.take(s.len() as int) =~= s);
}

/// The second hyphen, where there is one, is one position.
proof fn lemma_second_hyphen_unique(s: Seq<char>, i: int, j: int)
    requires
        second_hyphen_at(s, i),
        second_hyphen_at(s, j),
    ensures
        i == j,
{
    if i < j {
        lemma_hyphens_step(s, i);
        lemma_hyphens_mono(s, i + 1, j);
    } else if j < i {
        lemma_hyphens_step(s, j);
        lemma_hyphens_mono(s, j + 1, i);
    }
}

/// Any second hyphen is what [`root_spec`] cuts at.
proof fn lemma_root_at(s: Seq<char>, i: int)
    requires
        second_hyphen_at(s, i),
    ensures
        root_spec(s) == s.take(i),
{
    let k = choose|k: int| second_hyphen_at(s, k);
    lemma_second_hyphen_unique(s, i, k);
}

/// A branch with two or more hyphens has a second one.
proof fn lemma_second_hyphen_exists(s: Seq<char>)
    requires
        hyphens(s) >= 2,
    ensures
        exists|i: int| second_hyphen_at(s, i),
    decreases s.len(),
{
    let d = s.drop_last();
    if hyphens(d) >= 2 {
        lemma_second_hyphen_exists(d);
        let i = choose|i: int| second_hyphen_at(d, i);
        assert(d.take(i) =~= s.take(i));
        assert(second_hyphen_at(s, i));
    } else {
        assert(d =~= s.take(s.len() - 1));
        assert(second_hyphen_at(s, s.len() - 1));
    }
}

/// A branch with at most one hyphen has no second one.
proof fn lemma_no_second_hyphen(s: Seq<char>)
    requires
        hyphens(s) <= 1,
    ensures
        !exists|i: int| second_hyphen_at(s, i),
{
    if exists|i: int| second_hyphen_at(s, i) {
        let i = choose|i: int| second_hyphen_at(s, i);
        lemma_hyphens_step(s, i);
        lemma_hyphens_mono(s, i + 1, s.len() as int);
        lemma_take_all(s);
    }
}

proof fn lemma_hyphens_concat(a: Seq<char>, b: Seq<char>)
    ensures
        hyphens(a + b) == hyphens(a) + hyphens(b),
    decreases b.len(),
{
    if b.len() == 0 {
        assert(a + b =~= a);
    } else {
        lemma_hyphens_concat(a, b.drop_last());
        assert((a + b).drop_last() =~= a + b.drop_last());
    }
}

/// The number of hyphens in `v`.
fn count_hyphens(v: &Vec<char>) -> (n: usize)
    ensures
        n as nat == hyphens(v@),
{
    let mut n: usize = 0;
    let mut i: usize = 0;
    while i < v.len()
        invariant
            i <= v.len(),
            n <= i,
            n as nat == hyphens(v@.take(i as int)),
        decreases v.len() - i,
    {
        proof {
            lemma_hyphens_step(v@, i as int);
        }
        if v[i] == '-' {
            n += 1;
        }
        i += 1;
    }
    proof {
        lemma_take_all(v@);
    }
    n
}

/// The dispatch depth of `branch` (positional: derived from the name
/// alone, so it is exact for a branch that does not exist yet).
pub fn depth(branch: &str) -> (d: u64)
    ensures
        d as nat == depth_of(branch@),
{
    let v = chars_of(branch);
    let n = count_hyphens(&v);
    (n / 2) as u64
}

/// The root conversation id of a branch (`<ts>-<short>`): every
/// dispatch appends `-<ts>-<short>`, so the root is the prefix before the
/// second hyphen. A bare root id is its own root. Whole-tree spend and
/// wall derive against this.
pub fn root_of(branch: &str) -> (r: String)
    ensures
        r@ == root_spec(branch@),
{
    let v = chars_of(branch);
    let mut seen: usize = 0;
    let mut i: usize = 0;
    while i < v.len()
        invariant
            i <= v.len(),
            v@ == branch@,
            seen as nat == hyphens(v@.take(i as int)),
            seen <= 1,
        decreases v.len() - i,
    {
        proof {
            lemma_hyphens_step(v@, i as int);
        }
        if v[i] == '-' {
            if seen == 1 {
                proof {
                    assert(second_hyphen_at(v@, i as int));
                    lemma_root_at(v@, i as int);
                }
                return string_of_range(&v, 0, i);
            }
            seen += 1;
        }
        i += 1;
    }
    proof {
        lemma_take_all(v@);
        lemma_no_second_hyphen(v@);
        assert(v@.subrange(0, v@.len() as int) =~= v@);
    }
    string_of_range(&v, 0, v.len())
}

/// What [`check`] answers: the first crossed axis in the order tokens,
/// wall, depth, or `None` when every declared limit has headroom.
pub open spec fn check_spec(branch: Seq<char>, b: Budgets, spend: u64, wall: u64) -> Option<
    Exhausted,
> {
    if b.max_total_tokens is Some && spend >= b.max_total_tokens->0 {
        Some(Exhausted { axis: Axis::Tokens, limit: b.max_total_tokens->0, actual: spend })
    } else if b.max_wall_seconds is Some && wall >= b.max_wall_seconds->0 {
        Some(Exhausted { axis: Axis::Wall, limit: b.max_wall_seconds->0, actual: wall })
    } else if b.max_depth is Some && depth_of(branch) > b.max_depth->0 {
        Some(
            Exhausted {
                axis: Axis::Depth,
                limit: b.max_depth->0 as u64,
                actual: depth_of(branch) as u64,
            },
        )
    } else {
        None
    }
}

/// Evaluate the frozen `budgets` for `branch`. `spend` and `wall_seconds`
/// are the whole tree's live totals, derived from the `steps/` records of
/// [`root_of`]`(branch)` and its entire descent. Tokens and wall exhaust at
/// `actual >= limit`; depth at `actual > limit`. Returns the first crossed
/// axis, or `None` when every declared limit still has headroom; an
/// unbounded axis never triggers.
pub fn check(branch: &str, budgets: &Budgets, spend: u64, wall_seconds: u64) -> (r: Option<
    Exhausted,
>)
    ensures
        r == check_spec(branch@, *budgets, spend, wall_seconds),
{
    if let Some(limit) = budgets.max_total_tokens {
        if spend >= limit {
            return Some(Exhausted { axis: Axis::Tokens, limit, actual: spend });
        }
    }
    if let Some(limit) = budgets.max_wall_seconds {
        if wall_seconds >= limit {
            return Some(Exhausted { axis: Axis::Wall, limit, actual: wall_seconds });
        }
    }
    if let Some(limit) = budgets.max_depth {
        let actual = depth(branch);
        if actual > limit as u64 {
            return Some(Exhausted { axis: Axis::Depth, limit: limit as u64, actual });
        }
    }
    None
}

/// The marker ref naming an exhausted `branch`.
pub open spec fn exhausted_ref(branch: Seq<char>) -> Seq<char> {
    BUDGET_EXHAUSTED_REF_PREFIX@ + branch
}

/// `refs/lernie/budget-exhausted/<branch>`.
pub fn exhausted_ref_name(branch: &str) -> (r: String)
    ensures
        r@ == exhausted_ref(branch@),
{
    let mut r = String::new();
    append_str(&mut r, BUDGET_EXHAUSTED_REF_PREFIX);
    append_str(&mut r, branch);
    r
}

/// Write the budget-exhausted marker ref for `branch` at its tip
/// (`git update-ref refs/lernie/budget-exhausted/<branch> <branch>`), run
/// inside `worktree`. State lives in git, not a sidecar file. Whatever git
/// answers is passed back unchanged.
pub fn mark_exhausted<G: GitRunner>(worktree: &str, branch: &str, git: &G) -> (r: std::io::Result<()>)
    ensures
        r is Ok ==> git.succeeds(worktree@, seq!["update-ref"@, exhausted_ref(branch@), branch@]),
        r is Err ==> git.fails(worktree@, seq!["update-ref"@, exhausted_ref(branch@), branch@]),
{
    let ref_name = exhausted_ref_name(branch);
    let args = ["update-ref", ref_name.as_str(), branch];
    assert(argv(args@) =~= seq!["update-ref"@, exhausted_ref(branch@), branch@]);
    git.run(worktree, &args)
}

// ---- laws ------------------------------------------------------------------

/// A root is never depth-exhausted: the root of any branch is at depth 0,
/// so no `max_depth` (all are non-negative) is exceeded by it.
pub proof fn law_root_is_depth_zero(branch: Seq<char>)
    ensures
        depth_of(root_spec(branch)) == 0,
        hyphens(root_spec(branch)) <= 1,
{
    if exists|i: int| second_hyphen_at(branch, i) {
        let i = choose|i: int| second_hyphen_at(branch, i);
        assert(root_spec(branch) == branch.take(i));
    } else if hyphens(branch) >= 2 {
        lemma_second_hyphen_exists(branch);
    }
}

/// Taking the root twice is taking it once.
pub proof fn law_root_idempotent(branch: Seq<char>)
    ensures
        root_spec(root_spec(branch)) == root_spec(branch),
{
    law_root_is_depth_zero(branch);
    lemma_no_second_hyphen(root_spec(branch));
}

/// A dispatch names its child `<parent>-<ts>-<short>`; for hyphen-free
/// `ts` and `short`, the child sits exactly one level below its parent and
/// belongs to the same tree, so whole-tree spend and wall are derived over
/// the same root from either.
pub proof fn law_child_is_one_level_deeper_in_the_same_tree(
    parent: Seq<char>,
    ts: Seq<char>,
    short: Seq<char>,
)
    requires
        hyphens(parent) >= 1,
        hyphens(ts) == 0,
        hyphens(short) == 0,
    ensures
        depth_of(parent + "-"@ + ts + "-"@ + short) == depth_of(parent) + 1,
        root_spec(parent + "-"@ + ts + "-"@ + short) == root_spec(parent),
{
    let dash = seq!['-'];
    assert("-"@ =~= dash) by {
        reveal_strlit("-");
    }
    let child = parent + dash + ts + dash + short;
    assert(hyphens(dash) == 1) by {
        assert(dash.drop_last() =~= Seq::<char>::empty());
        assert(hyphens(Seq::<char>::empty()) == 0);
        assert(dash.last() == '-');
    }
    lemma_hyphens_concat(parent, dash);
    lemma_hyphens_concat(parent + dash, ts);
    lemma_hyphens_concat(parent + dash + ts, dash);
    lemma_hyphens_concat(parent + dash + ts + dash, short);
    assert(hyphens(child) == hyphens(parent) + 2);
    if exists|i: int| second_hyphen_at(parent, i) {
        let i = choose|i: int| second_hyphen_at(parent, i);
        assert(child.take(i) =~= parent.take(i));
        assert(child[i] == parent[i]);
        assert(second_hyphen_at(child, i));
        lemma_root_at(child, i);
        lemma_root_at(parent, i);
    } else {
        if hyphens(parent) >= 2 {
            lemma_second_hyphen_exists(parent);
        }
        let n = parent.len() as int;
        assert(child.take(n) =~= parent);
        assert(child[n] == '-');
        assert(second_hyphen_at(child, n));
        lemma_root_at(child, n);
        lemma_take_all(parent);
    }
}

/// Exhaustion is monotone in spend and wall: a tree that has crossed a
/// limit stays across it as it spends more and runs longer.
pub proof fn law_check_monotone(
    branch: Seq<char>,
    b: Budgets,
    spend: u64,
    wall: u64,
    more_spend: u64,
    more_wall: u64,
)
    requires
        spend <= more_spend,
        wall <= more_wall,
        check_spec(branch, b, spend, wall) is Some,
    ensures
        check_spec(branch, b, more_spend, more_wall) is Some,
{
}

/// **A reached token budget is always reported**: whatever the branch,
/// the wall clock and the other limits, spend at or past a declared token
/// limit answers with the token axis, that limit, and the spend.
pub proof fn law_reached_token_limit_is_reported(branch: Seq<char>, b: Budgets, limit: u64, spend: u64, wall: u64)
    requires
        b.max_total_tokens == Some(limit),
        spend >= limit,
    ensures
        check_spec(branch, b, spend, wall) == Some(Exhausted { axis: Axis::Tokens, limit, actual: spend }),
{
}

/// **A reached wall-clock budget is always reported**: with the tokens in
/// headroom (or unbounded), a wall clock at or past a declared wall limit
/// answers with the wall axis, that limit, and the elapsed seconds,
/// whatever the depth.
pub proof fn law_reached_wall_limit_is_reported(branch: Seq<char>, b: Budgets, limit: u64, spend: u64, wall: u64)
    requires
        b.max_wall_seconds == Some(limit),
        wall >= limit,
        b.max_total_tokens matches Some(t) ==> spend < t,
    ensures
        check_spec(branch, b, spend, wall) == Some(Exhausted { axis: Axis::Wall, limit, actual: wall }),
{
}

/// **A crossed depth is always reported**: with tokens and wall in headroom
/// (or unbounded), a branch deeper than a declared `max_depth` answers with
/// the depth axis, that limit, and the branch's depth.
pub proof fn law_crossed_depth_is_reported(branch: Seq<char>, b: Budgets, limit: u32, spend: u64, wall: u64)
    requires
        b.max_depth == Some(limit),
        depth_of(branch) > limit,
        b.max_total_tokens matches Some(t) ==> spend < t,
        b.max_wall_seconds matches Some(w) ==> wall < w,
    ensures
        check_spec(branch, b, spend, wall) == Some(
            Exhausted { axis: Axis::Depth, limit: limit as u64, actual: depth_of(branch) as u64 },
        ),
{
}

/// **Headroom on every declared axis is no exhaustion**: spend under the
/// token limit, wall under the wall limit and depth at most the depth limit
/// (each where declared) answer `None`.
pub proof fn law_headroom_is_not_exhaustion(branch: Seq<char>, b: Budgets, spend: u64, wall: u64)
    requires
        b.max_total_tokens matches Some(t) ==> spend < t,
        b.max_wall_seconds matches Some(w) ==> wall < w,
        b.max_depth matches Some(d) ==> depth_of(branch) <= d,
    ensures
        check_spec(branch, b, spend, wall) is None,
{
}

} // verus!
