//! Step-boundary inbox drain.
//!
//! At each step boundary the executor drains the agent's inbox: it first
//! commits any renamed-but-uncommitted stray a prior death left under
//! `messages/`, then moves each pending message into the transcript. Only
//! well-formed `<sender>-<NNN>.md` deposits are pending, and they are
//! taken in `(mtime, filename)` order — arrival order is advisory, so the
//! drain makes it deterministic and the same inbox always yields the same
//! committed sequence. Listing the inbox is the process edge's; which
//! names are deposits, their order, and the stray recovery are here.

use vstd::prelude::*;
use crate::error::{argv, Error, GitRunner};
use crate::order::{lemma_lex_asymmetric, lemma_lex_irreflexive, lemma_lex_total, lemma_lex_transitive, lex_less, lex_lt, same_chars};
use crate::text::{append_str, blank, chars_of, has_suffix, is_blank, last_index, lemma_last_index, parse_u32, parse_u32_spec, rfind, slice, string_of};

verus! {

/// Extension of a deposited inbox message file (`<sender>-<NNN>.md`).
pub const MESSAGE_EXT: &'static str = "md";

/// The transcript directory of a worktree, where delivered messages land.
pub const MESSAGES_DIR: &'static str = "messages";

/// The `<sender>` of a `<sender>-<NNN>.md` deposit name: the `.md` suffix
/// stripped, the trailing `-<NNN>` split off at the last hyphen and parsed
/// as a `u32`, and the remainder kept — when it is non-empty and not a
/// leading-dot temp name.
pub open spec fn sender_spec(name: Seq<char>) -> Option<Seq<char>> {
    if !has_suffix(name, ".md"@) {
        None
    } else {
        let stem = name.take(name.len() - 3);
        match last_index(stem, '-') {
            None => None,
            Some(j) => {
                let sender = stem.take(j);
                if parse_u32_spec(stem.skip(j + 1)) is Some && sender.len() > 0 && sender[0] != '.' {
                    Some(sender)
                } else {
                    None
                }
            },
        }
    }
}

/// **A deposit's name gives back its sender, hyphens and all**: for any
/// sender that is non-empty and not a leading-dot temp name, and any
/// hyphen-free sequence number that parses, `<sender>-<NNN>.md` reads as
/// that sender — the split is at the last hyphen, so a hyphenated agent id
/// survives whole.
pub proof fn law_deposit_name_gives_back_its_sender(sender: Seq<char>, num: Seq<char>)
    requires
        sender.len() > 0,
        sender[0] != '.',
        parse_u32_spec(num) is Some,
        forall|k: int| 0 <= k < num.len() ==> num[k] != '-',
    ensures
        sender_spec(sender + "-"@ + num + ".md"@) == Some(sender),
{
    reveal_strlit(".md");
    reveal_strlit("-");
    let name = sender + "-"@ + num + ".md"@;
    let stem = sender + "-"@ + num;
    assert(name.subrange(name.len() - 3, name.len() as int) =~= ".md"@);
    assert(name.take(name.len() - 3) =~= stem);
    let j = sender.len() as int;
    assert(stem[j] == '-');
    assert forall|k: int| j < k < stem.len() implies stem[k] != '-' by {
        assert(stem[k] == num[k - j - 1]);
    }
    lemma_last_index(stem, '-', j);
    assert(stem.take(j) =~= sender);
    assert(stem.skip(j + 1) =~= num);
}

/// The `<sender>` of a deposit name, so `user-001.md` → `user` and a
/// hyphenated agent id `a-b-c-002.md` → `a-b-c`; `None` for anything that
/// is not a well-formed deposit.
pub fn sender_of(name: &str) -> (r: Option<String>)
    ensures
        match r {
            Some(s) => sender_spec(name@) == Some(s@),
            None => sender_spec(name@) is None,
        },
{
    proof {
        reveal_strlit(".md");
    }
    let v = chars_of(name);
    let ext = chars_of(".md");
    if !crate::text::ends_with(&v, &ext) {
        return None;
    }
    let stem = slice(&v, 0, v.len() - 3);
    proof {
        assert(stem@ =~= name@.take(name@.len() - 3));
    }
    let j = match rfind(&stem, '-') {
        None => return None,
        Some(j) => j,
    };
    let seq = slice(&stem, j + 1, stem.len());
    let sender = slice(&stem, 0, j);
    proof {
        assert(seq@ =~= stem@.skip(j + 1));
        assert(sender@ =~= stem@.take(j as int));
    }
    if parse_u32(&seq).is_none() {
        return None;
    }
    if sender.len() == 0 || sender[0] == '.' {
        return None;
    }
    Some(string_of(&sender))
}

/// One deliverable inbox message, carrying the sort keys `(mtime, name)`.
#[derive(Debug)]
pub struct Pending {
    /// Advisory arrival-order key: the file's modification time, in
    /// nanoseconds from the Unix epoch (the epoch when unreadable).
    pub mtime: i128,
    /// The deposit filename (`<sender>-<NNN>.md`).
    pub name: String,
    /// Where the inbox file is.
    pub path: String,
    /// The `<sender>`.
    pub sender: String,
}

/// The order pending messages drain in: by mtime, then by name.
pub open spec fn drains_before(a: (i128, Seq<char>), b: (i128, Seq<char>)) -> bool {
    a.0 < b.0 || (a.0 == b.0 && lex_lt(a.1, b.1))
}

/// A pending message's sort key.
pub open spec fn key(p: Pending) -> (i128, Seq<char>) {
    (p.mtime, p.name@)
}

/// The sort keys of a list of pending messages.
pub open spec fn keys(v: Seq<Pending>) -> Seq<(i128, Seq<char>)> {
    v.map_values(|p: Pending| key(p))
}

/// Whether `v` is in drain order.
pub open spec fn in_drain_order(v: Seq<(i128, Seq<char>)>) -> bool {
    forall|i: int, j: int| 0 <= i < j < v.len() ==> !drains_before(#[trigger] v[j], #[trigger] v[i])
}

/// An inbox entry as the listing names it: file name, mtime, path.
pub open spec fn entry_key(e: (String, i128, String)) -> (i128, Seq<char>) {
    (e.1, e.0@)
}

/// The sort keys of the listing's deposits — the entries whose names are
/// well-formed — in listing order.
pub open spec fn deposit_keys(entries: Seq<(String, i128, String)>) -> Seq<(i128, Seq<char>)>
    decreases entries.len(),
{
    if entries.len() == 0 {
        Seq::empty()
    } else if sender_spec(entries.last().0@) is Some {
        deposit_keys(entries.drop_last()).push(entry_key(entries.last()))
    } else {
        deposit_keys(entries.drop_last())
    }
}

/// Whether `key(a)` drains strictly before `key(b)`.
fn before(a: &Pending, b: &Pending) -> (r: bool)
    ensures
        r == drains_before(key(*a), key(*b)),
{
    if a.mtime < b.mtime {
        return true;
    }
    if a.mtime > b.mtime {
        return false;
    }
    lex_less(&chars_of(a.name.as_str()), &chars_of(b.name.as_str()))
}

proof fn lemma_not_before_total(a: (i128, Seq<char>), b: (i128, Seq<char>))
    ensures
        !drains_before(a, b) ==> (drains_before(b, a) || a == b),
{
    lemma_lex_total(a.1, b.1);
}

proof fn lemma_before_transitive(a: (i128, Seq<char>), b: (i128, Seq<char>), c: (i128, Seq<char>))
    requires
        !drains_before(b, a),
        !drains_before(c, b),
    ensures
        !drains_before(c, a),
{
    lemma_lex_total(a.1, b.1);
    lemma_lex_total(b.1, c.1);
    if a.0 == b.0 && b.0 == c.0 && lex_lt(c.1, a.1) {
        if lex_lt(a.1, b.1) {
            lemma_lex_transitive(c.1, a.1, b.1);
            lemma_lex_asymmetric(c.1, b.1);
        } else if a.1 == b.1 {
        } else {
            lemma_lex_transitive(c.1, b.1, a.1);
            lemma_lex_asymmetric(b.1, a.1);
        }
        if lex_lt(b.1, c.1) {
            lemma_lex_asymmetric(b.1, c.1);
        }
    }
}

/// Insert `p` into the drain-ordered `out` after every message that does
/// not drain after it.
fn insert_sorted(out: &mut Vec<Pending>, p: Pending)
    requires
        in_drain_order(keys(old(out)@)),
    ensures
        in_drain_order(keys(final(out)@)),
        keys(final(out)@).to_multiset() == keys(old(out)@).to_multiset().insert(key(p)),
        exists|i: int| 0 <= i <= old(out)@.len() && final(out)@ == old(out)@.insert(i, p),
{
    let mut i: usize = out.len();
    while i > 0 && before(&p, &out[i - 1])
        invariant
            i <= out@.len(),
            out@ == old(out)@,
            in_drain_order(keys(out@)),
            forall|m: int| i <= m < out@.len() ==> drains_before(key(p), #[trigger] key(out@[m])),
        decreases i,
    {
        i -= 1;
    }
    proof {
        let ks = keys(out@);
        let nk = keys(out@.insert(i as int, p));
        assert(nk =~= ks.insert(i as int, key(p)));
        if i > 0 {
            lemma_not_before_total(key(p), ks[i - 1]);
        }
        assert forall|a: int, b: int| 0 <= a < b < nk.len() implies !drains_before(#[trigger] nk[b], #[trigger] nk[a]) by {
            if a < i && b == i {
                if a < i - 1 {
                    lemma_before_transitive(ks[a], ks[i - 1], key(p));
                }
            } else if a == i && b > i {
                assert(drains_before(key(p), ks[b - 1]));
                lemma_lex_total(key(p).1, ks[b - 1].1);
                if key(p).0 == ks[b - 1].0 && lex_lt(ks[b - 1].1, key(p).1) {
                    lemma_lex_asymmetric(ks[b - 1].1, key(p).1);
                }
            } else if a < i && b > i {
                assert(!drains_before(ks[b - 1], ks[a]));
            } else if b < i {
            } else {
                assert(!drains_before(ks[b - 1], ks[a - 1]));
            }
        }
        vstd::seq_lib::to_multiset_insert(ks, i as int, key(p));
    }
    out.insert(i, p);
}

/// The inbox's deliverable messages in drain order: every entry whose name
/// is a well-formed deposit, with its sender, sorted `(mtime, filename)`.
pub fn pending_of(entries: Vec<(String, i128, String)>) -> (r: Vec<Pending>)
    ensures
        in_drain_order(keys(r@)),
        keys(r@).to_multiset() == deposit_keys(entries@).to_multiset(),
        forall|i: int| 0 <= i < r@.len() ==> sender_spec(#[trigger] r@[i].name@) == Some(r@[i].sender@),
{
    let ghost whole = entries@;
    let mut entries = entries;
    let mut out: Vec<Pending> = Vec::new();
    let mut k: usize = 0;
    let total: usize = entries.len();
    proof {
        assert(whole.take(0) =~= Seq::<(String, i128, String)>::empty());
        assert(keys(out@) =~= deposit_keys(whole.take(0)));
    }
    while entries.len() > 0
        invariant
            k + entries@.len() == whole.len(),
            total == whole.len(),
            entries@ == whole.skip(k as int),
            in_drain_order(keys(out@)),
            keys(out@).to_multiset() == deposit_keys(whole.take(k as int)).to_multiset(),
            forall|i: int| 0 <= i < out@.len() ==> sender_spec(#[trigger] out@[i].name@) == Some(out@[i].sender@),
        decreases entries.len(),
    {
        let ghost here = whole[k as int];
        let (name, mtime, path) = entries.remove(0);
        proof {
            assert(whole[k as int] == (name, mtime, path));
            assert(entries@ =~= whole.skip(k + 1));
            assert(whole.take(k + 1).drop_last() =~= whole.take(k as int));
        }
        match sender_of(name.as_str()) {
            None => {},
            Some(sender) => {
                let p = Pending { mtime, name, path, sender };
                let ghost old_out = out@;
                insert_sorted(&mut out, p);
                proof {
                    assert(key(p) == entry_key(here));
                    vstd::seq_lib::to_multiset_build(deposit_keys(whole.take(k as int)), entry_key(here));
                    let j = choose|j: int| 0 <= j <= old_out.len() && out@ == old_out.insert(j, p);
                    assert forall|m: int| 0 <= m < out@.len() implies sender_spec(#[trigger] out@[m].name@) == Some(out@[m].sender@) by {
                        if m < j {
                            assert(out@[m] == old_out[m]);
                        } else if m > j {
                            assert(out@[m] == old_out[m - 1]);
                        }
                    }
                }
            },
        }
        k += 1;
    }
    proof {
        assert(whole.take(k as int) =~= whole);
    }
    out
}

/// The identity of a deposit a drain deliberately left pending: the
/// `(name, mtime)` pair, never the name alone — a reused name is a new
/// deposit and carries a fresh mtime.
#[derive(Debug, Clone, PartialEq, Eq)]
pub struct SeenDeposit {
    name: String,
    mtime: i128,
}

impl SeenDeposit {
    /// The identity's name.
    pub closed spec fn name_view(&self) -> Seq<char> {
        self.name@
    }

    /// The identity's mtime.
    pub closed spec fn mtime_view(&self) -> i128 {
        self.mtime
    }

    /// Construct from parts.
    pub fn new(name: String, mtime: i128) -> (s: SeenDeposit)
        ensures
            s.name_view() == name@,
            s.mtime_view() == mtime,
    {
        SeenDeposit { name, mtime }
    }

    /// Whether `pending` is the very deposit this identity names — same
    /// name *and* same mtime.
    pub fn matches(&self, pending: &Pending) -> (r: bool)
        ensures
            r == (self.name_view() == pending.name@ && self.mtime_view() == pending.mtime),
    {
        self.mtime == pending.mtime && same_chars(&chars_of(self.name.as_str()), &chars_of(pending.name.as_str()))
    }
}

/// Account **everything** pending as deliberately left — the seen-set of a
/// hop that delivers nothing by design, so the release rule launches
/// nothing for it and a parked branch queues its mail.
pub fn seen_all(pending: &Vec<Pending>) -> (r: Vec<SeenDeposit>)
    ensures
        r@.len() == pending@.len(),
        forall|i: int| 0 <= i < r@.len() ==> (#[trigger] r@[i]).name_view() == pending@[i].name@
            && r@[i].mtime_view() == pending@[i].mtime,
{
    let mut r: Vec<SeenDeposit> = Vec::new();
    let mut i: usize = 0;
    while i < pending.len()
        invariant
            i <= pending@.len(),
            r@.len() == i,
            forall|m: int| 0 <= m < i ==> (#[trigger] r@[m]).name_view() == pending@[m].name@
                && r@[m].mtime_view() == pending@[m].mtime,
        decreases pending.len() - i,
    {
        r.push(SeenDeposit::new(pending[i].name.clone(), pending[i].mtime));
        i += 1;
    }
    r
}

/// `status --porcelain -- messages`.
pub open spec fn messages_status_args() -> Seq<Seq<char>> {
    seq!["status"@, "--porcelain"@, "--"@, MESSAGES_DIR@]
}

/// `status --porcelain -- messages` printed something: a stray is there.
pub open spec fn stray_seen<G: GitRunner>(git: &G, worktree: Seq<char>) -> bool {
    exists|status: Seq<char>| #[trigger] git.prints(worktree, messages_status_args(), status) && !blank(status)
}

/// The subject of a stray-recovery commit.
pub open spec fn recover_subject(conv_id: Seq<char>) -> Seq<char> {
    "transcript: recover delivered stray ["@ + conv_id + "]"@
}

/// Commit any renamed-but-uncommitted stray a prior death left under
/// `messages/`: `git status --porcelain -- messages` non-blank means one is
/// there, and `git add messages` then a commit lands it. Scoped to
/// `messages/` so a worktree dirty elsewhere is never swept in. A clean
/// `messages/` — the common case — is a no-op.
pub fn recover_strays<G: GitRunner>(worktree: &str, conv_id: &str, git: &G) -> (r: Result<(), Error>)
    ensures
        r matches Err(e) ==> e matches Error::Git { op, .. } && (op@ == "drain status"@ || op@
            == "drain recover add"@ || op@ == "drain recover commit"@),
        r is Ok ==> exists|status: Seq<char>|
            #[trigger] git.prints(worktree@, messages_status_args(), status) && (blank(status) || (git.succeeds(
                worktree@,
                seq!["add"@, MESSAGES_DIR@],
            ) && git.succeeds(worktree@, seq!["commit"@, "-m"@, recover_subject(conv_id@)]))),
        r matches Err(Error::Git { op, .. }) ==> (op@ == "drain status"@ && git.fails(worktree@, messages_status_args()))
            || (op@ == "drain recover add"@ && stray_seen(git, worktree@) && git.fails(worktree@, seq!["add"@, MESSAGES_DIR@]))
            || (op@ == "drain recover commit"@ && stray_seen(git, worktree@) && git.succeeds(
            worktree@,
            seq!["add"@, MESSAGES_DIR@],
        ) && git.fails(worktree@, seq!["commit"@, "-m"@, recover_subject(conv_id@)])),
{
    let status_args = ["status", "--porcelain", "--", MESSAGES_DIR];
    assert(argv(status_args@) =~= messages_status_args());
    let status = match git.run_capture(worktree, &status_args) {
        Ok(out) => out,
        Err(source) => return Err(Error::Git { op: "drain status", source }),
    };
    if is_blank(status.as_str()) {
        return Ok(());
    }
    let add = ["add", MESSAGES_DIR];
    assert(argv(add@) =~= seq!["add"@, MESSAGES_DIR@]);
    if let Err(source) = git.run(worktree, &add) {
        return Err(Error::Git { op: "drain recover add", source });
    }
    let mut msg = String::new();
    append_str(&mut msg, "transcript: recover delivered stray [");
    append_str(&mut msg, conv_id);
    append_str(&mut msg, "]");
    let commit = ["commit", "-m", msg.as_str()];
    assert(argv(commit@) =~= seq!["commit"@, "-m"@, recover_subject(conv_id@)]);
    match git.run(worktree, &commit) {
        Ok(()) => Ok(()),
        Err(source) => Err(Error::Git { op: "drain recover commit", source }),
    }
}

/// Two keys neither of which drains before the other are the same key.
proof fn lemma_not_before_antisymmetric(a: (i128, Seq<char>), b: (i128, Seq<char>))
    requires
        !drains_before(a, b),
        !drains_before(b, a),
    ensures
        a == b,
{
    lemma_lex_total(a.1, b.1);
}

/// The first of a drain-ordered list drains no later than any of it.
proof fn lemma_first_is_least(v: Seq<(i128, Seq<char>)>, x: (i128, Seq<char>))
    requires
        in_drain_order(v),
        v.len() > 0,
        v.contains(x),
    ensures
        !drains_before(x, v[0]),
{
    let i = choose|i: int| 0 <= i < v.len() && v[i] == x;
    if i > 0 {
        assert(!drains_before(v[i], v[0]));
    } else {
        lemma_lex_irreflexive(x.1);
    }
}

/// **The same inbox always yields the same committed sequence**: any two
/// drain orders of the same deposits are the same sequence of keys, so the
/// delivery order depends on the deposits alone, never on how the
/// directory happened to list them.
pub proof fn law_drain_order_is_deterministic(a: Seq<(i128, Seq<char>)>, b: Seq<(i128, Seq<char>)>)
    requires
        in_drain_order(a),
        in_drain_order(b),
        a.to_multiset() == b.to_multiset(),
    ensures
        a == b,
    decreases a.len(),
{
    broadcast use vstd::seq_lib::group_to_multiset_ensures;
    assert(a.len() == b.len()) by {
        vstd::seq_lib::to_multiset_len(a);
        vstd::seq_lib::to_multiset_len(b);
    }
    if a.len() > 0 {
        assert(a.to_multiset().count(a[0]) > 0);
        assert(b.to_multiset().count(a[0]) > 0);
        assert(b.contains(a[0]));
        assert(a.to_multiset().count(b[0]) > 0);
        assert(a.contains(b[0]));
        lemma_first_is_least(b, a[0]);
        lemma_first_is_least(a, b[0]);
        lemma_not_before_antisymmetric(a[0], b[0]);
        let a1 = a.remove(0);
        let b1 = b.remove(0);
        assert(a1.to_multiset() == a.to_multiset().remove(a[0]));
        assert(b1.to_multiset() == b.to_multiset().remove(b[0]));
        assert(in_drain_order(a1)) by {
            assert forall|i: int, j: int| 0 <= i < j < a1.len() implies !drains_before(#[trigger] a1[j], #[trigger] a1[i]) by {
                assert(a1[i] == a[i + 1] && a1[j] == a[j + 1]);
            }
        }
        assert(in_drain_order(b1)) by {
            assert forall|i: int, j: int| 0 <= i < j < b1.len() implies !drains_before(#[trigger] b1[j], #[trigger] b1[i]) by {
                assert(b1[i] == b[i + 1] && b1[j] == b[j + 1]);
            }
        }
        law_drain_order_is_deterministic(a1, b1);
        assert(a =~= b) by {
            assert forall|i: int| 0 <= i < a.len() implies a[i] == b[i] by {
                if i > 0 {
                    assert(a[i] == a1[i - 1] && b[i] == b1[i - 1]);
                }
            }
        }
    }
}

} // verus!
