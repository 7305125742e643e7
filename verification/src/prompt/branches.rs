//! `.agent/state/branches.json` — runtime tracking of unmerged branches.
//!
//! Each spawned exchange appends an entry; merge-back removes it; stop
//! handling flips its status. The entry count is the unmerged-branch-count
//! health metric: merged branches are removed, never re-tagged, so the
//! count of entries *is* the metric. A missing file is an empty map.
//!
//! The table itself is [`Branches`]: one entry per branch name, kept in
//! ascending name order as the on-disk JSON object (a `BTreeMap`) holds
//! them. Reading and atomically writing the file are the caller's I/O;
//! what a spawn, a merge-back and the metric do to the table is here.

use vstd::prelude::*;
use crate::order::{ascending, lemma_ascending_distinct, lemma_insert_ascending, lemma_lex_irreflexive, lemma_lex_total, lemma_lex_transitive, lex_less, lex_lt, same_chars};
use crate::text::{chars_of, string_of};

verus! {

/// Path of the state file relative to the conversation repo root.
pub const BRANCHES_FILE: &'static str = ".agent/state/branches.json";

/// Which invariant class a branch belongs to.
#[derive(Debug, Clone, Copy, PartialEq, Eq, Structural)]
pub enum BranchKind {
    Exchange,
    Invocation,
}

/// Lifecycle state visible on disk: spawned but not merged, or stopped.
#[derive(Debug, Clone, Copy, PartialEq, Eq, Structural)]
pub enum BranchStatus {
    Open,
    Stopped,
}

/// Per-branch runtime entry. `stopped_at` is set only once stopped.
#[derive(Debug, Clone)]
pub struct BranchEntry {
    pub kind: BranchKind,
    pub spawned_at: String,
    pub base_sha: String,
    pub status: BranchStatus,
    pub stopped_at: Option<String>,
}

/// An entry as the table's contents describe it.
pub struct EntryView {
    pub kind: BranchKind,
    pub spawned_at: Seq<char>,
    pub base_sha: Seq<char>,
    pub status: BranchStatus,
    pub stopped_at: Option<Seq<char>>,
}

impl View for BranchEntry {
    type V = EntryView;

    open spec fn view(&self) -> EntryView {
        EntryView {
            kind: self.kind,
            spawned_at: self.spawned_at@,
            base_sha: self.base_sha@,
            status: self.status,
            stopped_at: match self.stopped_at {
                Some(s) => Some(s@),
                None => None,
            },
        }
    }
}

/// The on-disk table: branch name to entry, names ascending and distinct.
pub struct Branches {
    names: Vec<String>,
    entries: Vec<BranchEntry>,
}

/// The names of a table, as characters.
pub open spec fn name_views(v: Seq<String>) -> Seq<Seq<char>> {
    v.map_values(|s: String| s@)
}

impl Branches {
    /// The table's shape: one entry per name, names ascending.
    pub closed spec fn wf(&self) -> bool {
        &&& self.names@.len() == self.entries@.len()
        &&& ascending(name_views(self.names@))
    }

    /// The names, in order.
    pub closed spec fn keys(&self) -> Seq<Seq<char>> {
        name_views(self.names@)
    }

    /// The entry of the name at position `i`.
    pub closed spec fn entry_at(&self, i: int) -> EntryView {
        self.entries@[i]@
    }

    /// Whether `name` has an entry.
    pub open spec fn has(&self, name: Seq<char>) -> bool {
        self.keys().contains(name)
    }

    /// The position of `name` among the names.
    pub closed spec fn slot(&self, name: Seq<char>) -> int {
        choose|i: int| 0 <= i < self.keys().len() && self.keys()[i] == name
    }

    /// The table as a map from names to entries.
    pub open spec fn as_map(&self) -> Map<Seq<char>, EntryView> {
        Map::new(
            |k: Seq<char>| self.has(k),
            |k: Seq<char>| self.entry_at(self.slot(k)),
        )
    }

    /// The empty table — what a missing file reads as.
    pub fn new() -> (b: Self)
        ensures
            b.wf(),
            b.keys().len() == 0,
    {
        let b = Branches { names: Vec::new(), entries: Vec::new() };
        proof {
            assert(b.keys() =~= Seq::<Seq<char>>::empty());
        }
        b
    }

    /// The number of entries.
    pub fn len(&self) -> (n: usize)
        requires
            self.wf(),
        ensures
            n == self.keys().len(),
    {
        self.names.len()
    }

    /// The name and entry at position `i`, in ascending name order.
    pub fn get(&self, i: usize) -> (r: (&String, &BranchEntry))
        requires
            self.wf(),
            i < self.keys().len(),
        ensures
            r.0@ == self.keys()[i as int],
            r.1@ == self.entry_at(i as int),
    {
        (&self.names[i], &self.entries[i])
    }

    /// The entry named `name`, if any.
    pub fn lookup(&self, name: &str) -> (r: Option<&BranchEntry>)
        requires
            self.wf(),
        ensures
            match r {
                Some(e) => self.has(name@) && self.as_map()[name@] == e@,
                None => !self.has(name@),
            },
    {
        let key = chars_of(name);
        let i = self.position(&key);
        if i < self.names.len() {
            let here = chars_of(self.names[i].as_str());
            if same_chars(&here, &key) {
                proof {
                    self.lemma_map_at(i as int);
                }
                return Some(&self.entries[i]);
            }
        }
        proof {
            self.lemma_absent(name@, i as int);
        }
        None
    }

    proof fn lemma_map_at(&self, i: int)
        requires
            self.wf(),
            0 <= i < self.keys().len(),
        ensures
            self.has(self.keys()[i]),
            self.as_map()[self.keys()[i]] == self.entry_at(i),
    {
        let k = self.keys()[i];
        assert(self.keys().contains(k));
        assert(exists|j: int| 0 <= j < self.keys().len() && self.keys()[j] == k);
        let j = self.slot(k);
        if j != i {
            lemma_ascending_distinct(self.keys(), i, j);
        }
        assert(j == i);
        assert(self.as_map().dom().contains(k));
        assert(self.as_map()[k] == self.entry_at(j));
    }

    proof fn lemma_absent(&self, name: Seq<char>, i: int)
        requires
            self.wf(),
            0 <= i <= self.keys().len(),
            forall|k: int| 0 <= k < i ==> lex_lt(#[trigger] self.keys()[k], name),
            i < self.keys().len() ==> self.keys()[i] != name && !lex_lt(self.keys()[i], name),
        ensures
            !self.has(name),
    {
        if self.has(name) {
            let j = choose|j: int| 0 <= j < self.keys().len() && self.keys()[j] == name;
            if j < i {
                lemma_lex_irreflexive(name);
            } else if j > i {
                lemma_lex_total(self.keys()[i], name);
                assert(lex_lt(self.keys()[i], self.keys()[j]));
                lemma_lex_irreflexive(name);
                lemma_lex_transitive(name, self.keys()[i], name);
            }
        }
    }

    /// The first position whose name is not below `key`.
    fn position(&self, key: &Vec<char>) -> (i: usize)
        requires
            self.wf(),
        ensures
            i <= self.keys().len(),
            forall|k: int| 0 <= k < i ==> lex_lt(#[trigger] self.keys()[k], key@),
            i < self.keys().len() ==> !lex_lt(self.keys()[i as int], key@),
    {
        let mut i: usize = 0;
        while i < self.names.len()
            invariant
                self.wf(),
                i <= self.names.len(),
                forall|k: int| 0 <= k < i ==> lex_lt(#[trigger] self.keys()[k], key@),
            decreases self.names.len() - i,
        {
            let here = chars_of(self.names[i].as_str());
            if !lex_less(&here, key) {
                return i;
            }
            i += 1;
        }
        i
    }

    /// Set `name` to `entry`, overwriting any entry already there.
    pub fn insert(&mut self, name: &str, entry: BranchEntry)
        requires
            old(self).wf(),
        ensures
            final(self).wf(),
            final(self).as_map() == old(self).as_map().insert(name@, entry@),
    {
        let key = chars_of(name);
        let i = self.position(&key);
        let ghost old_map = self.as_map();
        if i < self.names.len() && same_chars(&chars_of(self.names[i].as_str()), &key) {
            self.entries.set(i, entry);
            proof {
                let m = self.as_map();
                assert(self.keys() == old(self).keys());
                assert forall|k: Seq<char>| m.contains_key(k) <==> old_map.insert(name@, entry@).contains_key(k) by {
                    if k == name@ {
                        assert(self.keys()[i as int] == k);
                    }
                }
                assert forall|k: Seq<char>| #[trigger] m.contains_key(k) implies m[k] == old_map.insert(name@, entry@)[k] by {
                    let j = choose|j: int| 0 <= j < self.keys().len() && self.keys()[j] == k;
                    self.lemma_map_at(j);
                    old(self).lemma_map_at(j);
                    if j != i {
                        lemma_ascending_distinct(self.keys(), i as int, j);
                    }
                }
                assert(m =~= old_map.insert(name@, entry@));
            }
        } else {
            proof {
                if i < self.names.len() {
                    lemma_lex_total(self.keys()[i as int], key@);
                }
                assert forall|k: int| 0 <= k < i implies lex_lt(#[trigger] name_views(self.names@)[k], name@) by {}
                lemma_insert_ascending(self.keys(), i as int, name@);
                self.lemma_absent(name@, i as int);
            }
            let owned = string_of(&key);
            proof {
                let nv = name_views(self.names@.insert(i as int, owned));
                self.names@.insert_ensures(i as int, owned);
                self.keys().insert_ensures(i as int, name@);
                assert(nv =~= self.keys().insert(i as int, name@));
            }
            self.names.insert(i, owned);
            self.entries.insert(i, entry);
            proof {
                let m = self.as_map();
                let om = old_map.insert(name@, entry@);
                old(self).names@.insert_ensures(i as int, owned);
                old(self).entries@.insert_ensures(i as int, entry);
                assert forall|k: Seq<char>| m.contains_key(k) <==> om.contains_key(k) by {
                    if self.keys().contains(k) {
                        let j = choose|j: int| 0 <= j < self.keys().len() && self.keys()[j] == k;
                        if j < i {
                            assert(old(self).keys()[j] == k);
                        } else if j > i {
                            assert(old(self).keys()[j - 1] == k);
                        }
                    }
                    if old(self).keys().contains(k) {
                        let j = choose|j: int| 0 <= j < old(self).keys().len() && old(self).keys()[j] == k;
                        if j < i {
                            assert(self.keys()[j] == k);
                        } else {
                            assert(self.keys()[j + 1] == k);
                        }
                    }
                    if k == name@ {
                        assert(self.keys()[i as int] == k);
                    }
                }
                assert forall|k: Seq<char>| #[trigger] m.contains_key(k) implies m[k] == om[k] by {
                    let j = choose|j: int| 0 <= j < self.keys().len() && self.keys()[j] == k;
                    self.lemma_map_at(j);
                    if j < i {
                        old(self).lemma_map_at(j);
                        assert(k != name@);
                    } else if j > i {
                        old(self).lemma_map_at(j - 1);
                        assert(k != name@);
                    }
                }
                assert(m =~= om);
            }
        }
    }

    /// Drop `name`'s entry; absent names are left alone.
    pub fn remove_name(&mut self, name: &str)
        requires
            old(self).wf(),
        ensures
            final(self).wf(),
            final(self).as_map() == old(self).as_map().remove(name@),
    {
        let key = chars_of(name);
        let i = self.position(&key);
        let ghost old_map = self.as_map();
        if i < self.names.len() && same_chars(&chars_of(self.names[i].as_str()), &key) {
            proof {
                self.names@.remove_ensures(i as int);
                self.entries@.remove_ensures(i as int);
            }
            self.names.remove(i);
            self.entries.remove(i);
            proof {
                let ok = old(self).keys();
                let nk = self.keys();
                assert(nk =~= ok.remove(i as int));
                assert forall|a: int, b: int| 0 <= a < b < nk.len() implies lex_lt(#[trigger] nk[a], #[trigger] nk[b]) by {
                    if b < i {
                    } else if a < i {
                        assert(nk[b] == ok[b + 1]);
                    } else {
                        assert(nk[a] == ok[a + 1] && nk[b] == ok[b + 1]);
                    }
                }
                let m = self.as_map();
                let om = old_map.remove(name@);
                assert forall|k: Seq<char>| m.contains_key(k) <==> om.contains_key(k) by {
                    if nk.contains(k) {
                        let j = choose|j: int| 0 <= j < nk.len() && nk[j] == k;
                        if j < i {
                            assert(ok[j] == k);
                            lemma_ascending_distinct(ok, j, i as int);
                        } else {
                            assert(ok[j + 1] == k);
                            lemma_ascending_distinct(ok, j + 1, i as int);
                        }
                    }
                    if ok.contains(k) && k != name@ {
                        let j = choose|j: int| 0 <= j < ok.len() && ok[j] == k;
                        if j < i {
                            assert(nk[j] == k);
                        } else {
                            assert(j != i);
                            assert(nk[j - 1] == k);
                        }
                    }
                }
                assert forall|k: Seq<char>| #[trigger] m.contains_key(k) implies m[k] == om[k] by {
                    let j = choose|j: int| 0 <= j < nk.len() && nk[j] == k;
                    self.lemma_map_at(j);
                    if j < i {
                        old(self).lemma_map_at(j);
                    } else {
                        old(self).lemma_map_at(j + 1);
                    }
                }
                assert(m =~= om);
            }
        } else {
            proof {
                if i < self.names.len() {
                    lemma_lex_total(self.keys()[i as int], key@);
                }
                self.lemma_absent(name@, i as int);
                assert(old_map.remove(name@) =~= old_map);
            }
        }
    }
}

/// Absolute path of the state file inside `repo`.
pub fn path(repo: &str) -> (p: String)
    ensures
        p@ == crate::paths::join_spec(repo@, BRANCHES_FILE@),
{
    crate::paths::join(repo, BRANCHES_FILE)
}

/// The entry a fresh spawn records: open, not stopped.
pub open spec fn open_entry(kind: BranchKind, spawned_at: Seq<char>, base_sha: Seq<char>) -> EntryView {
    EntryView { kind, spawned_at, base_sha, status: BranchStatus::Open, stopped_at: None }
}

/// Record an open entry for a freshly spawned branch, overwriting any
/// existing entry with the same id (idempotent under retry).
pub fn append_open(
    entries: &mut Branches,
    id: &str,
    kind: BranchKind,
    spawned_at: String,
    base_sha: String,
)
    requires
        old(entries).wf(),
    ensures
        final(entries).wf(),
        final(entries).as_map() == old(entries).as_map().insert(
            id@,
            open_entry(kind, spawned_at@, base_sha@),
        ),
{
    let entry = BranchEntry {
        kind,
        spawned_at,
        base_sha,
        status: BranchStatus::Open,
        stopped_at: None,
    };
    entries.insert(id, entry);
}

/// Remove a branch entry — the merge-back path's hook. Idempotent:
/// removing a missing id is a no-op.
pub fn remove(entries: &mut Branches, id: &str)
    requires
        old(entries).wf(),
    ensures
        final(entries).wf(),
        final(entries).as_map() == old(entries).as_map().remove(id@),
{
    entries.remove_name(id);
}

/// Number of unmerged branches (`Open` + `Stopped`) — the health metric.
pub fn unmerged_count(entries: &Branches) -> (n: usize)
    requires
        entries.wf(),
    ensures
        n == entries.keys().len(),
{
    entries.len()
}

// ---- laws ------------------------------------------------------------------

/// The table's map has exactly its names as keys.
pub proof fn lemma_domain_is_the_names(b: &Branches)
    requires
        b.wf(),
    ensures
        b.as_map().dom() == b.keys().to_set(),
{
    assert(b.as_map().dom() =~= b.keys().to_set());
}

/// The entry count is the unmerged-branch metric: one entry per unmerged
/// branch, so the table's length is the number of names in its map.
pub proof fn law_count_is_the_number_of_unmerged_branches(b: &Branches)
    requires
        b.wf(),
    ensures
        b.keys().len() == b.as_map().dom().len(),
{
    lemma_domain_is_the_names(b);
    assert(b.keys().no_duplicates()) by {
        assert forall|i: int, j: int| 0 <= i < b.keys().len() && 0 <= j < b.keys().len() && i != j implies b.keys()[i]
            != b.keys()[j] by {
            if i < j {
                lemma_ascending_distinct(b.keys(), i, j);
            } else {
                lemma_ascending_distinct(b.keys(), j, i);
            }
        }
    }
    b.keys().unique_seq_to_set();
}

/// Appending is idempotent under retry: recording the same open entry for
/// an id twice leaves the table as recording it once.
pub proof fn law_append_open_is_idempotent(
    m: Map<Seq<char>, EntryView>,
    id: Seq<char>,
    kind: BranchKind,
    spawned_at: Seq<char>,
    base_sha: Seq<char>,
)
    ensures
        m.insert(id, open_entry(kind, spawned_at, base_sha)).insert(id, open_entry(kind, spawned_at, base_sha))
            == m.insert(id, open_entry(kind, spawned_at, base_sha)),
{
    assert(m.insert(id, open_entry(kind, spawned_at, base_sha)).insert(id, open_entry(kind, spawned_at, base_sha))
        =~= m.insert(id, open_entry(kind, spawned_at, base_sha)));
}

/// Removing an id with no entry is a no-op, and removing after appending
/// leaves no entry for it: merge-back undoes a spawn's record.
pub proof fn law_remove_undoes_append(
    m: Map<Seq<char>, EntryView>,
    id: Seq<char>,
    kind: BranchKind,
    spawned_at: Seq<char>,
    base_sha: Seq<char>,
)
    ensures
        !m.contains_key(id) ==> m.remove(id) == m,
        !m.contains_key(id) ==> m.insert(id, open_entry(kind, spawned_at, base_sha)).remove(id) == m,
        !m.insert(id, open_entry(kind, spawned_at, base_sha)).remove(id).contains_key(id),
{
    if !m.contains_key(id) {
        assert(m.remove(id) =~= m);
        assert(m.insert(id, open_entry(kind, spawned_at, base_sha)).remove(id) =~= m);
    }
}

} // verus!
