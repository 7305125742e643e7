//! Reading `git ls-files -u`: which index stages each unmerged path
//! populates — 1 base, 2 ours, 3 theirs. Both the compaction merge's
//! decline and the replay's stop classification turn on exactly which
//! stages are present, so they read them here rather than guess.
//!
//! Each line is `<mode> <sha> <stage>\t<path>`. A line without a tab is not
//! an entry; a tabbed line lists its path whatever its stage field says.
//! Paths come back in ascending order, once each, as a `BTreeMap` keyed by
//! path would hold them.

use vstd::prelude::*;
use crate::order::{ascending, lemma_ascending_distinct, lemma_insert_ascending, lemma_lex_irreflexive, lemma_lex_total, lemma_lex_transitive, lex_less, lex_lt, same_chars};
use crate::text::{chars_of, find, first_index, last_index, lines, lines_of, rfind, slice, string_of, views};

verus! {

/// A line's `(meta, path)` halves around its first tab.
pub open spec fn tab_split(l: Seq<char>) -> Option<(Seq<char>, Seq<char>)> {
    match first_index(l, '\t') {
        Some(i) => Some((l.take(i), l.subrange(i + 1, l.len() as int))),
        None => None,
    }
}

/// The last space-separated field of `meta` (`meta.rsplit(' ').next()`).
pub open spec fn last_field(meta: Seq<char>) -> Seq<char> {
    match last_index(meta, ' ') {
        Some(j) => meta.subrange(j + 1, meta.len() as int),
        None => meta,
    }
}

/// The path a line lists, if it is an entry.
pub open spec fn line_path(l: Seq<char>) -> Option<Seq<char>> {
    match tab_split(l) {
        Some((_, p)) => Some(p),
        None => None,
    }
}

/// The stage field of an entry line.
pub open spec fn line_stage(l: Seq<char>) -> Seq<char> {
    match tab_split(l) {
        Some((m, _)) => last_field(m),
        None => Seq::empty(),
    }
}

/// Whether some line of `ls` lists `p`.
pub open spec fn listed(ls: Seq<Seq<char>>, p: Seq<char>) -> bool {
    exists|k: int| 0 <= k < ls.len() && line_path(#[trigger] ls[k]) == Some(p)
}

/// Whether some line of `ls` lists `p` at stage `d`.
pub open spec fn staged(ls: Seq<Seq<char>>, p: Seq<char>, d: char) -> bool {
    exists|k: int|
        0 <= k < ls.len() && line_path(#[trigger] ls[k]) == Some(p) && line_stage(ls[k]) == seq![d]
}

/// One unmerged path and the stages it populates.
#[derive(Debug, Clone, PartialEq, Eq)]
pub struct Unmerged {
    pub path: String,
    pub base: bool,
    pub ours: bool,
    pub theirs: bool,
}

/// The paths of a list of entries.
pub open spec fn paths_of(v: Seq<Unmerged>) -> Seq<Seq<char>> {
    v.map_values(|u: Unmerged| u.path@)
}

/// What `ls-files -u` output `out` says: every listed path once, ascending,
/// with exactly the stages some line gives it.
pub open spec fn stages_spec(out: Seq<char>, v: Seq<Unmerged>) -> bool {
    let ls = lines_of(out);
    &&& ascending(paths_of(v))
    &&& forall|p: Seq<char>| listed(ls, p) <==> paths_of(v).contains(p)
    &&& forall|k: int|
        0 <= k < v.len() ==> {
            &&& (#[trigger] v[k]).base == staged(ls, v[k].path@, '1')
            &&& v[k].ours == staged(ls, v[k].path@, '2')
            &&& v[k].theirs == staged(ls, v[k].path@, '3')
        }
}

proof fn lemma_listed_step(ls: Seq<Seq<char>>, n: int, p: Seq<char>)
    requires
        0 <= n < ls.len(),
    ensures
        listed(ls.take(n + 1), p) == (listed(ls.take(n), p) || line_path(ls[n]) == Some(p)),
{
    let a = ls.take(n);
    let b = ls.take(n + 1);
    if listed(b, p) {
        let k = choose|k: int| 0 <= k < b.len() && line_path(#[trigger] b[k]) == Some(p);
        if k < n {
            assert(a[k] == b[k]);
        }
    }
    if listed(a, p) {
        let k = choose|k: int| 0 <= k < a.len() && line_path(#[trigger] a[k]) == Some(p);
        assert(b[k] == a[k]);
    }
    if line_path(ls[n]) == Some(p) {
        assert(b[n] == ls[n]);
    }
}

proof fn lemma_staged_step(ls: Seq<Seq<char>>, n: int, p: Seq<char>, d: char)
    requires
        0 <= n < ls.len(),
    ensures
        staged(ls.take(n + 1), p, d) == (staged(ls.take(n), p, d) || (line_path(ls[n]) == Some(p)
            && line_stage(ls[n]) == seq![d])),
{
    let a = ls.take(n);
    let b = ls.take(n + 1);
    if staged(b, p, d) {
        let k = choose|k: int|
            0 <= k < b.len() && line_path(#[trigger] b[k]) == Some(p) && line_stage(b[k])
                == seq![d];
        if k < n {
            assert(a[k] == b[k]);
        }
    }
    if staged(a, p, d) {
        let k = choose|k: int|
            0 <= k < a.len() && line_path(#[trigger] a[k]) == Some(p) && line_stage(a[k])
                == seq![d];
        assert(b[k] == a[k]);
    }
    if line_path(ls[n]) == Some(p) && line_stage(ls[n]) == seq![d] {
        assert(b[n] == ls[n]);
    }
}

/// Split one line into its path and stage field, if it is an entry.
fn parse_line(l: &Vec<char>) -> (r: Option<(Vec<char>, Vec<char>)>)
    ensures
        match r {
            Some((p, st)) => line_path(l@) == Some(p@) && line_stage(l@) == st@,
            None => line_path(l@) is None,
        },
{
    match find(l, '\t') {
        None => None,
        Some(i) => {
            let meta = slice(l, 0, i);
            let path = slice(l, i + 1, l.len());
            proof {
                assert(meta@ =~= l@.take(i as int));
            }
            let field = match rfind(&meta, ' ') {
                Some(j) => slice(&meta, j + 1, meta.len()),
                None => slice(&meta, 0, meta.len()),
            };
            proof {
                assert(meta@.subrange(0, meta@.len() as int) =~= meta@);
            }
            Some((path, field))
        },
    }
}

/// Whether the characters `st` are the single digit `d`.
fn is_stage(st: &Vec<char>, d: char) -> (b: bool)
    ensures
        b == (st@ == seq![d]),
{
    let r = st.len() == 1 && st[0] == d;
    proof {
        if st@.len() == 1 && st@[0] == d {
            assert(st@ =~= seq![d]);
        }
    }
    r
}

/// The position `p` has, or should take, in the ascending `paths`: the
/// first index whose path is not below `p`.
fn position(paths: &Vec<Vec<char>>, p: &Vec<char>) -> (i: usize)
    requires
        ascending(views(paths@)),
    ensures
        i <= paths.len(),
        forall|k: int| 0 <= k < i ==> lex_lt(#[trigger] paths@[k]@, p@),
        i < paths.len() ==> !lex_lt(paths@[i as int]@, p@),
{
    let mut i: usize = 0;
    while i < paths.len() && lex_less(&paths[i], p)
        invariant
            i <= paths.len(),
            forall|k: int| 0 <= k < i ==> lex_lt(#[trigger] paths@[k]@, p@),
        decreases paths.len() - i,
    {
        i += 1;
    }
    i
}

proof fn lemma_staged_listed(ls: Seq<Seq<char>>, p: Seq<char>, d: char)
    requires
        staged(ls, p, d),
    ensures
        listed(ls, p),
{
    let k = choose|k: int|
        0 <= k < ls.len() && line_path(#[trigger] ls[k]) == Some(p) && line_stage(ls[k]) == seq![d];
    assert(line_path(ls[k]) == Some(p));
}

proof fn lemma_views_insert(v: Seq<Vec<char>>, i: int, x: Vec<char>)
    requires
        0 <= i <= v.len(),
    ensures
        views(v.insert(i, x)) == views(v).insert(i, x@),
{
    v.insert_ensures(i, x);
    views(v).insert_ensures(i, x@);
    assert(views(v.insert(i, x)) =~= views(v).insert(i, x@));
}

proof fn lemma_insert_contains(v: Seq<Seq<char>>, i: int, x: Seq<char>, q: Seq<char>)
    requires
        0 <= i <= v.len(),
    ensures
        v.insert(i, x).contains(q) == (v.contains(q) || q == x),
{
    v.insert_ensures(i, x);
    let w = v.insert(i, x);
    if v.contains(q) {
        let k = choose|k: int| 0 <= k < v.len() && v[k] == q;
        if k < i {
            assert(w[k] == q);
        } else {
            assert(w[k + 1] == q);
        }
    }
    if q == x {
        assert(w[i] == q);
    }
    if w.contains(q) {
        let k = choose|k: int| 0 <= k < w.len() && w[k] == q;
        if k < i {
            assert(v[k] == q);
        } else if k > i {
            assert(v[k - 1] == q);
        }
    }
}

/// Parse `git ls-files -u` output into its unmerged paths and their
/// populated stages.
pub fn unmerged_stages(out: &str) -> (r: Vec<Unmerged>)
    ensures
        stages_spec(out@, r@),
{
    let v = chars_of(out);
    let ls = lines(&v);
    let ghost all = lines_of(out@);
    let mut paths: Vec<Vec<char>> = Vec::new();
    let mut flags: Vec<(bool, bool, bool)> = Vec::new();
    let mut n: usize = 0;
    proof {
        assert(views(paths@) =~= Seq::<Seq<char>>::empty());
    }
    while n < ls.len()
        invariant
            views(ls@) == all,
            n <= ls.len(),
            paths.len() == flags.len(),
            ascending(views(paths@)),
            forall|p: Seq<char>| listed(all.take(n as int), p) <==> views(paths@).contains(p),
            forall|k: int|
                0 <= k < paths.len() ==> {
                    &&& (#[trigger] flags@[k]).0 == staged(all.take(n as int), paths@[k]@, '1')
                    &&& flags@[k].1 == staged(all.take(n as int), paths@[k]@, '2')
                    &&& flags@[k].2 == staged(all.take(n as int), paths@[k]@, '3')
                },
        decreases ls.len() - n,
    {
        let ghost old_paths = paths@;
        let ghost old_flags = flags@;
        let ghost line = all[n as int];
        proof {
            assert(ls@[n as int]@ == line);
            assert forall|p: Seq<char>| #[trigger] listed(all.take(n + 1), p) == (listed(
                all.take(n as int),
                p,
            ) || line_path(line) == Some(p)) by {
                lemma_listed_step(all, n as int, p);
            }
            assert forall|p: Seq<char>, d: char| #[trigger] staged(all.take(n + 1), p, d) == (
            staged(all.take(n as int), p, d) || (line_path(line) == Some(p) && line_stage(line)
                == seq![d])) by {
                lemma_staged_step(all, n as int, p, d);
            }
        }
        match parse_line(&ls[n]) {
            None => {},
            Some((path, field)) => {
                let s1 = is_stage(&field, '1');
                let s2 = is_stage(&field, '2');
                let s3 = is_stage(&field, '3');
                let i = position(&paths, &path);
                if i < paths.len() && same_chars(&paths[i], &path) {
                    let (b, o, t) = flags[i];
                    flags.set(i, (b || s1, o || s2, t || s3));
                    proof {
                        assert forall|k: int| 0 <= k < paths.len() && k != i implies paths@[k]@
                            != path@ by {
                            lemma_ascending_distinct(views(paths@), k, i as int);
                        }
                        assert forall|p: Seq<char>| listed(all.take(n + 1), p) <==> views(
                            paths@,
                        ).contains(p) by {
                            if p == path@ {
                                assert(views(paths@)[i as int] == p);
                            }
                        }
                    }
                } else {
                    proof {
                        if i < paths.len() {
                            lemma_lex_total(paths@[i as int]@, path@);
                        }
                        assert forall|k: int| 0 <= k < paths.len() implies paths@[k]@ != path@ by {
                            assert(views(paths@)[k] == paths@[k]@);
                            if k < i {
                                lemma_lex_irreflexive(path@);
                            } else {
                                assert(views(paths@)[i as int] == paths@[i as int]@);
                                if k > i {
                                    lemma_lex_transitive(path@, paths@[i as int]@, paths@[k]@);
                                }
                                lemma_lex_irreflexive(path@);
                            }
                        }
                        assert(!views(paths@).contains(path@));
                        assert forall|k: int| 0 <= k < i implies lex_lt(
                            #[trigger] views(old_paths)[k],
                            path@,
                        ) by {
                            assert(views(old_paths)[k] == old_paths[k]@);
                        }
                        lemma_insert_ascending(views(old_paths), i as int, path@);
                        lemma_views_insert(old_paths, i as int, path);
                        old_paths.insert_ensures(i as int, path);
                        old_flags.insert_ensures(i as int, (s1, s2, s3));
                        if staged(all.take(n as int), path@, '1') {
                            lemma_staged_listed(all.take(n as int), path@, '1');
                        }
                        if staged(all.take(n as int), path@, '2') {
                            lemma_staged_listed(all.take(n as int), path@, '2');
                        }
                        if staged(all.take(n as int), path@, '3') {
                            lemma_staged_listed(all.take(n as int), path@, '3');
                        }
                    }
                    paths.insert(i, path);
                    flags.insert(i, (s1, s2, s3));
                    proof {
                        assert forall|p: Seq<char>| listed(all.take(n + 1), p) <==> views(
                            paths@,
                        ).contains(p) by {
                            lemma_insert_contains(views(old_paths), i as int, path@, p);
                        }
                        assert forall|k: int| 0 <= k < paths.len() implies {
                            &&& (#[trigger] flags@[k]).0 == staged(all.take(n + 1), paths@[k]@, '1')
                            &&& flags@[k].1 == staged(all.take(n + 1), paths@[k]@, '2')
                            &&& flags@[k].2 == staged(all.take(n + 1), paths@[k]@, '3')
                        } by {
                            if k < i {
                                assert(flags@[k] == old_flags[k]);
                                assert(paths@[k] == old_paths[k]);
                                assert(old_paths[k]@ != path@);
                            } else if k > i {
                                assert(flags@[k] == old_flags[k - 1]);
                                assert(paths@[k] == old_paths[k - 1]);
                                assert(old_paths[k - 1]@ != path@);
                            }
                        }
                    }
                }
            },
        }
        n += 1;
    }
    proof {
        assert(all.take(ls.len() as int) =~= all);
    }
    let mut out_v: Vec<Unmerged> = Vec::new();
    let mut k: usize = 0;
    while k < paths.len()
        invariant
            paths.len() == flags.len(),
            k <= paths.len(),
            out_v.len() == k,
            forall|j: int|
                0 <= j < k ==> {
                    &&& (#[trigger] out_v@[j]).path@ == paths@[j]@
                    &&& out_v@[j].base == flags@[j].0
                    &&& out_v@[j].ours == flags@[j].1
                    &&& out_v@[j].theirs == flags@[j].2
                },
        decreases paths.len() - k,
    {
        let (b, o, t) = flags[k];
        out_v.push(Unmerged { path: string_of(&paths[k]), base: b, ours: o, theirs: t });
        k += 1;
    }
    proof {
        assert(paths_of(out_v@) =~= views(paths@));
    }
    out_v
}

} // verus!
