//! Minimal glob over `/`-separated worktree-relative paths: literal
//! segments, `*` within a segment, `**` spanning any number of segments —
//! the full vocabulary the manifests use. Matching is byte-wise, so it is
//! indifferent to how a segment's UTF-8 is spelled.

use vstd::prelude::*;
use vstd::string::StringSliceAdditionalSpecFns;

verus! {

/// The byte `/`, which separates segments.
pub const SLASH: u8 = 47;
/// The byte `*`, which matches any run of bytes within a segment.
pub const STAR: u8 = 42;

/// `s` cut at every `/`: each slash ends one segment and starts the next,
/// so there is always at least one segment.
pub open spec fn split_segments(s: Seq<u8>) -> Seq<Seq<u8>>
    decreases s.len(),
{
    if s.len() == 0 {
        seq![Seq::empty()]
    } else {
        let before = split_segments(s.drop_last());
        if s.last() == SLASH {
            before.push(Seq::empty())
        } else {
            before.update(before.len() - 1, before.last().push(s.last()))
        }
    }
}

/// Whether `seg` is in the language of the one-segment pattern `pat`, in
/// which `*` stands for any run of bytes and every other byte for itself.
pub open spec fn star_match(pat: Seq<u8>, seg: Seq<u8>) -> bool
    decreases pat.len(), seg.len() + 1,
{
    if pat.len() == 0 {
        seg.len() == 0
    } else if pat[0] == STAR {
        star_any(pat.skip(1), seg)
    } else {
        seg.len() > 0 && seg[0] == pat[0] && star_match(pat.skip(1), seg.skip(1))
    }
}

/// Whether some suffix of `seg` (itself included) is matched by `rest`:
/// the run a `*` swallows is whatever comes before that suffix.
pub open spec fn star_any(rest: Seq<u8>, seg: Seq<u8>) -> bool
    decreases rest.len(), seg.len() + 2,
{
    star_match(rest, seg) || (seg.len() > 0 && star_any(rest, seg.skip(1)))
}

/// Whether the segments `segs` are matched by the segment patterns `pat`,
/// in which a `**` segment stands for any number of whole segments.
pub open spec fn segments_match(pat: Seq<Seq<u8>>, segs: Seq<Seq<u8>>) -> bool
    decreases pat.len(), segs.len() + 1,
{
    if pat.len() == 0 {
        segs.len() == 0
    } else if pat[0] == seq![STAR, STAR] {
        segments_any(pat.skip(1), segs)
    } else {
        segs.len() > 0 && star_match(pat[0], segs[0]) && segments_match(pat.skip(1), segs.skip(1))
    }
}

/// Whether some tail of `segs` (itself included) is matched by `rest`.
pub open spec fn segments_any(rest: Seq<Seq<u8>>, segs: Seq<Seq<u8>>) -> bool
    decreases rest.len(), segs.len() + 2,
{
    segments_match(rest, segs) || (segs.len() > 0 && segments_any(rest, segs.skip(1)))
}

/// Some suffix is matched exactly when one from some position on is.
proof fn lemma_star_any(rest: Seq<u8>, seg: Seq<u8>)
    ensures
        star_any(rest, seg) == exists|k: int| 0 <= k <= seg.len() && #[trigger] star_match(rest, seg.skip(k)),
    decreases seg.len(),
{
    assert(seg.skip(0) =~= seg);
    if seg.len() > 0 {
        let s1 = seg.skip(1);
        lemma_star_any(rest, s1);
        if star_any(rest, seg) {
            if !star_match(rest, seg) {
                let k = choose|k: int| 0 <= k <= s1.len() && #[trigger] star_match(rest, s1.skip(k));
                assert(s1.skip(k) =~= seg.skip(k + 1));
                assert(star_match(rest, seg.skip(k + 1)));
            } else {
                assert(star_match(rest, seg.skip(0)));
            }
        }
        if exists|k: int| 0 <= k <= seg.len() && #[trigger] star_match(rest, seg.skip(k)) {
            let k = choose|k: int| 0 <= k <= seg.len() && #[trigger] star_match(rest, seg.skip(k));
            if k > 0 {
                assert(s1.skip(k - 1) =~= seg.skip(k));
                assert(star_match(rest, s1.skip(k - 1)));
            }
        }
    } else {
        if star_any(rest, seg) {
            assert(star_match(rest, seg.skip(0)));
        }
        if exists|k: int| 0 <= k <= seg.len() && #[trigger] star_match(rest, seg.skip(k)) {
            let k = choose|k: int| 0 <= k <= seg.len() && #[trigger] star_match(rest, seg.skip(k));
            assert(k == 0);
        }
    }
}

/// Some tail is matched exactly when one from some position on is.
proof fn lemma_segments_any(rest: Seq<Seq<u8>>, segs: Seq<Seq<u8>>)
    ensures
        segments_any(rest, segs) == exists|k: int| 0 <= k <= segs.len() && #[trigger] segments_match(rest, segs.skip(k)),
    decreases segs.len(),
{
    assert(segs.skip(0) =~= segs);
    if segs.len() > 0 {
        let s1 = segs.skip(1);
        lemma_segments_any(rest, s1);
        if segments_any(rest, segs) {
            if !segments_match(rest, segs) {
                let k = choose|k: int| 0 <= k <= s1.len() && #[trigger] segments_match(rest, s1.skip(k));
                assert(s1.skip(k) =~= segs.skip(k + 1));
                assert(segments_match(rest, segs.skip(k + 1)));
            } else {
                assert(segments_match(rest, segs.skip(0)));
            }
        }
        if exists|k: int| 0 <= k <= segs.len() && #[trigger] segments_match(rest, segs.skip(k)) {
            let k = choose|k: int| 0 <= k <= segs.len() && #[trigger] segments_match(rest, segs.skip(k));
            if k > 0 {
                assert(s1.skip(k - 1) =~= segs.skip(k));
                assert(segments_match(rest, s1.skip(k - 1)));
            }
        }
    } else {
        if segments_any(rest, segs) {
            assert(segments_match(rest, segs.skip(0)));
        }
        if exists|k: int| 0 <= k <= segs.len() && #[trigger] segments_match(rest, segs.skip(k)) {
            let k = choose|k: int| 0 <= k <= segs.len() && #[trigger] segments_match(rest, segs.skip(k));
            assert(k == 0);
        }
    }
}

/// Whether `path` matches the glob `pattern`, both as UTF-8 bytes.
pub open spec fn glob_spec(pattern: Seq<u8>, path: Seq<u8>) -> bool {
    segments_match(split_segments(pattern), split_segments(path))
}

/// **A segment pattern without a `*` is a literal**: it matches exactly
/// itself and nothing else.
pub proof fn law_a_literal_matches_only_itself(pat: Seq<u8>, seg: Seq<u8>)
    requires
        forall|j: int| 0 <= j < pat.len() ==> pat[j] != STAR,
    ensures
        star_match(pat, seg) == (pat == seg),
    decreases pat.len(),
{
    if pat.len() > 0 {
        assert(forall|j: int| 0 <= j < pat.skip(1).len() ==> pat.skip(1)[j] == pat[j + 1]);
        if seg.len() > 0 {
            law_a_literal_matches_only_itself(pat.skip(1), seg.skip(1));
            if pat[0] == seg[0] && pat.skip(1) == seg.skip(1) {
                assert(pat.len() == seg.len());
                assert forall|j: int| 0 <= j < pat.len() implies pat[j] == seg[j] by {
                    if j > 0 {
                        assert(pat[j] == pat.skip(1)[j - 1]);
                        assert(seg[j] == seg.skip(1)[j - 1]);
                    }
                }
                assert(pat =~= seg);
            }
            if pat == seg {
                assert(pat.skip(1) =~= seg.skip(1));
            }
        }
    } else {
        if seg.len() == 0 {
            assert(pat =~= seg);
        }
    }
}

/// A pattern whose first `*` is at `i` matches a segment that starts with
/// the `i` literal bytes before it and whose remainder, from some point
/// on, is matched by what follows the star.
proof fn lemma_first_star(pat: Seq<u8>, seg: Seq<u8>, i: int)
    requires
        0 <= i < pat.len(),
        pat[i] == STAR,
        forall|j: int| 0 <= j < i ==> pat[j] != STAR,
    ensures
        star_match(pat, seg) == (seg.len() >= i && seg.take(i) == pat.take(i) && exists|k: int|
            i <= k <= seg.len() && #[trigger] star_match(pat.skip(i + 1), seg.skip(k))),
    decreases i,
{
    let rest = pat.skip(i + 1);
    let tail_any = exists|k: int| i <= k <= seg.len() && #[trigger] star_match(rest, seg.skip(k));
    let rhs = seg.len() >= i && seg.take(i) == pat.take(i) && tail_any;
    if i == 0 {
        assert(pat.skip(1) =~= rest);
        assert(seg.take(0) =~= pat.take(0));
        lemma_star_any(pat.skip(1), seg);
        if star_match(pat, seg) {
            let k = choose|k: int| 0 <= k <= seg.len() && #[trigger] star_match(pat.skip(1), seg.skip(k));
            assert(star_match(rest, seg.skip(k)));
            assert(tail_any);
        }
        if rhs {
            let k = choose|k: int| i <= k <= seg.len() && #[trigger] star_match(rest, seg.skip(k));
            assert(star_match(pat.skip(1), seg.skip(k)));
            assert(star_match(pat, seg));
        }
    } else {
        let p1 = pat.skip(1);
        assert forall|j: int| 0 <= j < i - 1 implies p1[j] != STAR by {
            assert(p1[j] == pat[j + 1]);
        }
        assert(p1[i - 1] == pat[i]);
        assert(p1.skip(i) =~= rest);
        if seg.len() == 0 {
            assert(!star_match(pat, seg));
            assert(!rhs);
        } else {
            let s1 = seg.skip(1);
            lemma_first_star(p1, s1, i - 1);
            if star_match(pat, seg) {
                assert(seg[0] == pat[0] && star_match(p1, s1));
                let k1 = choose|k: int| i - 1 <= k <= s1.len() && #[trigger] star_match(p1.skip(i), s1.skip(k));
                assert(s1.skip(k1) =~= seg.skip(k1 + 1));
                assert(star_match(rest, seg.skip(k1 + 1)));
                assert(tail_any);
                assert(seg.take(i) =~= seq![seg[0]] + s1.take(i - 1));
                assert(pat.take(i) =~= seq![pat[0]] + p1.take(i - 1));
                assert(rhs);
            }
            if rhs {
                let k = choose|k: int| i <= k <= seg.len() && #[trigger] star_match(rest, seg.skip(k));
                assert(s1.skip(k - 1) =~= seg.skip(k));
                assert(star_match(p1.skip(i), s1.skip(k - 1)));
                assert(seg.take(i)[0] == pat.take(i)[0]);
                assert(s1.take(i - 1) =~= seg.take(i).skip(1));
                assert(p1.take(i - 1) =~= pat.take(i).skip(1));
                assert(star_match(p1, s1));
                assert(star_match(pat, seg));
            }
        }
    }
}

/// The first position of `*` in `pat`, if any.
fn first_star(pat: &[u8]) -> (r: Option<usize>)
    ensures
        match r {
            Some(i) => i < pat@.len() && pat@[i as int] == STAR && forall|j: int|
                0 <= j < i ==> pat@[j] != STAR,
            None => forall|j: int| 0 <= j < pat@.len() ==> pat@[j] != STAR,
        },
{
    let mut i: usize = 0;
    while i < pat.len()
        invariant
            i <= pat@.len(),
            forall|j: int| 0 <= j < i ==> pat@[j] != STAR,
        decreases pat.len() - i,
    {
        if pat[i] == STAR {
            return Some(i);
        }
        i += 1;
    }
    None
}

/// Whether two byte strings are equal.
fn same_bytes(a: &[u8], b: &[u8]) -> (r: bool)
    ensures
        r == (a@ == b@),
{
    if a.len() != b.len() {
        return false;
    }
    let mut i: usize = 0;
    while i < a.len()
        invariant
            a@.len() == b@.len(),
            i <= a@.len(),
            forall|j: int| 0 <= j < i ==> a@[j] == b@[j],
        decreases a.len() - i,
    {
        if a[i] != b[i] {
            return false;
        }
        i += 1;
    }
    assert(a@ =~= b@);
    true
}

/// `*`-wildcard match within one path segment, byte-wise: the bytes before
/// the first `*` must open the segment, and what follows the star must
/// match the segment's remainder from some point on.
pub fn match_one(pat: &[u8], seg: &[u8]) -> (r: bool)
    ensures
        r == star_match(pat@, seg@),
    decreases pat@.len(),
{
    match first_star(pat) {
        None => {
            proof {
                law_a_literal_matches_only_itself(pat@, seg@);
            }
            same_bytes(pat, seg)
        },
        Some(i) => {
            proof {
                lemma_first_star(pat@, seg@, i as int);
            }
            if seg.len() < i {
                return false;
            }
            let pre = vstd::slice::slice_subrange(pat, 0, i);
            let head = vstd::slice::slice_subrange(seg, 0, i);
            if !same_bytes(head, pre) {
                proof {
                    assert(head@ =~= seg@.take(i as int));
                    assert(pre@ =~= pat@.take(i as int));
                }
                return false;
            }
            proof {
                assert(head@ =~= seg@.take(i as int));
                assert(pre@ =~= pat@.take(i as int));
            }
            let plen: usize = pat.len();
            let rest = vstd::slice::slice_subrange(pat, i + 1, plen);
            proof {
                assert(rest@ =~= pat@.skip(i + 1));
            }
            let ghost any = exists|m: int|
                i <= m <= seg@.len() && #[trigger] star_match(pat@.skip(i + 1), seg@.skip(m));
            assert(star_match(pat@, seg@) == any);
            let mut k: usize = i;
            loop
                invariant
                    i <= k <= seg@.len(),
                    rest@ == pat@.skip(i + 1),
                    rest@.len() < pat@.len(),
                    star_match(pat@, seg@) == any,
                    any == exists|m: int|
                        i <= m <= seg@.len() && #[trigger] star_match(pat@.skip(i + 1), seg@.skip(m)),
                    forall|m: int| i <= m < k ==> !#[trigger] star_match(pat@.skip(i + 1), seg@.skip(m)),
                decreases seg@.len() - k,
            {
                let tail = vstd::slice::slice_subrange(seg, k, seg.len());
                proof {
                    assert(tail@ =~= seg@.skip(k as int));
                }
                if match_one(rest, tail) {
                    return true;
                }
                if k == seg.len() {
                    return false;
                }
                k += 1;
            }
        },
    }
}

/// Whether a segment is the `**` pattern.
fn is_double_star(p: &Vec<u8>) -> (r: bool)
    ensures
        r == (p@ == seq![STAR, STAR]),
{
    let r = p.len() == 2 && p[0] == STAR && p[1] == STAR;
    proof {
        if r {
            assert(p@ =~= seq![STAR, STAR]);
        }
    }
    r
}

/// The views of a list of segments.
pub open spec fn seg_views(v: Seq<Vec<u8>>) -> Seq<Seq<u8>> {
    v.map_values(|s: Vec<u8>| s@)
}

/// Match the segments from `si` on against the patterns from `pi` on.
fn match_from(pat: &Vec<Vec<u8>>, pi: usize, segs: &Vec<Vec<u8>>, si: usize) -> (r: bool)
    requires
        pi <= pat@.len(),
        si <= segs@.len(),
    ensures
        r == segments_match(seg_views(pat@).skip(pi as int), seg_views(segs@).skip(si as int)),
    decreases pat@.len() - pi,
{
    let ghost p = seg_views(pat@).skip(pi as int);
    let ghost s = seg_views(segs@).skip(si as int);
    if pi == pat.len() {
        return si == segs.len();
    }
    proof {
        assert(p[0] == pat@[pi as int]@);
        assert(p.skip(1) =~= seg_views(pat@).skip(pi + 1));
    }
    if is_double_star(&pat[pi]) {
        let n: usize = segs.len();
        let pn: usize = pat.len();
        assert(p.len() > 0);
        assert(p[0] == seq![STAR, STAR]);
        proof {
            lemma_segments_any(p.skip(1), s);
        }
        let ghost any = exists|m: int| 0 <= m <= s.len() && #[trigger] segments_match(p.skip(1), s.skip(m));
        assert(segments_match(p, s) == any);
        let mut i: usize = si;
        loop
            invariant
                si <= i <= n,
                n == segs@.len(),
                pn == pat@.len(),
                pi < pat@.len(),
                p == seg_views(pat@).skip(pi as int),
                p.skip(1) == seg_views(pat@).skip(pi + 1),
                s == seg_views(segs@).skip(si as int),
                segments_match(p, s) == any,
                any == exists|m: int| 0 <= m <= s.len() && #[trigger] segments_match(p.skip(1), s.skip(m)),
                forall|m: int|
                    0 <= m < i - si ==> !#[trigger] segments_match(p.skip(1), s.skip(m)),
            decreases n - i,
        {
            let found = match_from(pat, pi + 1, segs, i);
            proof {
                assert(s.skip(i - si) =~= seg_views(segs@).skip(i as int));
            }
            if found {
                return true;
            }
            if i == n {
                return false;
            }
            i += 1;
        }
    } else {
        if si == segs.len() {
            return false;
        }
        proof {
            assert(s[0] == segs@[si as int]@);
            assert(s.skip(1) =~= seg_views(segs@).skip(si + 1));
        }
        match_one(pat[pi].as_slice(), segs[si].as_slice()) && match_from(pat, pi + 1, segs, si + 1)
    }
}

/// Whether the segments `segs` are matched by the segment patterns `pat`.
pub fn match_segments(pat: &Vec<Vec<u8>>, segs: &Vec<Vec<u8>>) -> (r: bool)
    ensures
        r == segments_match(seg_views(pat@), seg_views(segs@)),
{
    proof {
        assert(seg_views(pat@).skip(0) =~= seg_views(pat@));
        assert(seg_views(segs@).skip(0) =~= seg_views(segs@));
    }
    match_from(pat, 0, segs, 0)
}

/// `s` cut at every `/`.
pub fn split_slash(s: &[u8]) -> (r: Vec<Vec<u8>>)
    ensures
        seg_views(r@) == split_segments(s@),
{
    let mut done: Vec<Vec<u8>> = Vec::new();
    let mut cur: Vec<u8> = Vec::new();
    let mut i: usize = 0;
    proof {
        assert(s@.take(0) =~= Seq::<u8>::empty());
        assert(seg_views(done@).push(cur@) =~= split_segments(s@.take(0)));
    }
    while i < s.len()
        invariant
            i <= s@.len(),
            seg_views(done@).push(cur@) == split_segments(s@.take(i as int)),
        decreases s.len() - i,
    {
        let ghost before = split_segments(s@.take(i as int));
        proof {
            assert(s@.take(i + 1).drop_last() =~= s@.take(i as int));
            assert(s@.take(i + 1).last() == s@[i as int]);
        }
        if s[i] == SLASH {
            let ghost old_done = done@;
            let finished = cur;
            done.push(finished);
            cur = Vec::new();
            proof {
                assert(seg_views(done@) =~= seg_views(old_done).push(finished@));
                assert(seg_views(done@).push(cur@) =~= before.push(Seq::empty()));
            }
        } else {
            let ghost old_cur = cur@;
            cur.push(s[i]);
            proof {
                assert(seg_views(done@).push(cur@) =~= before.update(
                    before.len() - 1,
                    before.last().push(s@[i as int]),
                ));
            }
        }
        i += 1;
    }
    proof {
        assert(s@.take(s@.len() as int) =~= s@);
    }
    let ghost old_done = done@;
    done.push(cur);
    proof {
        assert(seg_views(done@) =~= seg_views(old_done).push(done@.last()@));
    }
    done
}

/// Whether `path` matches the glob `pattern`.
pub fn glob_match(pattern: &str, path: &str) -> (r: bool)
    ensures
        r == glob_spec(pattern.spec_bytes(), path.spec_bytes()),
{
    let pat = split_slash(pattern.as_bytes());
    let segs = split_slash(path.as_bytes());
    match_segments(&pat, &segs)
}

/// **`**` alone matches every path**: any number of segments, none
/// included.
pub proof fn law_doublestar_matches_every_path(segs: Seq<Seq<u8>>)
    ensures
        segments_match(seq![seq![STAR, STAR]], segs),
{
    let pat = seq![seq![STAR, STAR]];
    assert(pat.skip(1) =~= Seq::<Seq<u8>>::empty());
    lemma_segments_any(pat.skip(1), segs);
    assert(segs.skip(segs.len() as int) =~= Seq::<Seq<u8>>::empty());
    assert(segments_match(pat.skip(1), segs.skip(segs.len() as int)));
}

} // verus!
