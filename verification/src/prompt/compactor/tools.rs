//! The compactor's toolset: the fixed pair `write_summary` /
//! `mark_for_deletion`, which makes "deletion-only" structural — a
//! compactor can summarize and remove, never rewrite, so the worst case is
//! lost information, never corrupted information.
//!
//! Summaries land at the next `summary/<NNN>.md`: one past the highest
//! `<NNN>.md` already there, zero-padded to three digits. Listing the
//! directory and writing the file are the process edge's; which number is
//! next, the file's name, and the staged removal are here.

use vstd::prelude::*;
use crate::error::{argv, Error, GitRunner};
use crate::text::{
    append_str, chars_of, decimal, digit_char, digit_value, is_digit, last_index, lemma_last_index, parse_u32,
    parse_u32_spec, push_char, rfind, slice, to_decimal, unsigned_body,
    u64_to_string,
};

verus! {

/// The summary tool's name.
pub const WRITE_SUMMARY: &'static str = "write_summary";
/// The deletion tool's name.
pub const MARK_FOR_DELETION: &'static str = "mark_for_deletion";
/// Where summaries land, relative to the worktree.
pub const SUMMARY_DIR: &'static str = "summary";
/// How many digits a summary's number is padded to.
pub const SUMMARY_SEQ_WIDTH: usize = 3;

/// The number a summary file's name carries: `<NNN>.md` with `<NNN>`
/// parsing as a `u32`, the extension being what follows the last dot (a
/// leading dot does not start one).
pub open spec fn summary_seq(name: Seq<char>) -> Option<u32> {
    match last_index(name, '.') {
        Some(j) => if j > 0 && name.skip(j + 1) == "md"@ {
            parse_u32_spec(name.take(j))
        } else {
            None
        },
        None => None,
    }
}

/// The highest summary number among `names`, or 0.
pub open spec fn max_seq(names: Seq<Seq<char>>) -> u32
    decreases names.len(),
{
    if names.len() == 0 {
        0
    } else {
        let before = max_seq(names.drop_last());
        match summary_seq(names.last()) {
            Some(n) => if n > before {
                n
            } else {
                before
            },
            None => before,
        }
    }
}

/// The number a name carries, if it is a summary file.
fn seq_of(name: &str) -> (r: Option<u32>)
    ensures
        r == summary_seq(name@),
{
    proof {
        reveal_strlit("md");
    }
    let v = chars_of(name);
    match rfind(&v, '.') {
        None => None,
        Some(j) => {
            if j == 0 {
                return None;
            }
            let ext = slice(&v, j + 1, v.len());
            let stem = slice(&v, 0, j);
            proof {
                assert(ext@ =~= name@.skip(j + 1));
                assert(stem@ =~= name@.take(j as int));
            }
            if ext.len() == 2 && ext[0] == 'm' && ext[1] == 'd' {
                proof {
                    assert(ext@ =~= "md"@);
                }
                parse_u32(&stem)
            } else {
                proof {
                    if ext@ == "md"@ {
                        assert(ext@[0] == 'm' && ext@[1] == 'd');
                    }
                }
                None
            }
        },
    }
}

/// The next summary number for a directory holding `names`: one past the
/// highest `<NNN>.md` there, so 1 for an empty directory. Names that are
/// not `.md` files, or whose stems are not numbers, do not count.
pub fn next_seq(names: &Vec<String>) -> (n: u32)
    requires
        max_seq(names@.map_values(|s: String| s@)) < u32::MAX,
    ensures
        n == max_seq(names@.map_values(|s: String| s@)) + 1,
{
    highest_seq(names) + 1
}

/// The highest summary number among `names`, 0 where there is none.
fn highest_seq(names: &Vec<String>) -> (n: u32)
    ensures
        n == max_seq(names@.map_values(|s: String| s@)),
{
    let ghost all = names@.map_values(|s: String| s@);
    let mut max: u32 = 0;
    let mut i: usize = 0;
    while i < names.len()
        invariant
            i <= names@.len(),
            all == names@.map_values(|s: String| s@),
            max == max_seq(all.take(i as int)),
        decreases names.len() - i,
    {
        proof {
            assert(all.take(i + 1).drop_last() =~= all.take(i as int));
            assert(all.take(i + 1).last() == names@[i as int]@);
        }
        match seq_of(names[i].as_str()) {
            Some(n) => {
                if n > max {
                    max = n;
                }
            },
            None => {},
        }
        i += 1;
    }
    proof {
        assert(all.take(names@.len() as int) =~= all);
    }
    max
}

/// The file the next summary lands in, for a directory holding `names`:
/// `<NNN>.md` one past the highest there; `None` once the highest is the
/// largest number a summary can carry, so no number is left.
pub fn next_summary_name(names: &Vec<String>) -> (r: Option<String>)
    ensures
        max_seq(names@.map_values(|s: String| s@)) < u32::MAX ==> (r matches Some(f) && f@ == zero_padded(
            to_decimal((max_seq(names@.map_values(|s: String| s@)) + 1) as nat),
            3,
        ) + ".md"@),
        max_seq(names@.map_values(|s: String| s@)) >= u32::MAX ==> r is None,
{
    let top = highest_seq(names);
    if top == u32::MAX {
        None
    } else {
        Some(summary_file_name(top + 1))
    }
}

/// `d` left-padded with zeros to at least `width` characters.
pub open spec fn zero_padded(d: Seq<char>, width: nat) -> Seq<char>
    decreases width,
{
    if d.len() >= width {
        d
    } else {
        seq!['0'] + zero_padded(d, (width - 1) as nat)
    }
}

/// The file name of summary number `seq`: `<NNN>.md`, zero-padded to
/// three digits.
pub fn summary_file_name(seq: u32) -> (r: String)
    ensures
        r@ == zero_padded(to_decimal(seq as nat), 3) + ".md"@,
{
    let digits = u64_to_string(seq as u64);
    let d = chars_of(digits.as_str());
    let mut r = String::new();
    let mut pad: usize = if d.len() < SUMMARY_SEQ_WIDTH {
        SUMMARY_SEQ_WIDTH - d.len()
    } else {
        0
    };
    while pad > 0
        invariant
            pad <= 3,
            d@.len() + pad <= 3 || pad == 0,
            r@ + zero_padded(d@, (d@.len() + pad) as nat) == zero_padded(d@, 3),
        decreases pad,
    {
        proof {
            assert(zero_padded(d@, (d@.len() + pad) as nat) =~= seq!['0'] + zero_padded(
                d@,
                (d@.len() + pad - 1) as nat,
            ));
        }
        push_char(&mut r, '0');
        proof {
            assert(r@ + zero_padded(d@, (d@.len() + pad - 1) as nat) =~= zero_padded(d@, 3));
        }
        pad -= 1;
    }
    proof {
        assert(zero_padded(d@, d@.len()) == d@);
    }
    append_str(&mut r, digits.as_str());
    append_str(&mut r, ".md");
    r
}

/// `git rm -r -q -- <path>`: stage a nominated path's removal.
pub fn mark_for_deletion<G: GitRunner>(worktree: &str, path: &str, git: &G) -> (r: Result<(), Error>)
    ensures
        r matches Err(e) ==> e matches Error::Git { op, .. } && op@ == "mark_for_deletion rm"@,
        r is Ok ==> git.succeeds(worktree@, seq!["rm"@, "-r"@, "-q"@, "--"@, path@]),
        r is Err ==> git.fails(worktree@, seq!["rm"@, "-r"@, "-q"@, "--"@, path@]),
{
    let args = ["rm", "-r", "-q", "--", path];
    assert(argv(args@) =~= seq!["rm"@, "-r"@, "-q"@, "--"@, path@]);
    match git.run(worktree, &args) {
        Ok(()) => Ok(()),
        Err(source) => Err(Error::Git { op: "mark_for_deletion rm", source }),
    }
}

/// **The next summary number passes every number already there**, in
/// whatever order the directory lists its files: every `<NNN>.md` among
/// `names` carries a number at most [`max_seq`], so one past it (what
/// [`next_seq`] answers) exceeds each of them; and [`max_seq`] is itself
/// one of those numbers, or 0 where there is none.
pub proof fn law_next_summary_passes_every_summary(names: Seq<Seq<char>>)
    ensures
        forall|i: int|
            0 <= i < names.len() && #[trigger] summary_seq(names[i]) is Some ==> summary_seq(names[i])->0
                <= max_seq(names) && summary_seq(names[i])->0 < max_seq(names) + 1,
        max_seq(names) == 0 || exists|i: int|
            0 <= i < names.len() && #[trigger] summary_seq(names[i]) == Some(max_seq(names)),
    decreases names.len(),
{
    if names.len() > 0 {
        let before = names.drop_last();
        law_next_summary_passes_every_summary(before);
        assert forall|i: int|
            0 <= i < names.len() && #[trigger] summary_seq(names[i]) is Some implies summary_seq(names[i])->0
                <= max_seq(names) by {
            if i < names.len() - 1 {
                assert(names[i] == before[i]);
            }
        }
        if max_seq(names) != 0 {
            if summary_seq(names.last()) == Some(max_seq(names)) {
                assert(summary_seq(names[names.len() - 1]) == Some(max_seq(names)));
            } else {
                assert(max_seq(names) == max_seq(before));
                let j = choose|j: int| 0 <= j < before.len() && #[trigger] summary_seq(before[j]) == Some(max_seq(before));
                assert(names[j] == before[j]);
            }
        }
    }
}

/// A digit's character reads back as that digit.
proof fn lemma_digit_char(d: nat)
    requires
        d < 10,
    ensures
        is_digit(digit_char(d)),
        digit_value(digit_char(d)) == d,
{
}

/// The decimal rendering of `n` is a non-empty run of digits worth `n`.
proof fn lemma_to_decimal(n: nat)
    ensures
        to_decimal(n).len() > 0,
        forall|i: int| 0 <= i < to_decimal(n).len() ==> is_digit(#[trigger] to_decimal(n)[i]),
        decimal(to_decimal(n)) == n,
    decreases n,
{
    if n < 10 {
        lemma_digit_char(n);
        let d = to_decimal(n);
        assert(d.drop_last() =~= Seq::<char>::empty());
        assert(decimal(d) == decimal(d.drop_last()) * 10 + digit_value(d.last()));
    } else {
        lemma_to_decimal(n / 10);
        lemma_digit_char(n % 10);
        let d = to_decimal(n);
        assert(d.drop_last() =~= to_decimal(n / 10));
        assert(d.last() == digit_char(n % 10));
        assert forall|i: int| 0 <= i < d.len() implies is_digit(#[trigger] d[i]) by {
            if i < d.len() - 1 {
                assert(d[i] == to_decimal(n / 10)[i]);
            }
        }
        assert(decimal(d) == decimal(d.drop_last()) * 10 + digit_value(d.last()));
        assert((n / 10) * 10 + n % 10 == n) by (nonlinear_arith);
    }
}

/// A leading zero adds nothing to a run of digits' value.
proof fn lemma_leading_zero(s: Seq<char>)
    ensures
        decimal(seq!['0'] + s) == decimal(s),
    decreases s.len(),
{
    let z = seq!['0'] + s;
    if s.len() == 0 {
        assert(z.drop_last() =~= Seq::<char>::empty());
        assert(z.last() == '0');
        assert(digit_value('0') == 0);
        assert(decimal(z) == decimal(z.drop_last()) * 10 + digit_value(z.last()));
    } else {
        lemma_leading_zero(s.drop_last());
        assert(z.drop_last() =~= seq!['0'] + s.drop_last());
        assert(z.last() == s.last());
        assert(decimal(z) == decimal(z.drop_last()) * 10 + digit_value(z.last()));
        assert(decimal(s) == decimal(s.drop_last()) * 10 + digit_value(s.last()));
    }
}

/// Padding a run of digits with zeros keeps it a run of digits of the same
/// value.
proof fn lemma_zero_padded(d: Seq<char>, width: nat)
    requires
        d.len() > 0,
        forall|i: int| 0 <= i < d.len() ==> is_digit(#[trigger] d[i]),
    ensures
        zero_padded(d, width).len() > 0,
        forall|i: int| 0 <= i < zero_padded(d, width).len() ==> is_digit(#[trigger] zero_padded(d, width)[i]),
        decimal(zero_padded(d, width)) == decimal(d),
    decreases width,
{
    if d.len() < width {
        let rest = zero_padded(d, (width - 1) as nat);
        lemma_zero_padded(d, (width - 1) as nat);
        lemma_leading_zero(rest);
        let z = zero_padded(d, width);
        assert(z =~= seq!['0'] + rest);
        assert forall|i: int| 0 <= i < z.len() implies is_digit(#[trigger] z[i]) by {
            if i > 0 {
                assert(z[i] == rest[i - 1]);
            }
        }
    }
}

/// **A summary's file name carries its number**: the name written for
/// summary `n`, `<NNN>.md` zero-padded to three digits, is read back as
/// `n` when the directory is next listed.
pub proof fn law_summary_name_carries_its_number(n: u32)
    ensures
        summary_seq(zero_padded(to_decimal(n as nat), 3) + ".md"@) == Some(n),
{
    reveal_strlit(".md");
    reveal_strlit("md");
    lemma_to_decimal(n as nat);
    let digits = zero_padded(to_decimal(n as nat), 3);
    lemma_zero_padded(to_decimal(n as nat), 3);
    let name = digits + ".md"@;
    let j = digits.len() as int;
    assert(name[j] == '.');
    assert forall|k: int| j < k < name.len() implies name[k] != '.' by {
        assert(name[k] == ".md"@[k - j]);
    }
    lemma_last_index(name, '.', j);
    assert(name.skip(j + 1) =~= "md"@);
    assert(name.take(j) =~= digits);
    assert(digits[0] != '+') by {
        assert(is_digit(digits[0]));
    }
    assert(unsigned_body(digits) == digits);
}

/// **A written summary is counted by the next one**: once the summary that
/// [`next_summary_name`] names is in the directory, the highest number
/// there is the one it carries, so the next summary lands one further on
/// and never over it.
pub proof fn law_a_written_summary_is_counted_next(names: Seq<Seq<char>>)
    requires
        max_seq(names) < u32::MAX,
    ensures
        max_seq(names.push(zero_padded(to_decimal((max_seq(names) + 1) as nat), 3) + ".md"@)) == max_seq(names)
            + 1,
{
    let n = (max_seq(names) + 1) as u32;
    law_summary_name_carries_its_number(n);
    let f = zero_padded(to_decimal(n as nat), 3) + ".md"@;
    assert(names.push(f).drop_last() =~= names);
    assert(names.push(f).last() == f);
}

} // verus!
