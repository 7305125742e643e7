//! **The adapter's stderr lands beside the model call.** Every attempt's
//! captured stderr appends to `stderr.log` in the step directory — empty
//! on an ordinary run, since the adapter speaks its failures in-band on
//! stdout. Bytes there mean the adapter died outside the contract with an
//! empty stream, so the half-stream error quotes the failing attempt's
//! stderr tail; an empty stderr is itself diagnostic — a genuine
//! mid-stream kill.

use vstd::prelude::*;
use crate::text::{append_str, chars_of, push_char, trim, trim_chars};

verus! {

/// How much of an attempt's stderr the half-stream error quotes — big
/// enough for a config-parse complaint, small enough that an error line
/// never becomes a log dump. The whole capture is on disk.
pub const TAIL_CHARS: usize = 400;

/// What a capture with nothing to say reads as.
pub const EMPTY: &'static str = "(empty)";

/// What each newline of the quoted tail becomes.
pub const LINE_BREAK: &'static str = " | ";

/// The text `String::from_utf8_lossy` makes of `bytes`: each invalid UTF-8
/// sequence becomes U+FFFD.
pub uninterp spec fn lossy_text(bytes: Seq<u8>) -> Seq<char>;

/// `String::from_utf8_lossy(bytes).into_owned()`.
#[verifier::external_body]
fn utf8_lossy(bytes: &[u8]) -> (s: String)
    ensures
        s@ == lossy_text(bytes@),
{
    String::from_utf8_lossy(bytes).into_owned()
}

/// `s` on one line: every newline becomes ` | `.
pub open spec fn flatten(s: Seq<char>) -> Seq<char>
    decreases s.len(),
{
    if s.len() == 0 {
        Seq::empty()
    } else if s.last() == '\n' {
        flatten(s.drop_last()) + LINE_BREAK@
    } else {
        flatten(s.drop_last()).push(s.last())
    }
}

/// The quoted tail of a capture whose text is `text`: its last
/// [`TAIL_CHARS`] characters once trimmed, flattened, with a leading `…`
/// when there is more on disk; `(empty)` when it is blank.
pub open spec fn tail_spec(text: Seq<char>) -> Seq<char> {
    let t = trim(text);
    if t.len() == 0 {
        EMPTY@
    } else if t.len() > TAIL_CHARS {
        seq!['\u{2026}'] + flatten(t.skip(t.len() - TAIL_CHARS))
    } else {
        flatten(t)
    }
}

/// The trailing [`TAIL_CHARS`] characters of an attempt's stderr, newlines
/// flattened so the error stays one line, with a leading `…` when there is
/// more on disk; `(empty)` when the adapter said nothing.
pub fn tail(bytes: &[u8]) -> (s: String)
    ensures
        s@ == tail_spec(lossy_text(bytes@)),
{
    let text = utf8_lossy(bytes);
    let t = trim_chars(&chars_of(text.as_str()));
    let mut out = String::new();
    if t.len() == 0 {
        append_str(&mut out, EMPTY);
        return out;
    }
    let start: usize = if t.len() > TAIL_CHARS {
        t.len() - TAIL_CHARS
    } else {
        0
    };
    if start > 0 {
        push_char(&mut out, '\u{2026}');
    }
    let ghost lead = out@;
    let ghost kept = t@.skip(start as int);
    let mut i: usize = start;
    while i < t.len()
        invariant
            start <= i <= t@.len(),
            kept == t@.skip(start as int),
            out@ == lead + flatten(kept.take(i - start)),
        decreases t.len() - i,
    {
        proof {
            assert(kept.take(i - start + 1).drop_last() =~= kept.take(i - start));
            assert(kept.take(i - start + 1).last() == t@[i as int]);
        }
        if t[i] == '\n' {
            append_str(&mut out, LINE_BREAK);
        } else {
            push_char(&mut out, t[i]);
        }
        proof {
            assert(out@ =~= lead + flatten(kept.take(i - start + 1)));
        }
        i += 1;
    }
    proof {
        assert(kept.take(t@.len() - start) =~= kept);
        if start == 0 {
            assert(lead =~= Seq::<char>::empty());
            assert(kept =~= t@);
        }
    }
    out
}

/// Flattening text with no newline changes nothing.
proof fn lemma_flatten_one_line(s: Seq<char>)
    requires
        forall|i: int| 0 <= i < s.len() ==> s[i] != '\n',
    ensures
        flatten(s) == s,
    decreases s.len(),
{
    if s.len() > 0 {
        lemma_flatten_one_line(s.drop_last());
        assert(s.drop_last().push(s.last()) =~= s);
    }
}

/// **The quoted tail never becomes a log dump**: for a one-line capture
/// it is at most [`TAIL_CHARS`] characters and the `…` that says more is
/// on disk.
pub proof fn law_the_tail_is_bounded(text: Seq<char>)
    requires
        forall|i: int| 0 <= i < trim(text).len() ==> trim(text)[i] != '\n',
    ensures
        tail_spec(text).len() <= TAIL_CHARS + 1,
{
    reveal_strlit("(empty)");
    let t = trim(text);
    if t.len() > TAIL_CHARS {
        let kept = t.skip(t.len() - TAIL_CHARS);
        assert forall|i: int| 0 <= i < kept.len() implies kept[i] != '\n' by {
            assert(kept[i] == t[i + t.len() - TAIL_CHARS]);
        }
        lemma_flatten_one_line(kept);
    } else if t.len() > 0 {
        lemma_flatten_one_line(t);
    }
}

/// Flattened text holds no newline.
proof fn lemma_flatten_has_no_newline(s: Seq<char>)
    ensures
        forall|i: int| 0 <= i < flatten(s).len() ==> #[trigger] flatten(s)[i] != '\n',
    decreases s.len(),
{
    reveal_strlit(" | ");
    if s.len() > 0 {
        lemma_flatten_has_no_newline(s.drop_last());
        let f = flatten(s.drop_last());
        if s.last() == '\n' {
            assert forall|i: int| 0 <= i < flatten(s).len() implies #[trigger] flatten(s)[i] != '\n' by {
                if i < f.len() {
                    assert(flatten(s)[i] == f[i]);
                } else {
                    assert(flatten(s)[i] == LINE_BREAK@[i - f.len()]);
                }
            }
        } else {
            assert forall|i: int| 0 <= i < flatten(s).len() implies #[trigger] flatten(s)[i] != '\n' by {
                if i < f.len() {
                    assert(flatten(s)[i] == f[i]);
                }
            }
        }
    }
}

/// **The quoted tail is one line, and it is the end of what the adapter
/// said**: whatever the capture, the tail holds no newline; for a capture
/// that is one line once trimmed, the tail is that line when it fits in
/// [`TAIL_CHARS`], else `…` and its last [`TAIL_CHARS`] characters.
pub proof fn law_the_tail_is_the_last_line(text: Seq<char>)
    ensures
        forall|i: int| 0 <= i < tail_spec(text).len() ==> #[trigger] tail_spec(text)[i] != '\n',
        (forall|i: int| 0 <= i < trim(text).len() ==> trim(text)[i] != '\n') && 0 < trim(text).len() <= TAIL_CHARS
            ==> tail_spec(text) == trim(text),
        (forall|i: int| 0 <= i < trim(text).len() ==> trim(text)[i] != '\n') && trim(text).len() > TAIL_CHARS
            ==> tail_spec(text) == seq!['\u{2026}'] + trim(text).skip(trim(text).len() - TAIL_CHARS),
{
    reveal_strlit("(empty)");
    let t = trim(text);
    if t.len() == 0 {
        assert forall|i: int| 0 <= i < tail_spec(text).len() implies #[trigger] tail_spec(text)[i] != '\n' by {
            assert(tail_spec(text) == EMPTY@);
        }
    } else if t.len() > TAIL_CHARS {
        let kept = t.skip(t.len() - TAIL_CHARS);
        lemma_flatten_has_no_newline(kept);
        assert forall|i: int| 0 <= i < tail_spec(text).len() implies #[trigger] tail_spec(text)[i] != '\n' by {
            if i > 0 {
                assert(tail_spec(text)[i] == flatten(kept)[i - 1]);
            }
        }
        if forall|i: int| 0 <= i < t.len() ==> t[i] != '\n' {
            assert forall|i: int| 0 <= i < kept.len() implies kept[i] != '\n' by {
                assert(kept[i] == t[i + t.len() - TAIL_CHARS]);
            }
            lemma_flatten_one_line(kept);
        }
    } else {
        lemma_flatten_has_no_newline(t);
        if forall|i: int| 0 <= i < t.len() ==> t[i] != '\n' {
            lemma_flatten_one_line(t);
        }
    }
}

} // verus!
