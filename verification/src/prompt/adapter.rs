//! Harness side of the provider-adapter contract.
//!
//! The adapter is brazen's `bz` — one stateless binary for every provider.
//! The harness invokes it once per attempt, pipes a canonical request to
//! its stdin and reads its stdout as an event stream, one event per line.
//! Every completed line is handed on with its terminator stripped, and
//! blank lines are skipped. A non-zero exit is diagnostic, never an error:
//! only a failure to launch the binary is. Spawning the process is the
//! process edge's; how its output is cut into lines and rejoined is here.

use vstd::prelude::*;
use crate::text::{append_str};

verus! {

/// The provider-adapter binary, resolved on `PATH` unless the models
/// config names an `adapter:` override.
pub const BZ_BIN: &'static str = "bz";

/// The byte `\n`.
pub const LF: u8 = 10;
/// The byte `\r`.
pub const CR: u8 = 13;

/// The production adapter runner: one `bz` subprocess per run, its stdout
/// read line by line on the calling thread.
#[derive(Debug, Clone, Copy)]
pub struct SpawnAdapter;

/// The adapter binary: the `adapter:` override verbatim when one is named,
/// else `bz` on `PATH`.
pub fn resolve_binary(adapter_override: Option<&str>) -> (r: String)
    ensures
        r@ == match adapter_override {
            Some(p) => p@,
            None => BZ_BIN@,
        },
{
    let mut r = String::new();
    match adapter_override {
        Some(p) => append_str(&mut r, p),
        None => append_str(&mut r, BZ_BIN),
    }
    r
}

/// A line's payload: one trailing `\n` dropped, then one `\r` of a `\r\n`.
pub open spec fn payload(buf: Seq<u8>) -> Seq<u8> {
    let t = if buf.len() > 0 && buf.last() == LF {
        buf.drop_last()
    } else {
        buf
    };
    if t.len() > 0 && t.last() == CR {
        t.drop_last()
    } else {
        t
    }
}

/// Strip a single trailing `\n` (and the `\r` of a `\r\n` pair) from `buf`
/// so callbacks see clean payload bytes.
pub fn strip_trailing_lf(buf: &[u8]) -> (r: &[u8])
    ensures
        r@ == payload(buf@),
{
    let n: usize = buf.len();
    let ghost t = if buf@.len() > 0 && buf@.last() == LF {
        buf@.drop_last()
    } else {
        buf@
    };
    let mut end: usize = n;
    if end > 0 && buf[end - 1] == LF {
        end = end - 1;
    }
    assert(t =~= buf@.subrange(0, end as int));
    if end > 0 && buf[end - 1] == CR {
        end = end - 1;
    }
    assert(payload(buf@) =~= buf@.subrange(0, end as int));
    vstd::slice::slice_subrange(buf, 0, end)
}

/// The lines of one stream as a callback sees them, rejoined by `\n`.
pub open spec fn rejoined(lines: Seq<Seq<u8>>) -> Seq<u8>
    decreases lines.len(),
{
    if lines.len() == 0 {
        Seq::empty()
    } else if lines.len() == 1 {
        lines[0]
    } else {
        rejoined(lines.drop_last()).push(LF) + lines.last()
    }
}

/// A capture with one more line: the line itself when the capture is
/// empty, else `\n` and the line after it.
pub open spec fn appended(out: Seq<u8>, line: Seq<u8>) -> Seq<u8> {
    if out.len() == 0 {
        line
    } else {
        out.push(LF) + line
    }
}

/// The capture of `lines`, taken one at a time.
pub open spec fn captured(lines: Seq<Seq<u8>>) -> Seq<u8>
    decreases lines.len(),
{
    if lines.len() == 0 {
        Seq::empty()
    } else {
        appended(captured(lines.drop_last()), lines.last())
    }
}

/// Append one stdout line to the capture, `\n`-separated from what came
/// before — the capture the version guard reads.
pub fn append_line(out: &mut Vec<u8>, line: &[u8])
    requires
        line@.len() > 0,
    ensures
        final(out)@ == appended(old(out)@, line@),
{
    let ghost before = out@;
    if out.len() > 0 {
        out.push(LF);
    }
    let ghost mid = out@;
    let mut i: usize = 0;
    while i < line.len()
        invariant
            i <= line@.len(),
            out@ == mid + line@.take(i as int),
        decreases line.len() - i,
    {
        out.push(line[i]);
        proof {
            assert(line@.take(i + 1) =~= line@.take(i as int).push(line@[i as int]));
            assert(out@ =~= mid + line@.take(i + 1));
        }
        i += 1;
    }
    proof {
        assert(line@.take(line@.len() as int) =~= line@);
        if before.len() == 0 {
            assert(mid =~= Seq::<u8>::empty());
            assert(out@ =~= line@);
        }
    }
}

/// A capture of non-blank lines is never empty.
proof fn lemma_captured_nonempty(lines: Seq<Seq<u8>>)
    requires
        lines.len() > 0,
        forall|i: int| 0 <= i < lines.len() ==> lines[i].len() > 0,
    ensures
        captured(lines).len() > 0,
{
}

/// **The capture rejoins the lines**: taking a stream's non-blank lines
/// one at a time gives them back joined by `\n`, with no separator before
/// the first or after the last.
pub proof fn law_capture_rejoins_lines(lines: Seq<Seq<u8>>)
    requires
        forall|i: int| 0 <= i < lines.len() ==> lines[i].len() > 0,
    ensures
        captured(lines) == rejoined(lines),
    decreases lines.len(),
{
    if lines.len() > 0 {
        let front = lines.drop_last();
        assert forall|i: int| 0 <= i < front.len() implies front[i].len() > 0 by {
            assert(front[i] == lines[i]);
        }
        law_capture_rejoins_lines(front);
        if lines.len() > 1 {
            assert(front[front.len() - 1] == lines[front.len() - 1]);
            lemma_captured_nonempty(front);
        }
    }
}

} // verus!
