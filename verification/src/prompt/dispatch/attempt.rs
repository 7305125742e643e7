//! One adapter attempt, decided from what it produced: whether the adapter
//! ran at all, and each stdout line as it parsed. A line that is not an
//! event stops the feeding and fails the attempt; otherwise every event is
//! fed, in order, to a fresh [`Assembler`], whose outcome is the attempt's.
//! Running the adapter and reading its lines are the process edge's.

use vstd::prelude::*;
use crate::prompt::dispatch::events::{event_of, event_view_of, parse_event};
use crate::prompt::dispatch::assembler::{
    after_delta, contents_view, finished, inputs_readable, opened, with_slot, Assembler, ContentView, StreamEvent, Finish,
    SegmentOutcome, StreamError,
};

verus! {

/// Why an attempt failed before it had an outcome.
#[derive(Debug)]
pub enum AttemptError {
    /// The adapter could not be run.
    Spawn,
    /// Stdout line `index` (the first such) is not an event.
    BadLine(usize),
    /// A tool call's accumulated input is not JSON.
    BadToolInput(String),
}

/// The assembler's state as plain values: the slots, then the finish
/// reason, the error, the handshake version and whether the stream ended.
pub type AssemblyState = (Seq<Option<ContentView>>, (Option<Finish>, Option<StreamError>, Option<u8>, bool));

/// The state after feeding `e` to `s`. Nothing after `End` counts.
pub open spec fn fed_step(s: AssemblyState, e: StreamEvent) -> AssemblyState {
    let (b, st) = s;
    if st.3 {
        s
    } else {
        match e {
            StreamEvent::MessageStart { v } => (b, (st.0, st.1, Some(v), false)),
            StreamEvent::ContentStart { index, kind } => (with_slot(b, index as int, opened(kind)), st),
            StreamEvent::ContentDelta { index, delta } => (after_delta(b, index as int, delta), st),
            StreamEvent::Finish { reason } => (b, (Some(reason), st.1, st.2, false)),
            StreamEvent::Error(err) => (b, (st.0, Some(err), st.2, false)),
            StreamEvent::End => (b, (st.0, st.1, st.2, true)),
            StreamEvent::Other => s,
        }
    }
}

/// The state after feeding `events`, in order, to a fresh assembler.
pub open spec fn fed(events: Seq<StreamEvent>) -> AssemblyState
    decreases events.len(),
{
    if events.len() == 0 {
        (Seq::empty(), (None, None, None, false))
    } else {
        fed_step(fed(events.drop_last()), events.last())
    }
}

/// **Nothing after `End` counts**: once a stream has fed its `End`, the
/// events that follow leave the assembled slots and state as they were,
/// and the stream stays ended.
pub proof fn law_nothing_after_end_counts(a: Seq<StreamEvent>, b: Seq<StreamEvent>)
    ensures
        fed(a.push(StreamEvent::End) + b) == fed(a.push(StreamEvent::End)),
        fed(a.push(StreamEvent::End)).1.3,
    decreases b.len(),
{
    assert(a.push(StreamEvent::End).drop_last() =~= a);
    if b.len() == 0 {
        assert(a.push(StreamEvent::End) + b =~= a.push(StreamEvent::End));
    } else {
        law_nothing_after_end_counts(a, b.drop_last());
        assert((a.push(StreamEvent::End) + b).drop_last() =~= a.push(StreamEvent::End) + b.drop_last());
        assert((a.push(StreamEvent::End) + b).last() == b.last());
    }
}

/// The events of lines that all parsed.
pub open spec fn events_of(lines: Seq<Result<StreamEvent, ()>>) -> Seq<StreamEvent> {
    lines.map_values(|l: Result<StreamEvent, ()>| l->Ok_0)
}

/// Line `i` is the first that did not parse.
pub open spec fn first_bad(lines: Seq<Result<StreamEvent, ()>>, i: int) -> bool {
    0 <= i < lines.len() && lines[i] is Err && forall|j: int| 0 <= j < i ==> (#[trigger] lines[j]) is Ok
}

/// What an attempt answers for a stream that fed the state `s`: its error
/// event, a half stream without `End`, a refusal of an unreadable tool
/// input, or the completion.
pub open spec fn outcome_of_state(s: AssemblyState, r: Result<SegmentOutcome, AttemptError>) -> bool {
    let (b, st) = s;
    if st.1 is Some {
        r matches Ok(SegmentOutcome::Failed(f)) && Some(f) == st.1
    } else if !st.3 {
        r matches Ok(SegmentOutcome::HalfStream)
    } else if !inputs_readable(b) {
        r matches Err(AttemptError::BadToolInput(_))
    } else {
        r matches Ok(SegmentOutcome::Complete(c)) && contents_view(c.content@) == finished(b) && c.finish == st.0
            && c.handshake_v == st.2
    }
}

/// The attempt failed on line `i`.
pub open spec fn bad_line_at(r: Result<SegmentOutcome, AttemptError>, i: int) -> bool {
    r matches Err(AttemptError::BadLine(k)) && k == i
}

/// What an attempt over read lines `lines` answers: `Spawn` when the
/// adapter did not run; the first line that is not an event; else what the
/// fed events assemble to.
pub open spec fn attempt_spec(spawned: bool, lines: Seq<Result<StreamEvent, ()>>, r: Result<SegmentOutcome, AttemptError>) -> bool {
    &&& (!spawned ==> (r matches Err(AttemptError::Spawn)))
    &&& (spawned ==> forall|i: int| first_bad(lines, i) ==> bad_line_at(r, i))
    &&& (spawned && (forall|i: int| 0 <= i < lines.len() ==> (#[trigger] lines[i]) is Ok) ==> outcome_of_state(
        fed(events_of(lines)),
        r,
    ))
}

/// The outcome of one attempt: `Spawn` when the adapter did not run; the
/// first line that is not an event; else what the fed events assemble to.
pub fn attempt_outcome(spawned: bool, lines: Vec<Result<StreamEvent, ()>>) -> (r: Result<SegmentOutcome, AttemptError>)
    ensures
        !spawned ==> r matches Err(AttemptError::Spawn),
        spawned ==> forall|i: int| first_bad(lines@, i) ==> (r matches Err(AttemptError::BadLine(k)) && k == i),
        spawned && (forall|i: int| 0 <= i < lines@.len() ==> (#[trigger] lines@[i]) is Ok) ==> outcome_of_state(
            fed(events_of(lines@)),
            r,
        ),
        attempt_spec(spawned, lines@, r),
{
    if !spawned {
        return Err(AttemptError::Spawn);
    }
    let ghost whole = lines@;
    let total: usize = lines.len();
    let mut rest = lines;
    let mut a = Assembler::new();
    let mut k: usize = 0;
    let mut bad = false;
    while rest.len() > 0
        invariant_except_break
            k + rest@.len() == whole.len(),
            rest@ == whole.skip(k as int),
        invariant
            total == whole.len(),
            k <= whole.len(),
            forall|j: int| 0 <= j < k ==> (#[trigger] whole[j]) is Ok,
            (a.blocks_view(), a.state_view()) == fed(events_of(whole.take(k as int))),
            bad ==> k < whole.len() && whole[k as int] is Err,
        ensures
            bad ==> k < whole.len() && whole[k as int] is Err,
            !bad ==> k == whole.len(),
        decreases rest.len(),
    {
        let line = rest.remove(0);
        proof {
            assert(whole[k as int] == line);
            assert(rest@ =~= whole.skip(k + 1));
        }
        match line {
            Ok(e) => {
                proof {
                    assert(events_of(whole.take(k + 1)).drop_last() =~= events_of(whole.take(k as int)));
                    assert(events_of(whole.take(k + 1)).last() == e);
                }
                a.feed(e);
            },
            Err(()) => {
                bad = true;
                break;
            },
        }
        k += 1;
    }
    if bad {
        proof {
            assert(first_bad(whole, k as int));
            assert forall|i: int| first_bad(whole, i) implies i == k by {
                if i < k {
                    assert(whole[i] is Ok);
                }
                if i > k {
                    assert(whole[k as int] is Ok);
                }
            }
        }
        return Err(AttemptError::BadLine(k));
    }
    proof {
        assert(whole.take(k as int) =~= whole);
        assert forall|i: int| first_bad(whole, i) implies false by {
            assert(whole[i] is Ok);
        }
    }
    match a.into_outcome() {
        Ok(o) => Ok(o),
        Err(e) => Err(AttemptError::BadToolInput(e.0)),
    }
}

/// The outcome of one attempt from the adapter's raw stdout lines: each
/// line read as an event ([`parse_event`]), then [`attempt_outcome`].
pub fn attempt_outcome_of_lines(spawned: bool, lines: Vec<Vec<u8>>) -> (r: Result<SegmentOutcome, AttemptError>)
    ensures
        exists|read: Seq<Result<StreamEvent, ()>>|
            read.len() == lines@.len() && (forall|i: int|
                0 <= i < lines@.len() ==> event_view_of(#[trigger] read[i]) == event_of(lines@[i]@)) && #[trigger] attempt_spec(
                spawned,
                read,
                r,
            ),
{
    let mut read: Vec<Result<StreamEvent, ()>> = Vec::new();
    let mut i: usize = 0;
    while i < lines.len()
        invariant
            i <= lines@.len(),
            read@.len() == i,
            forall|k: int| 0 <= k < i ==> event_view_of(#[trigger] read@[k]) == event_of(lines@[k]@),
        decreases lines.len() - i,
    {
        read.push(parse_event(lines[i].as_slice()));
        i += 1;
    }
    let ghost rv = read@;
    let r = attempt_outcome(spawned, read);
    assert(attempt_spec(spawned, rv, r));
    r
}

} // verus!
