//! Assembling one attempt's event stream into its outcome.
//!
//! The adapter's stream opens with a `MessageStart` carrying its schema
//! version, then addresses content blocks by index: a start opens a slot,
//! deltas append to it, and the stream ends with `End`. An in-band error
//! event makes the attempt failed whatever else came; a stream without its
//! `End` is a half stream; otherwise the slots, in index order, are the
//! completion's content — text as spoken, a tool use with its accumulated
//! input JSON (`{}` when none arrived), anything else dropped. A tool
//! input that is not JSON makes the whole completion unreadable. Events
//! after `End` are ignored.

use vstd::prelude::*;
use crate::prompt::dispatch::retry::FailureKind;
use crate::prompt::dispatch::staging::{BlockKind, BlockDelta};
use crate::text::append_str;

verus! {

/// Whether `text` parses as a JSON value (`serde_json::from_str::<Value>`
/// succeeds on it).
pub uninterp spec fn parses_as_json(text: Seq<char>) -> bool;

/// `serde_json::from_str::<serde_json::Value>(text).is_ok()`.
#[verifier::external_body]
pub(crate) fn is_json(text: &str) -> (b: bool)
    ensures
        b == parses_as_json(text@),
{
    serde_json::from_str::<serde_json::Value>(text).is_ok()
}

/// Why a stream finished.
#[derive(Debug, Clone, Copy, PartialEq, Eq, Structural)]
pub enum Finish {
    Stop,
    Length,
    ToolUse,
    StopSequence,
    Refusal,
    Pause,
    Other,
}

/// An in-band error event.
#[derive(Debug, PartialEq, Eq)]
pub struct StreamError {
    pub kind: FailureKind,
    pub message: String,
}

/// One event of the adapter's stream, as far as assembly reads it.
#[derive(Debug, PartialEq, Eq)]
pub enum StreamEvent {
    MessageStart { v: u8 },
    ContentStart { index: u32, kind: BlockKind },
    ContentDelta { index: u32, delta: BlockDelta },
    Finish { reason: Finish },
    Error(StreamError),
    End,
    /// Block stops, usage, and anything this build does not model.
    Other,
}

/// A content slot being accumulated.
#[derive(Debug, PartialEq, Eq)]
pub enum Slot {
    Text(String),
    ToolUse { id: String, name: String, json: String },
    Other,
}

/// A finished content block.
#[derive(Debug, PartialEq, Eq)]
pub enum Content {
    Text(String),
    ToolUse { id: String, name: String, input_json: String },
}

/// A slot, or a finished block, as plain values.
pub enum ContentView {
    Text(Seq<char>),
    ToolUse(Seq<char>, Seq<char>, Seq<char>),
    Other,
}

/// A finished block as plain values.
pub open spec fn content_view(c: Content) -> ContentView {
    match c {
        Content::Text(t) => ContentView::Text(t@),
        Content::ToolUse { id, name, input_json } => ContentView::ToolUse(id@, name@, input_json@),
    }
}

/// A slot as plain values.
pub open spec fn slot_view(s: Slot) -> ContentView {
    match s {
        Slot::Text(t) => ContentView::Text(t@),
        Slot::ToolUse { id, name, json } => ContentView::ToolUse(id@, name@, json@),
        Slot::Other => ContentView::Other,
    }
}

/// The slots as plain values.
pub open spec fn slots_view(v: Seq<Option<Slot>>) -> Seq<Option<ContentView>> {
    v.map_values(|o: Option<Slot>| match o {
        Some(s) => Some(slot_view(s)),
        None => None,
    })
}

/// The slot a start event opens: an empty text, an empty tool use, or a
/// slot that finishes as nothing.
pub open spec fn opened(kind: BlockKind) -> ContentView {
    match kind {
        BlockKind::Text => ContentView::Text(Seq::empty()),
        BlockKind::ToolUse { id, name } => ContentView::ToolUse(id@, name@, Seq::empty()),
        _ => ContentView::Other,
    }
}

/// The slots after a delta for slot `index`: text appended to a text slot,
/// JSON to a tool use; anything else, or a slot never opened, unchanged.
pub open spec fn after_delta(blocks: Seq<Option<ContentView>>, index: int, delta: BlockDelta) -> Seq<Option<ContentView>> {
    if 0 <= index < blocks.len() {
        match (blocks[index], delta) {
            (Some(ContentView::Text(t)), BlockDelta::Text(d)) => blocks.update(index, Some(ContentView::Text(t + d@))),
            (Some(ContentView::ToolUse(i, n, j)), BlockDelta::Json(d)) => blocks.update(
                index,
                Some(ContentView::ToolUse(i, n, j + d@)),
            ),
            _ => blocks,
        }
    } else {
        blocks
    }
}

/// What a slot finishes as: text as spoken, a tool use with its input
/// (`{}` when none arrived), anything else nothing.
pub open spec fn slot_content(s: ContentView) -> Option<ContentView> {
    match s {
        ContentView::Text(t) => Some(ContentView::Text(t)),
        ContentView::ToolUse(id, name, json) => Some(ContentView::ToolUse(id, name, if json.len() == 0 {
            "{}"@
        } else {
            json
        })),
        ContentView::Other => None,
    }
}

/// The completion's content: the filled slots in index order.
pub open spec fn finished(blocks: Seq<Option<ContentView>>) -> Seq<ContentView>
    decreases blocks.len(),
{
    if blocks.len() == 0 {
        Seq::empty()
    } else {
        let before = finished(blocks.drop_last());
        match blocks.last() {
            Some(s) => match slot_content(s) {
                Some(c) => before.push(c),
                None => before,
            },
            None => before,
        }
    }
}

/// Whether every tool use among the slots carries readable input.
pub open spec fn inputs_readable(blocks: Seq<Option<ContentView>>) -> bool {
    forall|i: int|
        0 <= i < blocks.len() ==> match #[trigger] blocks[i] {
            Some(ContentView::ToolUse(_, _, json)) => json.len() == 0 || parses_as_json(json),
            _ => true,
        }
}

/// **Deltas accumulate in arrival order in the slot they name**: a text
/// slot opened at `index` and fed two text deltas holds the first then the
/// second; a tool use fed two JSON fragments holds them joined, keeping its
/// id and name; a thinking delta changes no slot.
pub proof fn law_deltas_accumulate_in_order(
    blocks: Seq<Option<ContentView>>,
    index: int,
    d1: String,
    d2: String,
    id: Seq<char>,
    name: Seq<char>,
)
    requires
        index >= 0,
    ensures
        after_delta(
            after_delta(with_slot(blocks, index, ContentView::Text(Seq::empty())), index, BlockDelta::Text(d1)),
            index,
            BlockDelta::Text(d2),
        )[index] == Some(ContentView::Text(d1@ + d2@)),
        after_delta(
            after_delta(with_slot(blocks, index, ContentView::ToolUse(id, name, Seq::empty())), index, BlockDelta::Json(d1)),
            index,
            BlockDelta::Json(d2),
        )[index] == Some(ContentView::ToolUse(id, name, d1@ + d2@)),
        after_delta(blocks, index, BlockDelta::Thinking(d1)) == blocks,
{
    assert(Seq::<char>::empty() + d1@ =~= d1@);
}

/// **The completion keeps the slots' order, and a tool use without input
/// carries `{}`**: the content of two runs of slots is the first run's
/// content followed by the second's; a trailing text slot finishes as its
/// text, an input-less tool use as `{}`, and an empty or other slot as
/// nothing.
pub proof fn law_finished_in_slot_order(a: Seq<Option<ContentView>>, b: Seq<Option<ContentView>>, t: Seq<char>, id: Seq<char>, name: Seq<char>)
    ensures
        finished(a + b) == finished(a) + finished(b),
        finished(a.push(Some(ContentView::Text(t)))) == finished(a).push(ContentView::Text(t)),
        finished(a.push(Some(ContentView::ToolUse(id, name, Seq::empty())))) == finished(a).push(
            ContentView::ToolUse(id, name, "{}"@),
        ),
        finished(a.push(None)) == finished(a),
        finished(a.push(Some(ContentView::Other))) == finished(a),
    decreases b.len(),
{
    assert((a.push(None)).drop_last() =~= a);
    assert((a.push(Some(ContentView::Other))).drop_last() =~= a);
    assert((a.push(Some(ContentView::Text(t)))).drop_last() =~= a);
    assert((a.push(Some(ContentView::ToolUse(id, name, Seq::empty())))).drop_last() =~= a);
    if b.len() == 0 {
        assert(a + b =~= a);
        assert(finished(b) =~= Seq::<ContentView>::empty());
        assert(finished(a) + finished(b) =~= finished(a));
    } else {
        law_finished_in_slot_order(a, b.drop_last(), t, id, name);
        assert((a + b).drop_last() =~= a + b.drop_last());
        assert((a + b).last() == b.last());
        match b.last() {
            Some(s) => match slot_content(s) {
                Some(c) => {
                    assert(finished(a) + finished(b.drop_last()).push(c) =~= (finished(a) + finished(b.drop_last())).push(c));
                },
                None => {},
            },
            None => {},
        }
    }
}

/// The views of a list of finished blocks.
pub open spec fn contents_view(v: Seq<Content>) -> Seq<ContentView> {
    v.map_values(|c: Content| content_view(c))
}

/// A completed stream.
#[derive(Debug)]
pub struct Completion {
    pub content: Vec<Content>,
    pub finish: Option<Finish>,
    pub handshake_v: Option<u8>,
}

impl Completion {
    /// Whether the model finished to use tools.
    pub fn is_tool_use(&self) -> (b: bool)
        ensures
            b == (self.finish == Some(Finish::ToolUse)),
    {
        match self.finish {
            Some(Finish::ToolUse) => true,
            _ => false,
        }
    }
}

/// How an attempt's stream ended.
#[derive(Debug)]
pub enum SegmentOutcome {
    Complete(Completion),
    Failed(StreamError),
    HalfStream,
}

/// A tool input that is not JSON, as it arrived.
#[derive(Debug, PartialEq, Eq)]
pub struct AssemblyError(pub String);

/// The stream's accumulated state.
#[derive(Debug)]
pub struct Assembler {
    blocks: Vec<Option<Slot>>,
    finish: Option<Finish>,
    error: Option<StreamError>,
    handshake_v: Option<u8>,
    ended: bool,
}

/// `blocks` with slot `index` set to `s`, grown with empty slots as needed.
pub open spec fn with_slot(blocks: Seq<Option<ContentView>>, index: int, s: ContentView) -> Seq<Option<ContentView>> {
    let grown = if blocks.len() <= index {
        blocks + Seq::new((index + 1 - blocks.len()) as nat, |j: int| None::<ContentView>)
    } else {
        blocks
    };
    grown.update(index, Some(s))
}

impl Assembler {
    /// The slots.
    pub closed spec fn blocks_view(&self) -> Seq<Option<ContentView>> {
        slots_view(self.blocks@)
    }

    /// The finish reason, the error, the handshake version, and whether the
    /// stream ended.
    pub closed spec fn state_view(&self) -> (Option<Finish>, Option<StreamError>, Option<u8>, bool) {
        (self.finish, self.error, self.handshake_v, self.ended)
    }

    /// A fresh stream: nothing seen.
    pub fn new() -> (a: Assembler)
        ensures
            a.blocks_view().len() == 0,
            a.state_view() == (None::<Finish>, None::<StreamError>, None::<u8>, false),
    {
        Assembler { blocks: Vec::new(), finish: None, error: None, handshake_v: None, ended: false }
    }

    /// Fill slot `index`, growing the slots with empty ones as needed.
    fn set_slot(&mut self, index: usize, s: Slot)
        ensures
            final(self).blocks_view() == with_slot(old(self).blocks_view(), index as int, slot_view(s)),
            final(self).state_view() == old(self).state_view(),
    {
        let ghost before = self.blocks@;
        while self.blocks.len() <= index
            invariant
                before.len() <= self.blocks@.len(),
                self.blocks@.len() <= index + 1 || self.blocks@ == before,
                forall|j: int| 0 <= j < before.len() ==> self.blocks@[j] == before[j],
                forall|j: int| before.len() <= j < self.blocks@.len() ==> self.blocks@[j] is None,
                self.finish == old(self).finish,
                self.error == old(self).error,
                self.handshake_v == old(self).handshake_v,
                self.ended == old(self).ended,
            decreases index + 1 - self.blocks@.len(),
        {
            self.blocks.push(None);
        }
        let ghost grown = self.blocks@;
        let ghost sv = slot_view(s);
        self.blocks.set(index, Some(s));
        proof {
            let bv = slots_view(before);
            let g = if bv.len() <= index {
                bv + Seq::new((index + 1 - bv.len()) as nat, |j: int| None::<ContentView>)
            } else {
                bv
            };
            assert(slots_view(grown) =~= g);
            assert(slots_view(self.blocks@) =~= g.update(index as int, Some(sv)));
        }
    }

    /// Take one event. Nothing after `End` counts.
    pub fn feed(&mut self, event: StreamEvent)
        ensures
            old(self).state_view().3 ==> final(self).blocks_view() == old(self).blocks_view() && final(self).state_view()
                == old(self).state_view(),
            !old(self).state_view().3 ==> match event {
                StreamEvent::MessageStart { v } => final(self).blocks_view() == old(self).blocks_view() && final(self).state_view()
                    == (old(self).state_view().0, old(self).state_view().1, Some(v), false),
                StreamEvent::ContentStart { index, kind } => final(self).state_view() == old(self).state_view()
                    && final(self).blocks_view() == with_slot(old(self).blocks_view(), index as int, opened(kind)),
                StreamEvent::ContentDelta { index, delta } => final(self).state_view() == old(self).state_view()
                    && final(self).blocks_view() == after_delta(old(self).blocks_view(), index as int, delta),
                StreamEvent::Finish { reason } => final(self).blocks_view() == old(self).blocks_view() && final(self).state_view()
                    == (Some(reason), old(self).state_view().1, old(self).state_view().2, false),
                StreamEvent::Error(e) => final(self).blocks_view() == old(self).blocks_view() && final(self).state_view() == (
                    old(self).state_view().0,
                    Some(e),
                    old(self).state_view().2,
                    false,
                ),
                StreamEvent::End => final(self).blocks_view() == old(self).blocks_view() && final(self).state_view() == (
                    old(self).state_view().0,
                    old(self).state_view().1,
                    old(self).state_view().2,
                    true,
                ),
                StreamEvent::Other => final(self).blocks_view() == old(self).blocks_view() && final(self).state_view()
                    == old(self).state_view(),
            },
    {
        if self.ended {
            return;
        }
        match event {
            StreamEvent::MessageStart { v } => self.handshake_v = Some(v),
            StreamEvent::ContentStart { index, kind } => {
                let s = match kind {
                    BlockKind::Text => Slot::Text(String::new()),
                    BlockKind::ToolUse { id, name } => Slot::ToolUse { id, name, json: String::new() },
                    _ => Slot::Other,
                };
                self.set_slot(index as usize, s);
            },
            StreamEvent::ContentDelta { index, delta } => self.on_delta(index as usize, &delta),
            StreamEvent::Finish { reason } => self.finish = Some(reason),
            StreamEvent::Error(err) => self.error = Some(err),
            StreamEvent::End => self.ended = true,
            StreamEvent::Other => {},
        }
    }

    /// A delta for slot `index`.
    fn on_delta(&mut self, index: usize, delta: &BlockDelta)
        ensures
            final(self).state_view() == old(self).state_view(),
            final(self).blocks_view() == after_delta(old(self).blocks_view(), index as int, *delta),
    {
        if index >= self.blocks.len() {
            return;
        }
        let ghost bv = slots_view(self.blocks@);
        let next = match (&self.blocks[index], delta) {
            (Some(Slot::Text(buf)), BlockDelta::Text(t)) => {
                let mut b = buf.clone();
                append_str(&mut b, t.as_str());
                Slot::Text(b)
            },
            (Some(Slot::ToolUse { id, name, json }), BlockDelta::Json(t)) => {
                let mut j = json.clone();
                append_str(&mut j, t.as_str());
                Slot::ToolUse { id: id.clone(), name: name.clone(), json: j }
            },
            _ => {
                proof {
                    assert(after_delta(bv, index as int, *delta) == bv);
                }
                return;
            },
        };
        let ghost nv = slot_view(next);
        self.blocks.set(index, Some(next));
        proof {
            assert(slots_view(self.blocks@) =~= bv.update(index as int, Some(nv)));
        }
    }

    /// The attempt's outcome: failed on an error event, a half stream
    /// without `End`, else the completion — unless a tool input is not
    /// JSON.
    pub fn into_outcome(self) -> (r: Result<SegmentOutcome, AssemblyError>)
        ensures
            self.state_view().1 matches Some(e) ==> (r matches Ok(SegmentOutcome::Failed(f)) && f == e),
            (self.state_view().1 is None && !self.state_view().3) ==> (r matches Ok(SegmentOutcome::HalfStream)),
            (self.state_view().1 is None && self.state_view().3) ==> (r is Ok <==> inputs_readable(self.blocks_view())),
            (self.state_view().1 is None && self.state_view().3 && inputs_readable(self.blocks_view())) ==> (r matches Ok(
                SegmentOutcome::Complete(c),
            ) && contents_view(c.content@) == finished(self.blocks_view()) && c.finish == self.state_view().0
                && c.handshake_v == self.state_view().2),
    {
        let ghost all = slots_view(self.blocks@);
        let ghost st = self.state_view();
        let Assembler { blocks, finish, error, handshake_v, ended } = self;
        if let Some(err) = error {
            return Ok(SegmentOutcome::Failed(err));
        }
        if !ended {
            return Ok(SegmentOutcome::HalfStream);
        }
        let mut content: Vec<Content> = Vec::new();
        let mut i: usize = 0;
        while i < blocks.len()
            invariant
                i <= blocks@.len(),
                all == slots_view(blocks@),
                st.1 is None,
                st.3,
                st == self.state_view(),
                all == self.blocks_view(),
                contents_view(content@) == finished(all.take(i as int)),
                inputs_readable(all.take(i as int)),
            decreases blocks.len() - i,
        {
            proof {
                reveal_strlit("{}");
                assert(all.take(i + 1).drop_last() =~= all.take(i as int));
                assert(all.take(i + 1).last() == all[i as int]);
            }
            let ghost before = content@;
            match &blocks[i] {
                None => {},
                Some(Slot::Other) => {},
                Some(Slot::Text(t)) => {
                    content.push(Content::Text(t.clone()));
                    proof {
                        assert(contents_view(content@) =~= contents_view(before).push(content_view(content@.last())));
                    }
                },
                Some(Slot::ToolUse { id, name, json }) => {
                    let input_json = if json.as_str().is_empty() {
                        let mut e = String::new();
                        append_str(&mut e, "{}");
                        e
                    } else if is_json(json.as_str()) {
                        json.clone()
                    } else {
                        proof {
                            assert(!inputs_readable(all)) by {
                                assert(all[i as int] == all[i as int]);
                            }
                        }
                        return Err(AssemblyError(json.clone()));
                    };
                    content.push(Content::ToolUse { id: id.clone(), name: name.clone(), input_json });
                    proof {
                        assert(contents_view(content@) =~= contents_view(before).push(content_view(content@.last())));
                    }
                },
            }
            proof {
                assert forall|j: int| 0 <= j < i + 1 implies match #[trigger] all.take(i + 1)[j] {
                    Some(ContentView::ToolUse(_, _, json)) => json.len() == 0 || parses_as_json(json),
                    _ => true,
                } by {
                    if j < i {
                        assert(all.take(i + 1)[j] == all.take(i as int)[j]);
                    }
                }
            }
            i += 1;
        }
        proof {
            assert(all.take(all.len() as int) =~= all);
        }
        Ok(SegmentOutcome::Complete(Completion { content, finish, handshake_v }))
    }
}

} // verus!
