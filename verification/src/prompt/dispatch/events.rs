//! The adapter's stdout lines, read as events of the library's own
//! vocabulary. Decoding a line is brazen's (`serde_json` into
//! `brazen::Event`); what the library keeps of the decoded event is its
//! [`StreamEvent`], one variant for each it reads and `Other` for the rest.

use vstd::prelude::*;
use crate::prompt::dispatch::assembler::{Finish, StreamError, StreamEvent};
use crate::prompt::dispatch::retry::FailureKind;
use crate::prompt::dispatch::staging::{BlockDelta, BlockKind};

verus! {

/// `brazen::Event`, carried through the conversion.
#[verifier::external_type_specification]
#[verifier::external_body]
pub struct ExBrazenEvent(brazen::Event);

/// `brazen::ContentKind`, carried through the conversion.
#[verifier::external_type_specification]
#[verifier::external_body]
pub struct ExBrazenContentKind(brazen::ContentKind);

/// `brazen::Delta`, carried through the conversion.
#[verifier::external_type_specification]
#[verifier::external_body]
pub struct ExBrazenDelta(brazen::Delta);

/// `brazen::FinishReason`, carried through the conversion.
#[verifier::external_type_specification]
#[verifier::external_body]
pub struct ExBrazenFinishReason(brazen::FinishReason);

/// `brazen::ErrorKind`, carried through the conversion.
#[verifier::external_type_specification]
#[verifier::external_body]
pub struct ExBrazenErrorKind(brazen::ErrorKind);

/// A content-start kind as plain values.
pub enum KindView {
    Text,
    Thinking,
    ToolUse(Seq<char>, Seq<char>),
    Other,
}

/// A delta as plain values.
pub enum DeltaView {
    Text(Seq<char>),
    Thinking(Seq<char>),
    Json(Seq<char>),
    Other,
}

/// An event as plain values.
pub enum EventView {
    MessageStart(u8),
    ContentStart(u32, KindView),
    ContentDelta(u32, DeltaView),
    Finish(Finish),
    Error(FailureKind, Seq<char>),
    End,
    Other,
}

/// The plain value of a content-start kind.
pub open spec fn kind_view(k: BlockKind) -> KindView {
    match k {
        BlockKind::Text => KindView::Text,
        BlockKind::Thinking => KindView::Thinking,
        BlockKind::ToolUse { id, name } => KindView::ToolUse(id@, name@),
        BlockKind::Other => KindView::Other,
    }
}

/// The plain value of a delta.
pub open spec fn delta_view(d: BlockDelta) -> DeltaView {
    match d {
        BlockDelta::Text(t) => DeltaView::Text(t@),
        BlockDelta::Thinking(t) => DeltaView::Thinking(t@),
        BlockDelta::Json(t) => DeltaView::Json(t@),
        BlockDelta::Other => DeltaView::Other,
    }
}

/// The plain value of an event.
pub open spec fn event_view(e: StreamEvent) -> EventView {
    match e {
        StreamEvent::MessageStart { v } => EventView::MessageStart(v),
        StreamEvent::ContentStart { index, kind } => EventView::ContentStart(index, kind_view(kind)),
        StreamEvent::ContentDelta { index, delta } => EventView::ContentDelta(index, delta_view(delta)),
        StreamEvent::Finish { reason } => EventView::Finish(reason),
        StreamEvent::Error(err) => EventView::Error(err.kind, err.message@),
        StreamEvent::End => EventView::End,
        StreamEvent::Other => EventView::Other,
    }
}

/// The plain value of a read line: its event, or nothing when it is not
/// one.
pub open spec fn event_view_of(r: Result<StreamEvent, ()>) -> Option<EventView> {
    match r {
        Ok(e) => Some(event_view(e)),
        Err(_) => None,
    }
}

/// The event adapter line `line` decodes to, as the library reads it;
/// nothing when it does not decode.
pub uninterp spec fn event_of(line: Seq<u8>) -> Option<EventView>;

/// `serde_json::from_slice::<brazen::Event>(line)`, converted to the
/// library's [`StreamEvent`].
#[verifier::external_body]
pub fn parse_event(line: &[u8]) -> (r: Result<StreamEvent, ()>)
    ensures
        event_view_of(r) == event_of(line@),
{
    match serde_json::from_slice::<brazen::Event>(line) {
        Ok(e) => Ok(event_from(e)),
        Err(_) => Err(()),
    }
}

/// A decoded `brazen::Event`, variant for variant; every variant the
/// library does not read is `Other`.
#[verifier::external_body]
fn event_from(e: brazen::Event) -> StreamEvent {
    match e {
        brazen::Event::MessageStart { v, .. } => StreamEvent::MessageStart { v },
        brazen::Event::ContentStart { index, kind } => StreamEvent::ContentStart { index, kind: kind_from(kind) },
        brazen::Event::ContentDelta { index, delta } => StreamEvent::ContentDelta { index, delta: delta_from(delta) },
        brazen::Event::Finish { reason } => StreamEvent::Finish { reason: finish_from(reason) },
        brazen::Event::Error(err) => StreamEvent::Error(StreamError { kind: error_kind_from(err.kind), message: err.message }),
        brazen::Event::End => StreamEvent::End,
        _ => StreamEvent::Other,
    }
}

/// A `brazen::ContentKind`, variant for variant.
#[verifier::external_body]
fn kind_from(k: brazen::ContentKind) -> BlockKind {
    match k {
        brazen::ContentKind::Text {} => BlockKind::Text,
        brazen::ContentKind::Thinking { .. } => BlockKind::Thinking,
        brazen::ContentKind::ToolUse { id, name } => BlockKind::ToolUse { id, name },
        _ => BlockKind::Other,
    }
}

/// A `brazen::Delta`, variant for variant.
#[verifier::external_body]
fn delta_from(d: brazen::Delta) -> BlockDelta {
    match d {
        brazen::Delta::TextDelta(t) => BlockDelta::Text(t),
        brazen::Delta::ThinkingDelta(t) => BlockDelta::Thinking(t),
        brazen::Delta::JsonDelta(t) => BlockDelta::Json(t),
        _ => BlockDelta::Other,
    }
}

/// A `brazen::FinishReason`, variant for variant.
#[verifier::external_body]
fn finish_from(f: brazen::FinishReason) -> Finish {
    match f {
        brazen::FinishReason::Stop => Finish::Stop,
        brazen::FinishReason::Length => Finish::Length,
        brazen::FinishReason::ToolUse => Finish::ToolUse,
        brazen::FinishReason::StopSequence => Finish::StopSequence,
        brazen::FinishReason::Refusal { .. } => Finish::Refusal,
        brazen::FinishReason::Pause => Finish::Pause,
        _ => Finish::Other,
    }
}

/// A `brazen::ErrorKind`, variant for variant.
#[verifier::external_body]
fn error_kind_from(k: brazen::ErrorKind) -> FailureKind {
    match k {
        brazen::ErrorKind::Usage => FailureKind::Usage,
        brazen::ErrorKind::ParseInput => FailureKind::ParseInput,
        brazen::ErrorKind::Config => FailureKind::Config,
        brazen::ErrorKind::Auth => FailureKind::Auth,
        brazen::ErrorKind::Provider { status } => FailureKind::Provider { status },
        brazen::ErrorKind::Transport => FailureKind::Transport,
        brazen::ErrorKind::Interrupted => FailureKind::Interrupted,
        _ => FailureKind::Other,
    }
}

} // verus!
