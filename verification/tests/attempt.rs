use lernie::prompt::dispatch::assembler::{Content, StreamEvent, Finish, SegmentOutcome};
use lernie::prompt::dispatch::attempt::{attempt_outcome, attempt_outcome_of_lines, AttemptError};
use lernie::prompt::dispatch::events::parse_event;
use lernie::prompt::dispatch::staging::{BlockKind, BlockDelta};

fn text_stream() -> Vec<Result<StreamEvent, ()>> {
    vec![
        Ok(StreamEvent::MessageStart { v: 1 }),
        Ok(StreamEvent::ContentStart { index: 0, kind: BlockKind::Text }),
        Ok(StreamEvent::ContentDelta { index: 0, delta: BlockDelta::Text("hi".into()) }),
        Ok(StreamEvent::Finish { reason: Finish::Stop }),
        Ok(StreamEvent::End),
    ]
}

#[test]
fn an_adapter_that_did_not_run_is_a_spawn_failure() {
    assert!(matches!(attempt_outcome(false, text_stream()), Err(AttemptError::Spawn)));
}

#[test]
fn malformed_event_line_surfaces_adapter_json_error() {
    let mut lines = text_stream();
    lines.insert(2, Err(()));
    lines.insert(4, Err(()));
    assert!(matches!(attempt_outcome(true, lines), Err(AttemptError::BadLine(2))));
}

#[test]
fn a_whole_stream_assembles_its_completion() {
    match attempt_outcome(true, text_stream()) {
        Ok(SegmentOutcome::Complete(c)) => {
            assert_eq!(c.content, vec![Content::Text("hi".into())]);
            assert_eq!(c.finish, Some(Finish::Stop));
            assert_eq!(c.handshake_v, Some(1));
        },
        other => panic!("got {other:?}"),
    }
}

#[test]
fn a_stream_without_end_is_half() {
    let mut lines = text_stream();
    lines.pop();
    assert!(matches!(attempt_outcome(true, lines), Ok(SegmentOutcome::HalfStream)));
}

#[test]
fn an_unreadable_tool_input_fails_the_attempt() {
    let lines = vec![
        Ok(StreamEvent::ContentStart { index: 0, kind: BlockKind::ToolUse { id: "t1".into(), name: "bash".into() } }),
        Ok(StreamEvent::ContentDelta { index: 0, delta: BlockDelta::Json("{\"a\":".into()) }),
        Ok(StreamEvent::End),
    ];
    assert!(matches!(attempt_outcome(true, lines), Err(AttemptError::BadToolInput(_))));
}

fn wire(e: &brazen::Event) -> Vec<u8> {
    serde_json::to_vec(e).unwrap()
}

#[test]
fn adapter_lines_are_read_as_the_events_they_encode() {
    let lines = vec![
        wire(&brazen::Event::ContentStart { index: 0, kind: brazen::ContentKind::Text {} }),
        wire(&brazen::Event::ContentDelta { index: 0, delta: brazen::Delta::TextDelta("hi".into()) }),
        wire(&brazen::Event::Finish { reason: brazen::FinishReason::ToolUse }),
        wire(&brazen::Event::End),
    ];
    match attempt_outcome_of_lines(true, lines) {
        Ok(SegmentOutcome::Complete(c)) => {
            assert_eq!(c.content, vec![Content::Text("hi".into())]);
            assert_eq!(c.finish, Some(Finish::ToolUse));
        },
        other => panic!("got {other:?}"),
    }
}

#[test]
fn a_line_that_is_not_an_event_fails_the_attempt_at_that_line() {
    let lines = vec![wire(&brazen::Event::End), b"not json".to_vec()];
    assert!(matches!(attempt_outcome_of_lines(true, lines), Err(AttemptError::BadLine(1))));
    assert!(matches!(parse_event(b"not json"), Err(())));
    assert!(matches!(parse_event(&wire(&brazen::Event::End)), Ok(StreamEvent::End)));
}
