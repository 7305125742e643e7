use lernie::prompt::dispatch::assembler::{Assembler, AssemblyError, Content, StreamEvent, Finish, SegmentOutcome, StreamError};
use lernie::prompt::dispatch::retry::FailureKind;
use lernie::prompt::dispatch::staging::{BlockKind, BlockDelta};

fn stream(events: Vec<StreamEvent>) -> Result<SegmentOutcome, AssemblyError> {
    let mut a = Assembler::new();
    for e in events {
        a.feed(e);
    }
    a.into_outcome()
}

#[test]
fn a_text_stream_completes_with_its_text_and_handshake() {
    let out = stream(vec![
        StreamEvent::MessageStart { v: 1 },
        StreamEvent::ContentStart { index: 0, kind: BlockKind::Text },
        StreamEvent::ContentDelta { index: 0, delta: BlockDelta::Text("par".into()) },
        StreamEvent::ContentDelta { index: 0, delta: BlockDelta::Text("tial".into()) },
        StreamEvent::Other,
        StreamEvent::Finish { reason: Finish::Stop },
        StreamEvent::End,
    ])
    .unwrap();
    match out {
        SegmentOutcome::Complete(c) => {
            assert_eq!(c.content, vec![Content::Text("partial".into())]);
            assert_eq!(c.handshake_v, Some(1));
            assert!(!c.is_tool_use());
        },
        other => panic!("got {other:?}"),
    }
}

#[test]
fn slots_fill_by_index_and_finish_in_index_order() {
    let out = stream(vec![
        StreamEvent::ContentStart { index: 2, kind: BlockKind::ToolUse { id: "t1".into(), name: "bash".into() } },
        StreamEvent::ContentStart { index: 0, kind: BlockKind::Text },
        StreamEvent::ContentDelta { index: 2, delta: BlockDelta::Json("{\"cmd\":".into()) },
        StreamEvent::ContentDelta { index: 2, delta: BlockDelta::Json("\"ls\"}".into()) },
        StreamEvent::ContentDelta { index: 0, delta: BlockDelta::Text("ok".into()) },
        StreamEvent::ContentDelta { index: 7, delta: BlockDelta::Text("lost".into()) },
        StreamEvent::ContentStart { index: 1, kind: BlockKind::Thinking },
        StreamEvent::Finish { reason: Finish::ToolUse },
        StreamEvent::End,
        StreamEvent::ContentStart { index: 3, kind: BlockKind::Text },
    ])
    .unwrap();
    match out {
        SegmentOutcome::Complete(c) => {
            assert_eq!(
                c.content,
                vec![
                    Content::Text("ok".into()),
                    Content::ToolUse { id: "t1".into(), name: "bash".into(), input_json: "{\"cmd\":\"ls\"}".into() },
                ]
            );
            assert!(c.is_tool_use());
        },
        other => panic!("got {other:?}"),
    }
}

#[test]
fn a_tool_use_with_no_input_reads_as_an_empty_object() {
    let out = stream(vec![
        StreamEvent::ContentStart { index: 0, kind: BlockKind::ToolUse { id: "t".into(), name: "n".into() } },
        StreamEvent::End,
    ])
    .unwrap();
    match out {
        SegmentOutcome::Complete(c) => {
            assert_eq!(c.content, vec![Content::ToolUse { id: "t".into(), name: "n".into(), input_json: "{}".into() }]);
        },
        other => panic!("got {other:?}"),
    }
}

#[test]
fn an_unreadable_tool_input_is_an_assembly_error() {
    let err = stream(vec![
        StreamEvent::ContentStart { index: 0, kind: BlockKind::ToolUse { id: "t".into(), name: "n".into() } },
        StreamEvent::ContentDelta { index: 0, delta: BlockDelta::Json("{not json".into()) },
        StreamEvent::End,
    ])
    .unwrap_err();
    assert_eq!(err, AssemblyError("{not json".into()));
}

#[test]
fn an_error_event_fails_the_attempt_and_a_missing_end_is_a_half_stream() {
    let out = stream(vec![
        StreamEvent::Error(StreamError { kind: FailureKind::Transport, message: "reset".into() }),
        StreamEvent::End,
    ])
    .unwrap();
    assert!(matches!(out, SegmentOutcome::Failed(StreamError { kind: FailureKind::Transport, .. })));
    let out = stream(vec![
        StreamEvent::MessageStart { v: 1 },
        StreamEvent::ContentStart { index: 0, kind: BlockKind::Text },
        StreamEvent::ContentDelta { index: 0, delta: BlockDelta::Text("par".into()) },
    ])
    .unwrap();
    assert!(matches!(out, SegmentOutcome::HalfStream));
}
