use lernie::error::Error;
use lernie::prompt::dispatch::retry::{after_attempt, after_backoff, retryable, AfterAttempt, AttemptEnd, FailureKind};
use lernie::prompt::dispatch::staging::{BlockKind, BlockDelta, Finished, StagingWriter};

#[test]
fn retryable_is_transport_or_a_provider_429_or_5xx() {
    assert!(retryable(FailureKind::Transport));
    assert!(retryable(FailureKind::Provider { status: 429 }));
    assert!(retryable(FailureKind::Provider { status: 503 }));
    assert!(!retryable(FailureKind::Provider { status: 400 }));
    assert!(!retryable(FailureKind::Auth));
}

#[test]
fn retryable_error_exhausts_attempt_cap() {
    let failed = AttemptEnd::Failed { kind: FailureKind::Transport };
    assert_eq!(after_attempt(failed, 1, 3, false, false, 1), AfterAttempt::Retry { next: 2 });
    assert_eq!(after_attempt(failed, 3, 3, false, false, 1), AfterAttempt::GiveUp { kind: FailureKind::Transport });
    assert_eq!(after_attempt(failed, 1, 1, false, false, 1), AfterAttempt::GiveUp { kind: FailureKind::Transport });
    assert_eq!(after_attempt(failed, 1, 0, false, false, 1), AfterAttempt::GiveUp { kind: FailureKind::Transport });
}

#[test]
fn a_non_retryable_error_is_the_answer_at_once() {
    let failed = AttemptEnd::Failed { kind: FailureKind::Auth };
    assert_eq!(after_attempt(failed, 1, 5, false, false, 1), AfterAttempt::GiveUp { kind: FailureKind::Auth });
}

#[test]
fn half_stream_is_a_harness_error() {
    assert_eq!(after_attempt(AttemptEnd::HalfStream, 1, 3, false, false, 1), AfterAttempt::HalfStream);
}

#[test]
fn an_override_must_speak_the_expected_schema() {
    let ok = AttemptEnd::Complete { handshake: Some(1) };
    assert_eq!(after_attempt(ok, 1, 3, false, true, 1), AfterAttempt::Done);
    let other = AttemptEnd::Complete { handshake: Some(2) };
    assert_eq!(after_attempt(other, 1, 3, false, true, 1), AfterAttempt::HandshakeMismatch { found: Some(2) });
    let none = AttemptEnd::Complete { handshake: None };
    assert_eq!(after_attempt(none, 1, 3, false, true, 1), AfterAttempt::HandshakeMismatch { found: None });
    assert_eq!(after_attempt(none, 1, 3, false, false, 1), AfterAttempt::Done);
}

#[test]
fn blocks_accumulate_their_own_deltas() {
    let mut w = StagingWriter::create(10);
    w.begin_segment();
    w.on_start(BlockKind::Text);
    w.on_delta(&BlockDelta::Text("he".into()));
    w.on_delta(&BlockDelta::Json("{".into()));
    w.on_delta(&BlockDelta::Text("llo".into()));
    assert_eq!(w.finalize().unwrap(), Some(Finished::Text("hello".into())));
    assert_eq!(w.finalize().unwrap(), None);
    w.on_start(BlockKind::ToolUse { id: "t1".into(), name: "bash".into() });
    assert_eq!(
        w.finalize().unwrap(),
        Some(Finished::ToolUse { id: "t1".into(), name: "bash".into(), input_json: "{}".into() })
    );
    w.on_start(BlockKind::ToolUse { id: "t2".into(), name: "bash".into() });
    w.on_delta(&BlockDelta::Json("{\"command\":".into()));
    w.on_delta(&BlockDelta::Json(" \"true\"}".into()));
    assert_eq!(
        w.finalize().unwrap(),
        Some(Finished::ToolUse { id: "t2".into(), name: "bash".into(), input_json: "{\"command\": \"true\"}".into() })
    );
    w.on_start(BlockKind::Other);
    w.on_delta(&BlockDelta::Text("x".into()));
    assert_eq!(w.finalize().unwrap(), None);
}

#[test]
fn a_tool_call_whose_input_is_not_json_is_refused() {
    let mut w = StagingWriter::create(0);
    w.on_start(BlockKind::ToolUse { id: "t1".into(), name: "bash".into() });
    w.on_delta(&BlockDelta::Json("{\"command\":".into()));
    match w.finalize() {
        Err(Error::AdapterJson { json }) => assert_eq!(json, "{\"command\":"),
        other => panic!("expected AdapterJson, got {other:?}"),
    }
}

#[test]
fn a_failed_attempt_is_truncated_back_to_where_it_began() {
    let mut w = StagingWriter::create(10);
    w.begin_segment();
    assert_eq!(w.separator(), "");
    w.wrote(5);
    assert_eq!(w.len(), 15);
    assert_eq!(w.separator(), ",");
    w.begin_segment();
    w.wrote(7);
    assert_eq!(w.len(), 23);
    assert_eq!(w.truncate_segment(), 15);
    assert_eq!(w.len(), 15);
    assert_eq!(w.separator(), ",");
}

#[test]
fn stop_pending_before_the_backoff_ends_the_retry_loop() {
    let failed = AttemptEnd::Failed { kind: FailureKind::Transport };
    assert_eq!(after_attempt(failed, 1, 3, true, false, 1), AfterAttempt::GiveUp { kind: FailureKind::Transport });
}

#[test]
fn stop_landing_during_the_backoff_ends_the_retry_loop() {
    assert_eq!(after_backoff(2, FailureKind::Transport, true), AfterAttempt::GiveUp { kind: FailureKind::Transport });
}

#[test]
fn no_stop_leaves_the_retry_loop_untouched() {
    let failed = AttemptEnd::Failed { kind: FailureKind::Transport };
    assert_eq!(after_attempt(failed, 1, 3, false, false, 1), AfterAttempt::Retry { next: 2 });
    assert_eq!(after_backoff(2, FailureKind::Transport, false), AfterAttempt::Retry { next: 2 });
}
