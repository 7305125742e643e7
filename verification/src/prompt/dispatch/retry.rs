//! The model call's retry decisions.
//!
//! One model call is up to `max_attempts` attempts of the adapter (at
//! least one). An attempt's stream ends one of three ways: complete, with
//! an in-band error event, or cut off without its trailing `end` — the
//! half stream a killed adapter leaves. A completed stream is checked
//! against the schema handshake when an adapter override is in use. A
//! retryable error — a transport failure, or a provider status of 429 or
//! 5xx — is retried after a backoff while attempts remain; any other
//! error, and a retryable one on the last attempt, is the call's answer.
//! Running the attempts, writing the stream and sleeping are the executor's.

use vstd::prelude::*;

verus! {

/// The backoff's sleep between attempts. Production sleeps the thread;
/// tests inject a recorder so a retry run takes no wall time.
pub trait Sleeper {
    /// Sleep for `dur`.
    fn sleep(&self, dur: std::time::Duration);
}

/// What kind of failure an adapter's in-band error event reports.
#[derive(Debug, Clone, Copy, PartialEq, Eq, Structural)]
pub enum FailureKind {
    Usage,
    ParseInput,
    Config,
    Auth,
    /// The provider answered with an HTTP error `status`.
    Provider { status: u16 },
    Transport,
    Interrupted,
    /// A kind this build does not know by name.
    Other,
}

/// Whether an error of `kind` is worth another attempt: a transport
/// failure, or a provider's 429 or 5xx.
pub open spec fn retryable_spec(kind: FailureKind) -> bool {
    match kind {
        FailureKind::Transport => true,
        FailureKind::Provider { status } => status == 429 || status >= 500,
        _ => false,
    }
}

/// Whether an error of `kind` is worth another attempt.
pub fn retryable(kind: FailureKind) -> (b: bool)
    ensures
        b == retryable_spec(kind),
{
    match kind {
        FailureKind::Transport => true,
        FailureKind::Provider { status } => status == 429 || status >= 500,
        _ => false,
    }
}

/// How many attempts a call may make: the configured cap, and never fewer
/// than one.
pub open spec fn allowed(max_attempts: u32) -> u32 {
    if max_attempts == 0 {
        1
    } else {
        max_attempts
    }
}

/// How one attempt's stream ended.
#[derive(Debug, Clone, Copy, PartialEq, Eq, Structural)]
pub enum AttemptEnd {
    /// The stream completed; its opening event carried schema version
    /// `handshake`, if any.
    Complete { handshake: Option<u8> },
    /// The stream carried an error event of this kind.
    Failed { kind: FailureKind },
    /// The stream stopped without its trailing `end`.
    HalfStream,
}

/// What the call does after an attempt.
#[derive(Debug, Clone, Copy, PartialEq, Eq, Structural)]
pub enum AfterAttempt {
    /// The completion is the call's answer.
    Done,
    /// Sleep the backoff for the failed attempt, then make attempt `next`.
    Retry { next: u32 },
    /// The error is the call's answer.
    GiveUp { kind: FailureKind },
    /// The stream was cut off: a harness error (or, under a stop, the
    /// stop's own signature).
    HalfStream,
    /// An adapter override answered with another schema version.
    HandshakeMismatch { found: Option<u8> },
}

/// The decision after attempt `attempt` of at most `max_attempts`, with a
/// stop `stopped` pending or not: a stop ends the retrying, so no further
/// attempt is launched under it.
pub open spec fn after_spec(
    end: AttemptEnd,
    attempt: u32,
    max_attempts: u32,
    stopped: bool,
    expect_handshake: bool,
    expected: u8,
) -> AfterAttempt {
    match end {
        AttemptEnd::Complete { handshake } => if expect_handshake && handshake != Some(expected) {
            AfterAttempt::HandshakeMismatch { found: handshake }
        } else {
            AfterAttempt::Done
        },
        AttemptEnd::Failed { kind } => if retryable_spec(kind) && attempt < allowed(max_attempts) && !stopped {
            AfterAttempt::Retry { next: (attempt + 1) as u32 }
        } else {
            AfterAttempt::GiveUp { kind }
        },
        AttemptEnd::HalfStream => AfterAttempt::HalfStream,
    }
}

/// The decision after attempt number `attempt` (counting from one) of at
/// most `max_attempts`, given how its stream ended and whether a stop is
/// pending. `expect_handshake` and `expected` govern a completed stream
/// under an adapter override.
pub fn after_attempt(
    end: AttemptEnd,
    attempt: u32,
    max_attempts: u32,
    stopped: bool,
    expect_handshake: bool,
    expected: u8,
) -> (r: AfterAttempt)
    requires
        1 <= attempt <= allowed(max_attempts),
    ensures
        r == after_spec(end, attempt, max_attempts, stopped, expect_handshake, expected),
{
    let max: u32 = if max_attempts == 0 {
        1
    } else {
        max_attempts
    };
    match end {
        AttemptEnd::Complete { handshake } => {
            let matches = match handshake {
                Some(v) => v == expected,
                None => false,
            };
            if expect_handshake && !matches {
                AfterAttempt::HandshakeMismatch { found: handshake }
            } else {
                AfterAttempt::Done
            }
        },
        AttemptEnd::Failed { kind } => {
            if retryable(kind) && attempt < max && !stopped {
                AfterAttempt::Retry { next: attempt + 1 }
            } else {
                AfterAttempt::GiveUp { kind }
            }
        },
        AttemptEnd::HalfStream => AfterAttempt::HalfStream,
    }
}

/// **A retryable error exhausts the attempt cap and no more**: whatever
/// the attempts report, a retry never leads past the allowed number of
/// attempts, and the last allowed attempt never retries.
pub proof fn law_retries_stop_at_the_cap(
    end: AttemptEnd,
    attempt: u32,
    max_attempts: u32,
    stopped: bool,
    expect: bool,
    expected: u8,
)
    requires
        1 <= attempt <= allowed(max_attempts),
    ensures
        after_spec(end, attempt, max_attempts, stopped, expect, expected) matches AfterAttempt::Retry { next } ==> next
            <= allowed(max_attempts) && next == attempt + 1,
        attempt == allowed(max_attempts) ==> !(after_spec(end, attempt, max_attempts, stopped, expect, expected) is Retry),
{
}

/// **A pending stop ends the retry loop**: whatever the attempt reports and
/// however many attempts are left, no retry is decided under a stop.
pub proof fn law_a_stop_outranks_a_retry(end: AttemptEnd, attempt: u32, max_attempts: u32, expect: bool, expected: u8)
    ensures
        !(after_spec(end, attempt, max_attempts, true, expect, expected) is Retry),
{
}

/// **Every 429 and every 5xx is retried while attempts remain**: a provider
/// answering 429 or any status from 500 to 599, and a transport failure,
/// are retryable, and such a failed attempt with attempts left and no stop
/// pending leads to the next attempt.
pub proof fn law_overload_and_server_errors_are_retried(
    status: u16,
    attempt: u32,
    max_attempts: u32,
    expect: bool,
    expected: u8,
)
    requires
        status == 429 || 500 <= status <= 599,
        1 <= attempt < allowed(max_attempts),
    ensures
        retryable_spec((FailureKind::Provider { status })),
        retryable_spec(FailureKind::Transport),
        (after_spec(
            AttemptEnd::Failed { kind: FailureKind::Provider { status } },
            attempt,
            max_attempts,
            false,
            expect,
            expected,
        ) == AfterAttempt::Retry { next: (attempt + 1) as u32 }),
        (after_spec(AttemptEnd::Failed { kind: FailureKind::Transport }, attempt, max_attempts, false, expect, expected)
            == AfterAttempt::Retry { next: (attempt + 1) as u32 }),
{
}

/// **A client error other than 429, and every non-transport kind, is the
/// call's answer at once**: no retry, whatever attempts remain.
pub proof fn law_other_errors_give_up_at_once(
    kind: FailureKind,
    attempt: u32,
    max_attempts: u32,
    stopped: bool,
    expect: bool,
    expected: u8,
)
    requires
        (match kind {
            FailureKind::Provider { status } => status < 500 && status != 429,
            FailureKind::Transport => false,
            _ => true,
        }),
    ensures
        !retryable_spec(kind),
        (after_spec(AttemptEnd::Failed { kind }, attempt, max_attempts, stopped, expect, expected)
            == AfterAttempt::GiveUp { kind }),
{
}

/// **A completed stream is the answer unless an override speaks another
/// schema**: without an adapter override a completion is done whatever
/// its handshake; under one, it is done exactly when its handshake is the
/// expected version, and otherwise reports the version it found. A cut-off
/// stream is a half stream whatever the attempt and the stop.
pub proof fn law_completion_and_handshake(
    handshake: Option<u8>,
    attempt: u32,
    max_attempts: u32,
    stopped: bool,
    expected: u8,
)
    ensures
        after_spec(AttemptEnd::Complete { handshake }, attempt, max_attempts, stopped, false, expected)
            == AfterAttempt::Done,
        handshake == Some(expected) ==> after_spec(
            AttemptEnd::Complete { handshake },
            attempt,
            max_attempts,
            stopped,
            true,
            expected,
        ) == AfterAttempt::Done,
        handshake != Some(expected) ==> after_spec(
            AttemptEnd::Complete { handshake },
            attempt,
            max_attempts,
            stopped,
            true,
            expected,
        ) == (AfterAttempt::HandshakeMismatch { found: handshake }),
        after_spec(AttemptEnd::HalfStream, attempt, max_attempts, stopped, true, expected) == AfterAttempt::HalfStream,
        after_spec(AttemptEnd::HalfStream, attempt, max_attempts, stopped, false, expected) == AfterAttempt::HalfStream,
{
}

/// The second check point, once the backoff for a failed attempt of `kind`
/// is slept: make attempt `next`, unless a stop landed in the pause.
pub fn after_backoff(next: u32, kind: FailureKind, stopped: bool) -> (r: AfterAttempt)
    ensures
        r == if stopped {
            AfterAttempt::GiveUp { kind }
        } else {
            AfterAttempt::Retry { next }
        },
{
    if stopped {
        AfterAttempt::GiveUp { kind }
    } else {
        AfterAttempt::Retry { next }
    }
}

} // verus!
