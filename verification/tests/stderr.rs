use lernie::prompt::dispatch::stderr::{tail as stderr_tail, TAIL_CHARS as STDERR_TAIL_CHARS};

#[test]
fn the_tail_flattens_lines_and_truncates_from_the_front() {
    assert_eq!(stderr_tail(b""), "(empty)");
    assert_eq!(stderr_tail(b"  \n\n"), "(empty)");
    assert_eq!(stderr_tail(b"one\ntwo\n"), "one | two");
    let long = "x".repeat(STDERR_TAIL_CHARS) + "-END";
    let tail = stderr_tail(long.as_bytes());
    assert!(tail.starts_with('…'), "{tail}");
    assert!(tail.ends_with("-END"), "{tail}");
    assert_eq!(tail.chars().count(), STDERR_TAIL_CHARS + 1);
}

#[test]
fn a_tail_at_the_quota_is_not_marked_clipped() {
    let exact = "y".repeat(STDERR_TAIL_CHARS);
    assert_eq!(stderr_tail(exact.as_bytes()), exact);
}

#[test]
fn invalid_utf8_reads_as_the_replacement_character() {
    assert_eq!(stderr_tail(b"bad \xff byte"), "bad \u{fffd} byte");
}
