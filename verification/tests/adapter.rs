use lernie::prompt::adapter::{append_line, resolve_binary, strip_trailing_lf, SpawnAdapter, BZ_BIN};

#[test]
fn resolve_binary_defaults_to_bz_on_path() {
    assert_eq!(resolve_binary(None), "bz");
    assert_eq!(BZ_BIN, "bz");
}

#[test]
fn resolve_binary_uses_the_adapter_override_verbatim() {
    assert_eq!(resolve_binary(Some("/opt/alt-bz")), "/opt/alt-bz");
}

#[test]
fn a_line_loses_its_terminator_only() {
    assert_eq!(strip_trailing_lf(b"x\r\n"), b"x");
    assert_eq!(strip_trailing_lf(b"x\n"), b"x");
    assert_eq!(strip_trailing_lf(b"x"), b"x");
    assert_eq!(strip_trailing_lf(b"x\r"), b"x");
    assert_eq!(strip_trailing_lf(b"\n"), b"");
    assert_eq!(strip_trailing_lf(b"a\n\n"), b"a\n");
}

#[test]
fn capture_stdout_rejoins_lines() {
    let mut out = Vec::new();
    append_line(&mut out, b"bz 0.0.2");
    assert_eq!(out, b"bz 0.0.2");
    let mut out = Vec::new();
    append_line(&mut out, b"first");
    append_line(&mut out, b"second");
    assert_eq!(out, b"first\nsecond");
}

#[test]
fn the_spawn_adapter_is_a_plain_value() {
    let a = SpawnAdapter;
    let b = a;
    assert_eq!(format!("{b:?}"), "SpawnAdapter");
}
