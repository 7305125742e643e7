use lernie::paths::{join, keep_of, root_of, stated, under};

#[test]
fn neither_variable_set_refuses_and_names_them_both() {
    let refusal = root_of(None, None).expect_err("refused");
    assert!(refusal.contains("XDG_DATA_HOME"), "{refusal}");
    assert!(refusal.contains("HOME"), "{refusal}");
    assert!(refusal.contains("will not guess"), "{refusal}");
}

#[test]
fn the_xdg_variable_names_the_data_root_outright() {
    assert_eq!(root_of(Some("/var/lib/app"), Some("/home/u")).unwrap(), "/var/lib/app/lernie");
}

#[test]
fn home_is_the_fallback_under_the_convention_default() {
    assert_eq!(root_of(None, Some("/home/u")).unwrap(), "/home/u/.local/share/lernie");
    assert_eq!(keep_of(None, Some("/home/u")).unwrap(), "/home/u/.local/state/lernie");
}

#[test]
fn an_empty_variable_is_an_unset_one() {
    assert_eq!(stated(Some("")), None);
    assert_eq!(stated(Some("x")), Some("x"));
    assert!(root_of(Some(""), Some("")).is_err());
    assert_eq!(root_of(Some(""), Some("/h")).unwrap(), "/h/.local/share/lernie");
}

#[test]
fn the_state_refusal_says_what_is_lost() {
    let refusal = keep_of(None, None).expect_err("refused");
    assert!(refusal.contains("XDG_STATE_HOME"), "{refusal}");
    assert!(refusal.contains("remembers between runs"), "{refusal}");
}

#[test]
fn state_and_data_roots_differ_from_one_home() {
    let data = root_of(None, Some("/home/u")).unwrap();
    let kept = keep_of(None, Some("/home/u")).unwrap();
    assert_ne!(data, kept);
    assert!(!kept.starts_with(&data) && !data.starts_with(&kept));
}

#[test]
fn join_follows_path_join() {
    assert_eq!(join("/a", "b"), "/a/b");
    assert_eq!(join("/a/", "b"), "/a/b");
    assert_eq!(join("", "b"), "b");
    assert_eq!(join("/a", "/b"), "/b");
    assert_eq!(under(None, Some("/h"), ".x").unwrap(), "/h/.x/lernie");
}
