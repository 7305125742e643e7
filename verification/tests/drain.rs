use lernie::error::{Error, GitRunner};
use lernie::prompt::dispatch::drain::{pending_of, recover_strays, seen_all, sender_of, SeenDeposit};
use std::cell::RefCell;

#[test]
fn sender_of_parses_the_deposit_name() {
    assert_eq!(sender_of("user-001.md").as_deref(), Some("user"));
    assert_eq!(sender_of("a-b-c-002.md").as_deref(), Some("a-b-c"));
    assert_eq!(sender_of("user-001.txt"), None);
    assert_eq!(sender_of("user.md"), None);
    assert_eq!(sender_of("-001.md"), None);
    assert_eq!(sender_of(".tmp-001.md"), None);
    assert_eq!(sender_of("user-x1.md"), None);
}

#[test]
fn pending_drains_in_mtime_then_name_order_and_skips_strays() {
    let entries = vec![
        ("b-002.md".to_owned(), 5, "/i/b-002.md".to_owned()),
        ("a-001.md".to_owned(), 5, "/i/a-001.md".to_owned()),
        (".x-003.md.tmp".to_owned(), 1, "/i/.x".to_owned()),
        ("z-009.md".to_owned(), 1, "/i/z-009.md".to_owned()),
    ];
    let p = pending_of(entries);
    let names: Vec<&str> = p.iter().map(|m| m.name.as_str()).collect();
    assert_eq!(names, vec!["z-009.md", "a-001.md", "b-002.md"]);
    assert_eq!(p[1].sender, "a");
    assert_eq!(p[1].path, "/i/a-001.md");
}

#[test]
fn the_same_inbox_always_drains_the_same_way() {
    let one = vec![
        ("b-002.md".to_owned(), 2, "b".to_owned()),
        ("a-001.md".to_owned(), 2, "a".to_owned()),
        ("c-003.md".to_owned(), 1, "c".to_owned()),
    ];
    let mut other = one.clone();
    other.reverse();
    let x: Vec<String> = pending_of(one).into_iter().map(|m| m.name).collect();
    let y: Vec<String> = pending_of(other).into_iter().map(|m| m.name).collect();
    assert_eq!(x, y);
}

#[test]
fn a_seen_deposit_is_the_name_and_the_mtime() {
    let p = pending_of(vec![("u-001.md".to_owned(), 7, "/i/u-001.md".to_owned())]);
    assert!(SeenDeposit::new("u-001.md".into(), 7).matches(&p[0]));
    assert!(!SeenDeposit::new("u-001.md".into(), 8).matches(&p[0]));
    assert!(!SeenDeposit::new("u-002.md".into(), 7).matches(&p[0]));
    let seen = seen_all(&p);
    assert_eq!(seen, vec![SeenDeposit::new("u-001.md".into(), 7)]);
}

struct Status(&'static str, RefCell<Vec<Vec<String>>>);
impl GitRunner for Status {
    fn run(&self, _dest: &str, args: &[&str]) -> std::io::Result<()> {
        self.1.borrow_mut().push(args.iter().map(|s| s.to_string()).collect());
        Ok(())
    }
    fn run_capture(&self, _dest: &str, _args: &[&str]) -> std::io::Result<String> {
        Ok(self.0.to_owned())
    }
}

#[test]
fn a_clean_transcript_recovers_nothing() {
    let g = Status("\n", RefCell::new(Vec::new()));
    recover_strays("/w", "c1", &g).unwrap();
    assert!(g.1.borrow().is_empty());
}

#[test]
fn a_stray_is_added_and_committed() {
    let g = Status("?? messages/004-user.md\n", RefCell::new(Vec::new()));
    recover_strays("/w", "c1", &g).unwrap();
    let calls = g.1.borrow();
    assert_eq!(calls[0], vec!["add", "messages"]);
    assert_eq!(calls[1], vec!["commit", "-m", "transcript: recover delivered stray [c1]"]);
}

struct NoStatus;
impl GitRunner for NoStatus {
    fn run(&self, _dest: &str, _args: &[&str]) -> std::io::Result<()> {
        Ok(())
    }
    fn run_capture(&self, _dest: &str, _args: &[&str]) -> std::io::Result<String> {
        Err(std::io::Error::other("no"))
    }
}

#[test]
fn a_status_failure_names_its_op() {
    let err = recover_strays("/w", "c1", &NoStatus).unwrap_err();
    assert!(matches!(err, Error::Git { op: "drain status", .. }));
}
