use lernie::error::{Error, GitRunner};
use lernie::prompt::compactor::tools::{mark_for_deletion, next_seq, next_summary_name, summary_file_name};
use lernie::prompt::compactor::{build_summary, compactor_goal, COMPACTOR_ROLE};
use std::cell::RefCell;

#[test]
fn compactor_goal_names_the_branch_and_both_tools() {
    let g = compactor_goal("20260101-p1");
    assert!(g.contains("`20260101-p1`"), "{g}");
    assert!(g.contains("write_summary"));
    assert!(g.contains("mark_for_deletion"));
    assert!(g.contains("goal.md"));
    assert!(g.contains("summary/<NNN>.md"));
    assert!(g.contains("live-branch-wins"));
}

#[test]
fn compactor_role_is_the_soul_key() {
    assert_eq!(COMPACTOR_ROLE, "compactor");
}

#[test]
fn build_summary_identifies_parent_conversation() {
    assert_eq!(build_summary("p1"), "conversation p1: terminal compaction\n");
    assert_eq!(build_summary("conv-id-x"), "conversation conv-id-x: terminal compaction\n");
}

#[test]
fn compactor_goal_text_names_parent_branch() {
    let g = compactor_goal("p1");
    assert!(g.contains("`p1`"), "{g}");
    assert!(g.contains("write_summary"));
    assert!(g.contains("mark_for_deletion"));
    assert!(g.contains("goal.md"));
    assert!(g.contains("summary/<NNN>.md"));
}

fn names(v: &[&str]) -> Vec<String> {
    v.iter().map(|s| s.to_string()).collect()
}

#[test]
fn write_summary_picks_001_when_dir_is_empty() {
    assert_eq!(next_seq(&names(&[])), 1);
    assert_eq!(summary_file_name(1), "001.md");
}

#[test]
fn write_summary_increments_past_existing_files() {
    assert_eq!(next_seq(&names(&["001.md", "007.md"])), 8);
    assert_eq!(summary_file_name(8), "008.md");
}

#[test]
fn write_summary_skips_non_md_and_unparseable_stems() {
    assert_eq!(next_seq(&names(&["README.txt", "notes.md", "002.md", ".md"])), 3);
}

#[test]
fn summary_names_widen_past_three_digits() {
    assert_eq!(summary_file_name(42), "042.md");
    assert_eq!(summary_file_name(1234), "1234.md");
}

struct Fails;
impl GitRunner for Fails {
    fn run(&self, _dest: &str, _args: &[&str]) -> std::io::Result<()> {
        Err(std::io::Error::other("no"))
    }
    fn run_capture(&self, _dest: &str, _args: &[&str]) -> std::io::Result<String> {
        Err(std::io::Error::other("no"))
    }
}

struct Rec(RefCell<Vec<Vec<String>>>);
impl GitRunner for Rec {
    fn run(&self, _dest: &str, args: &[&str]) -> std::io::Result<()> {
        self.0.borrow_mut().push(args.iter().map(|s| s.to_string()).collect());
        Ok(())
    }
    fn run_capture(&self, _dest: &str, _args: &[&str]) -> std::io::Result<String> {
        Ok(String::new())
    }
}

#[test]
fn mark_for_deletion_stages_a_removal() {
    let g = Rec(RefCell::new(Vec::new()));
    mark_for_deletion("/w", "messages/001-user.md", &g).unwrap();
    assert_eq!(g.0.borrow()[0], vec!["rm", "-r", "-q", "--", "messages/001-user.md"]);
    let err = mark_for_deletion("/w", "x", &Fails).unwrap_err();
    assert!(matches!(err, Error::Git { op: "mark_for_deletion rm", .. }));
}

#[test]
fn the_next_summary_lands_one_past_the_highest_until_no_number_is_left() {
    assert_eq!(next_summary_name(&names(&[])), Some("001.md".to_owned()));
    assert_eq!(next_summary_name(&names(&["001.md", "notes.txt", "007.md"])), Some("008.md".to_owned()));
    assert_eq!(next_summary_name(&names(&["4294967295.md"])), None);
}
