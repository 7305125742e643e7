use lernie::error::GitRunner;
use lernie::prompt::budget::{
    check, depth, mark_exhausted, root_of, Axis, Budgets, Exhausted, BUDGET_EXHAUSTED_REF_PREFIX,
};
use std::cell::RefCell;

#[test]
fn check_unbounded_never_triggers() {
    assert_eq!(check("a-b-c-d-e", &Budgets::default(), 1_000_000, 0), None);
}

#[test]
fn check_tokens_boundary_below_at_and_over() {
    let below = Budgets { max_total_tokens: Some(9), ..Budgets::default() };
    assert_eq!(check("conv", &below, 8, 0), None);
    let at = Budgets { max_total_tokens: Some(8), ..Budgets::default() };
    assert_eq!(
        check("conv", &at, 8, 0),
        Some(Exhausted { axis: Axis::Tokens, limit: 8, actual: 8 })
    );
    let over = Budgets { max_total_tokens: Some(5), ..Budgets::default() };
    assert_eq!(check("conv", &over, 8, 0).unwrap().axis, Axis::Tokens);
}

#[test]
fn check_depth_is_positional_allows_at_limit_exhausts_over() {
    // "p-q-r-s-t" → 4 hyphens / 2 = depth 2.
    let branch = "p-q-r-s-t";
    let at = Budgets { max_depth: Some(2), ..Budgets::default() };
    assert_eq!(check(branch, &at, 0, 0), None);
    let over = Budgets { max_depth: Some(1), ..Budgets::default() };
    let ex = check(branch, &over, 0, 0).unwrap();
    assert_eq!(ex.axis, Axis::Depth);
    assert_eq!((ex.limit, ex.actual), (1, 2));
}

#[test]
fn check_depth_exhausts_a_deep_subagent_but_not_its_root() {
    let b = Budgets { max_depth: Some(1), ..Budgets::default() };
    assert_eq!(check("t0-r0", &b, 0, 0), None);
    let ex = check("t0-r0-t1-c1-t2-g1", &b, 0, 0).unwrap();
    assert_eq!(ex.axis, Axis::Depth);
    assert_eq!((ex.limit, ex.actual), (1, 2));
}

#[test]
fn root_of_is_the_prefix_before_the_second_hyphen() {
    assert_eq!(root_of("t0-r0-t1-c1"), "t0-r0");
    assert_eq!(root_of("t0-r0"), "t0-r0");
    assert_eq!(root_of("solo"), "solo");
    assert_eq!(depth("t0-r0-t1-c1-t2-g1"), 2);
}

struct RecGit {
    calls: RefCell<Vec<Vec<String>>>,
    fail: bool,
}

impl GitRunner for RecGit {
    fn run(&self, _dest: &str, args: &[&str]) -> std::io::Result<()> {
        self.calls.borrow_mut().push(args.iter().map(|s| s.to_string()).collect());
        if self.fail {
            Err(std::io::Error::other("not a repo"))
        } else {
            Ok(())
        }
    }
    fn run_capture(&self, _dest: &str, _args: &[&str]) -> std::io::Result<String> {
        unreachable!()
    }
}

#[test]
fn mark_exhausted_writes_a_readable_git_native_ref() {
    let git = RecGit { calls: RefCell::new(Vec::new()), fail: false };
    mark_exhausted("/repo", "conv-x", &git).unwrap();
    let ref_name = format!("{BUDGET_EXHAUSTED_REF_PREFIX}conv-x");
    assert_eq!(git.calls.borrow()[0], vec!["update-ref".to_string(), ref_name, "conv-x".into()]);
}

#[test]
fn mark_exhausted_surfaces_git_failure() {
    let git = RecGit { calls: RefCell::new(Vec::new()), fail: true };
    assert!(mark_exhausted("/repo", "conv-x", &git).is_err());
}

#[test]
fn display_names_axis_and_ratio() {
    let e = Exhausted { axis: Axis::Tokens, limit: 8, actual: 8 };
    assert_eq!(e.describe(), "max_total_tokens exhausted (8/8)");
    assert_eq!(Axis::Wall.as_str(), "max_wall_seconds");
    assert_eq!(Axis::Depth.as_str(), "max_depth");
}

