use rsclean::remove::{delete_dirs, Step};
use rsclean::scan::MatchedDirectory;

fn found(path: &str, size_bytes: u64) -> MatchedDirectory {
    MatchedDirectory { path: path.to_string(), size_bytes }
}

fn three() -> Vec<MatchedDirectory> {
    vec![found("a/target", 10), found("b/target", 20), found("c/target", 5)]
}

#[test]
fn a_dry_run_shows_each_directory_and_the_total() {
    let mut removal = delete_dirs(three(), true);
    assert_eq!(removal.step(), Step::Show { size: 10, path: "a/target".to_string() });
    removal.advance(true);
    assert_eq!(removal.step(), Step::Show { size: 20, path: "b/target".to_string() });
    removal.advance(true);
    assert_eq!(removal.step(), Step::Show { size: 5, path: "c/target".to_string() });
    removal.advance(true);
    assert_eq!(removal.step(), Step::Finish { total: 35 });
}

#[test]
fn a_real_run_deletes_each_directory_and_reports_the_total() {
    let mut removal = delete_dirs(three(), false);
    assert_eq!(removal.step(), Step::Delete { path: "a/target".to_string() });
    removal.advance(true);
    assert_eq!(removal.step(), Step::Delete { path: "b/target".to_string() });
    removal.advance(true);
    assert_eq!(removal.step(), Step::Delete { path: "c/target".to_string() });
    removal.advance(true);
    assert_eq!(removal.step(), Step::Finish { total: 35 });
}

#[test]
fn a_dry_run_never_deletes() {
    let told = [[true, true, true, true], [false, false, false, false], [true, false, true, false]];
    for outcomes in told {
        let mut removal = delete_dirs(three(), true);
        for ok in outcomes {
            assert!(!matches!(removal.step(), Step::Delete { .. } | Step::Abort));
            removal.advance(ok);
        }
        assert_eq!(removal.step(), Step::Finish { total: 35 });
    }
}

#[test]
fn dry_and_real_runs_report_the_same_total() {
    let mut dry = delete_dirs(three(), true);
    let mut real = delete_dirs(three(), false);
    for _ in 0..3 {
        dry.advance(true);
        real.advance(true);
    }
    assert_eq!(dry.step(), real.step());
    assert_eq!(dry.step(), Step::Finish { total: 35 });
}

#[test]
fn a_failed_deletion_ends_the_run() {
    let mut removal = delete_dirs(three(), false);
    assert_eq!(removal.step(), Step::Delete { path: "a/target".to_string() });
    removal.advance(true);
    assert_eq!(removal.step(), Step::Delete { path: "b/target".to_string() });
    removal.advance(false);
    assert_eq!(removal.step(), Step::Abort);
    removal.advance(true);
    assert_eq!(removal.step(), Step::Abort);
    removal.advance(true);
    removal.advance(true);
    assert_eq!(removal.step(), Step::Abort);
}

#[test]
fn a_failure_at_the_first_directory_deletes_nothing_more() {
    let mut removal = delete_dirs(three(), false);
    removal.advance(false);
    assert_eq!(removal.step(), Step::Abort);
}

#[test]
fn a_failure_at_the_last_directory_reports_no_total() {
    let mut removal = delete_dirs(three(), false);
    removal.advance(true);
    removal.advance(true);
    assert_eq!(removal.step(), Step::Delete { path: "c/target".to_string() });
    removal.advance(false);
    assert_eq!(removal.step(), Step::Abort);
}

#[test]
fn an_inner_target_fails_after_the_outer_one_is_gone() {
    let dirs = vec![found("root/target", 9), found("root/target/vendor/target", 9)];
    let mut removal = delete_dirs(dirs, false);
    assert_eq!(removal.step(), Step::Delete { path: "root/target".to_string() });
    removal.advance(true);
    assert_eq!(removal.step(), Step::Delete { path: "root/target/vendor/target".to_string() });
    removal.advance(false);
    assert_eq!(removal.step(), Step::Abort);
}

#[test]
fn nothing_to_remove_reports_zero() {
    assert_eq!(delete_dirs(vec![], false).step(), Step::Finish { total: 0 });
    assert_eq!(delete_dirs(vec![], true).step(), Step::Finish { total: 0 });
}

#[test]
fn a_finished_removal_stays_finished() {
    let mut removal = delete_dirs(vec![found("a/target", 4)], false);
    removal.advance(true);
    assert_eq!(removal.step(), Step::Finish { total: 4 });
    removal.advance(false);
    removal.advance(true);
    assert_eq!(removal.step(), Step::Finish { total: 4 });
}

#[test]
fn the_total_stops_at_the_largest_u64() {
    let dirs = vec![found("a/target", u64::MAX - 3), found("b/target", 3), found("c/target", 1)];
    let mut removal = delete_dirs(dirs, true);
    removal.advance(true);
    removal.advance(true);
    removal.advance(true);
    assert_eq!(removal.step(), Step::Finish { total: u64::MAX });
}

#[test]
fn the_total_is_the_exact_sum_up_to_the_largest_u64() {
    let dirs = vec![found("a/target", u64::MAX - 3), found("b/target", 3)];
    let mut removal = delete_dirs(dirs, false);
    removal.advance(true);
    removal.advance(true);
    assert_eq!(removal.step(), Step::Finish { total: u64::MAX });
    let dirs = vec![found("a/target", u64::MAX - 3), found("b/target", 2)];
    let mut removal = delete_dirs(dirs, false);
    removal.advance(true);
    removal.advance(true);
    assert_eq!(removal.step(), Step::Finish { total: u64::MAX - 1 });
}
