use riptide::collector::TestItem;
use riptide::impact::{changed_paths, ImpactAnalyzer, ImpactStep, TestHistory};
use riptide::pipeline::{choose_tests, records_dependencies};
use riptide::runner::{TestResult, TestStatus};

fn item(file: &str, func: &str) -> TestItem {
    TestItem::new(file, None, func.to_string())
}

fn hist(deps: &[&str], last: Option<&str>) -> TestHistory {
    TestHistory { deps: deps.iter().map(|s| s.to_string()).collect(), last_status: last.map(|s| s.to_string()) }
}

fn analyzer(changed: &[&str]) -> ImpactAnalyzer {
    ImpactAnalyzer::new(changed.iter().map(|s| s.to_string()).collect())
}

#[test]
fn own_file_change_runs_test() {
    let a = analyzer(&["tests/test_a.py"]);
    assert!(a.should_run(&item("tests/test_a.py", "test_x"), &hist(&["src/x.py"], Some("passed"))));
}

#[test]
fn dependency_change_runs_test() {
    let a = analyzer(&["src/auth.py"]);
    assert!(a.should_run(&item("tests/test_a.py", "test_x"), &hist(&["src/db.py", "src/auth.py"], Some("passed"))));
}

#[test]
fn no_recorded_deps_runs_test() {
    let a = analyzer(&[]);
    assert!(a.should_run(&item("tests/test_a.py", "test_x"), &hist(&[], Some("passed"))));
}

#[test]
fn previous_failure_runs_test() {
    let a = analyzer(&[]);
    assert!(a.should_run(&item("t.py", "test_x"), &hist(&["src/a.py"], Some("failed"))));
    assert!(a.should_run(&item("t.py", "test_x"), &hist(&["src/a.py"], Some("error"))));
}

#[test]
fn unchanged_passing_test_is_skipped() {
    let a = analyzer(&[]);
    assert!(!a.should_run(&item("t.py", "test_x"), &hist(&["src/a.py"], Some("passed"))));
    assert!(!a.should_run(&item("t.py", "test_x"), &hist(&["src/a.py"], Some("skipped"))));
    assert!(!a.should_run(&item("t.py", "test_x"), &hist(&["src/a.py"], None)));
    let b = analyzer(&["src/other.py"]);
    assert!(!b.should_run(&item("t.py", "test_x"), &hist(&["src/a.py"], Some("passed"))));
}

#[test]
fn more_changes_never_run_fewer_tests() {
    let t = item("t.py", "test_x");
    let h = hist(&["src/a.py"], Some("passed"));
    let small = analyzer(&["src/a.py"]);
    let big = analyzer(&["src/a.py", "src/b.py"]);
    assert!(small.should_run(&t, &h));
    assert!(big.should_run(&t, &h));
}

#[test]
fn filter_partitions_in_order() {
    let tests = vec![item("t1.py", "test_a"), item("t2.py", "test_b"), item("t3.py", "test_c"), item("t4.py", "test_d")];
    let hists = vec![
        hist(&["src/a.py"], Some("passed")),
        hist(&["src/b.py"], Some("passed")),
        hist(&[], None),
        hist(&["src/c.py"], Some("failed")),
    ];
    let a = analyzer(&["src/b.py"]);
    let (run, skipped) = a.filter_affected(&tests, &hists);
    let ids = |v: &Vec<TestItem>| v.iter().map(|t| t.test_id.clone()).collect::<Vec<_>>();
    assert_eq!(ids(&run), vec!["t2.py::test_b", "t3.py::test_c", "t4.py::test_d"]);
    assert_eq!(ids(&skipped), vec!["t1.py::test_a"]);
    assert_eq!(run.len() + skipped.len(), tests.len());
}

#[test]
fn nothing_changed_after_full_recorded_run_skips_all() {
    let tests = vec![item("t1.py", "test_a"), item("t2.py", "test_b")];
    let hists = vec![hist(&["src/a.py"], Some("passed")), hist(&["src/b.py"], Some("passed"))];
    let (run, skipped) = analyzer(&[]).filter_affected(&tests, &hists);
    assert!(run.is_empty());
    assert_eq!(skipped.len(), 2);
}

#[test]
fn changed_paths_compares_hashes() {
    let current = vec![
        ("a.py".to_string(), "h1".to_string()),
        ("b.py".to_string(), "h2".to_string()),
        ("c.py".to_string(), "h3".to_string()),
    ];
    let stored = vec![Some("h1".to_string()), Some("old".to_string()), None];
    assert_eq!(changed_paths(&current, &stored), vec!["b.py".to_string(), "c.py".to_string()]);
    assert!(changed_paths(&vec![], &vec![]).is_empty());
}

#[test]
fn stepwise_decision_reads_only_what_it_needs() {
    let t = item("tests/test_a.py", "test_x");
    let changed_own = analyzer(&["tests/test_a.py"]);
    assert_eq!(changed_own.decide(&t, None, None), ImpactStep::Run);
    let a = analyzer(&["src/a.py"]);
    assert_eq!(a.decide(&t, None, None), ImpactStep::NeedDeps);
    let deps = vec!["src/a.py".to_string()];
    assert_eq!(a.decide(&t, Some(&deps), None), ImpactStep::Run);
    let empty: Vec<String> = vec![];
    assert_eq!(a.decide(&t, Some(&empty), None), ImpactStep::Run);
    let other = vec!["src/b.py".to_string()];
    assert_eq!(a.decide(&t, Some(&other), None), ImpactStep::NeedLastResult);
    assert_eq!(a.decide(&t, Some(&other), Some(&Some("error".to_string()))), ImpactStep::Run);
    assert_eq!(a.decide(&t, Some(&other), Some(&Some("passed".to_string()))), ImpactStep::Skip);
    assert_eq!(a.decide(&t, Some(&other), Some(&None)), ImpactStep::Skip);
    assert!(!a.should_run(&t, &hist(&["src/b.py"], None)));
}

#[test]
fn all_flag_runs_every_test_in_order() {
    let tests = vec![item("t1.py", "test_a"), item("t2.py", "test_b")];
    let (run, skipped) = choose_tests(true, &analyzer(&[]), &tests, &[]);
    assert_eq!(run.iter().map(|t| t.test_id.clone()).collect::<Vec<_>>(), vec!["t1.py::test_a", "t2.py::test_b"]);
    assert!(skipped.is_empty());
    let hists = vec![hist(&["src/a.py"], Some("passed")), hist(&["src/b.py"], Some("passed"))];
    let (run2, skipped2) = choose_tests(false, &analyzer(&["src/b.py"]), &tests, &hists);
    assert_eq!(run2.len(), 1);
    assert_eq!(skipped2.len(), 1);
}

#[test]
fn more_changes_keep_every_selected_test() {
    let tests = vec![item("t1.py", "test_a"), item("t2.py", "test_b"), item("t3.py", "test_c")];
    let hists = vec![hist(&["src/a.py"], None), hist(&["src/b.py"], None), hist(&["src/c.py"], None)];
    let (small, _) = analyzer(&["src/b.py"]).filter_affected(&tests, &hists);
    let (big, _) = analyzer(&["src/b.py", "src/c.py"]).filter_affected(&tests, &hists);
    for t in &small {
        assert!(big.iter().any(|u| u.test_id == t.test_id));
    }
    assert_eq!(big.len(), 2);
}

#[test]
fn dependencies_recorded_only_when_measured() {
    let mut r = TestResult {
        test_id: "t.py::test_a".to_string(),
        file_path: "t.py".to_string(),
        status: TestStatus::Passed,
        duration_ms: 0,
        stdout: None,
        stderr: None,
        covered_files: vec![],
    };
    assert!(!records_dependencies(&r));
    r.covered_files.push("src/a.py".to_string());
    assert!(records_dependencies(&r));
}
