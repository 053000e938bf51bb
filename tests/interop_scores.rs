use kmertools::fib::fibonacci;
use kmertools::interop::{interop_score, RunScore, Status, TestScore};

#[test]
fn status_from_strings() {
    assert_eq!(Status::from("PASS"), Status::Pass);
    assert_eq!(Status::from("OK"), Status::Okay);
    assert_eq!(Status::from("FAIL"), Status::Other);
    assert_eq!(Status::from("pass"), Status::Other);
    assert_eq!(Status::from(""), Status::Other);
}

#[test]
fn test_score_fields() {
    let s = TestScore::new(3, 4);
    assert_eq!(s.passes, 3);
    assert_eq!(s.total, 4);
}

#[test]
fn run_score_starts_at_zero() {
    let r = RunScore::new(3);
    assert_eq!(r.category_scores, vec![0, 0, 0]);
    assert!(r.unexpected_not_ok.is_empty());
}

#[test]
fn interop_takes_lowest_per_test() {
    let tests = vec![
        vec![TestScore::new(2, 2), TestScore::new(2, 2)],
        vec![TestScore::new(2, 2), TestScore::new(1, 2)],
        vec![TestScore::new(5, 5)],
        vec![TestScore::new(1, 1), TestScore::new(3, 3)],
    ];
    // 1000 + 0 + (skipped: one run only) + 1000, over two runs
    assert_eq!(interop_score(&tests, 2), 1000);
    // with one run only the third test counts
    assert_eq!(interop_score(&tests, 1), 1000);
    assert_eq!(interop_score(&tests, 3), 0);
}

#[test]
fn interop_rounds_down() {
    let tests = vec![
        vec![TestScore::new(1, 1), TestScore::new(1, 1), TestScore::new(1, 1)],
        vec![TestScore::new(1, 1), TestScore::new(1, 1), TestScore::new(1, 1)],
    ];
    assert_eq!(interop_score(&tests, 3), 666);
}

#[test]
fn interop_without_runs_is_zero() {
    let tests: Vec<Vec<TestScore>> = vec![vec![], vec![]];
    assert_eq!(interop_score(&tests, 0), 0);
    assert_eq!(interop_score(&vec![], 4), 0);
}

#[test]
fn fibonacci_values() {
    assert_eq!(fibonacci(0), 0);
    assert_eq!(fibonacci(1), 1);
    assert_eq!(fibonacci(10), 55);
    assert_eq!(fibonacci(30), 832040);
}

use kmertools::interop::{category_run_score, score_run, score_runs, test_counts, Results, SubtestResult};

fn sub(id: &str, status: Status) -> SubtestResult {
    SubtestResult { id: id.to_string(), status }
}

fn sample_runs() -> Vec<Vec<(String, Results)>> {
    let run1 = vec![
        (
            "t1".to_string(),
            Results { status: Status::Okay, subtests: vec![sub("s1", Status::Pass), sub("s2", Status::Other)] },
        ),
        ("t2".to_string(), Results { status: Status::Pass, subtests: vec![] }),
        ("t3".to_string(), Results { status: Status::Pass, subtests: vec![] }),
    ];
    let run2 = vec![
        (
            "t1".to_string(),
            Results { status: Status::Okay, subtests: vec![sub("s1", Status::Pass), sub("s2", Status::Pass)] },
        ),
        ("t3".to_string(), Results { status: Status::Pass, subtests: vec![] }),
        ("zz".to_string(), Results { status: Status::Pass, subtests: vec![] }),
    ];
    vec![run1, run2]
}

fn sample_categories() -> Vec<(String, Vec<String>)> {
    vec![
        ("a".to_string(), vec!["t1".to_string(), "t2".to_string()]),
        ("b".to_string(), vec!["t3".to_string()]),
    ]
}

#[test]
fn counts_of_one_test() {
    let with_subtests = Results {
        status: Status::Other,
        subtests: vec![sub("x", Status::Pass), sub("y", Status::Okay), sub("z", Status::Pass)],
    };
    let c = test_counts(&with_subtests);
    assert_eq!((c.passes, c.total), (2, 3));
    let passed = test_counts(&Results { status: Status::Pass, subtests: vec![] });
    assert_eq!((passed.passes, passed.total), (1, 1));
    let failed = test_counts(&Results { status: Status::Okay, subtests: vec![] });
    assert_eq!((failed.passes, failed.total), (0, 1));
}

#[test]
fn category_score_of_one_run() {
    let runs = sample_runs();
    let cats = sample_categories();
    assert_eq!(category_run_score(&runs[0], &cats[0].1), 750);
    assert_eq!(category_run_score(&runs[1], &cats[0].1), 500);
    assert_eq!(score_run(&runs[0], &cats), vec![750, 1000]);
    assert_eq!(score_run(&runs[1], &cats), vec![500, 1000]);
}

#[test]
fn scores_of_all_runs() {
    let (by_category, interop) = score_runs(&sample_runs(), &sample_categories());
    assert_eq!(
        by_category,
        vec![("a".to_string(), vec![750, 500]), ("b".to_string(), vec![1000, 1000])]
    );
    assert_eq!(interop, vec![("a".to_string(), 0), ("b".to_string(), 500)]);
}

#[test]
fn scores_without_runs() {
    let (by_category, interop) = score_runs(&vec![], &sample_categories());
    assert_eq!(by_category, vec![("a".to_string(), vec![]), ("b".to_string(), vec![])]);
    assert_eq!(interop, vec![("a".to_string(), 0), ("b".to_string(), 0)]);
}
