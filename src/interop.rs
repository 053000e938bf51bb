//! Interop scoring of web-platform-test runs: statuses, per-test scores, and the
//! interop score over several runs.

use vstd::prelude::*;
use std::collections::BTreeSet;

verus! {

/// The outcome of a test or subtest.
#[derive(Clone, Copy, Debug, PartialEq, Eq, Structural)]
pub enum Status {
    /// The harness ran the test to completion (`"OK"`).
    Okay,
    /// The test passed (`"PASS"`).
    Pass,
    /// Any other outcome.
    Other,
}

/// The status a result string names: `"PASS"`, `"OK"`, anything else.
pub open spec fn status_of(s: Seq<char>) -> Status {
    if s == "PASS"@ {
        Status::Pass
    } else if s == "OK"@ {
        Status::Okay
    } else {
        Status::Other
    }
}

impl<'a> From<&'a str> for Status {
    fn from(value: &'a str) -> (r: Status) {
        let text = value.to_owned();
        if text == "PASS".to_owned() {
            Status::Pass
        } else if text == "OK".to_owned() {
            Status::Okay
        } else {
            Status::Other
        }
    }
}

impl<'a> vstd::std_specs::convert::FromSpecImpl<&'a str> for Status {
    open spec fn obeys_from_spec() -> bool {
        true
    }

    open spec fn from_spec(v: &'a str) -> Status {
        status_of(v@)
    }
}

/// Passing subtests out of all subtests of one test in one run.
#[derive(Debug)]
pub struct TestScore {
    pub passes: u64,
    pub total: u64,
}

impl TestScore {
    pub fn new(passes: u64, total: u64) -> (r: TestScore)
        ensures
            r.passes == passes,
            r.total == total,
    {
        TestScore { passes, total }
    }

    /// A score counts at least one subtest and no more passes than subtests.
    pub open spec fn wf(&self) -> bool {
        0 < self.total && self.passes <= self.total
    }

    /// A test scores 1000 when every subtest passed, else 0.
    pub open spec fn points(&self) -> int {
        1000 * (self.passes / self.total) as int
    }
}

/// The scores of one run: per category, and the tests whose status was
/// unexpectedly not OK.
#[derive(Debug)]
pub struct RunScore {
    pub category_scores: Vec<u64>,
    pub unexpected_not_ok: BTreeSet<String>,
}

impl RunScore {
    /// A zero score for each of `size` categories, no unexpected statuses.
    pub fn new(size: usize) -> (r: RunScore)
        ensures
            r.category_scores@ == Seq::new(size as nat, |i: int| 0u64),
            r.unexpected_not_ok@ == Set::<String>::empty(),
    {
        let category_scores = vec![0u64; size];
        assert(category_scores@ =~= Seq::new(size as nat, |i: int| 0u64));
        RunScore { category_scores, unexpected_not_ok: BTreeSet::new() }
    }
}

/// The lowest points of the scores (0 for none).
pub open spec fn min_points(v: Seq<TestScore>) -> int
    decreases v.len(),
{
    if v.len() == 0 {
        0
    } else if v.len() == 1 {
        v[0].points()
    } else {
        let rest = min_points(v.drop_last());
        let last = v.last().points();
        if last < rest {
            last
        } else {
            rest
        }
    }
}

/// Sum, over the first `n` tests that have a score in each of `num_runs` runs,
/// of the test's lowest points.
pub open spec fn points_sum(tests: Seq<Seq<TestScore>>, num_runs: int, n: int) -> int
    decreases n,
{
    if n <= 0 {
        0
    } else {
        points_sum(tests, num_runs, n - 1) + if tests[n - 1].len() == num_runs {
            min_points(tests[n - 1])
        } else {
            0
        }
    }
}

/// The interop score: the summed lowest points per run (0 for no runs).
pub open spec fn interop(tests: Seq<Seq<TestScore>>, num_runs: int) -> int {
    if num_runs == 0 {
        0
    } else {
        points_sum(tests, num_runs, tests.len() as int) / num_runs
    }
}

/// Every score of every test is well formed.
pub open spec fn scores_wf(tests: Seq<Seq<TestScore>>) -> bool {
    forall|t: int, i: int|
        0 <= t < tests.len() && 0 <= i < tests[t].len() ==> (#[trigger] tests[t][i]).wf()
}

/// The contents of each list of scores.
pub open spec fn score_views(tests: Seq<Vec<TestScore>>) -> Seq<Seq<TestScore>> {
    tests.map_values(|v: Vec<TestScore>| v@)
}

proof fn lemma_min_points_bounds(v: Seq<TestScore>)
    requires
        forall|i: int| 0 <= i < v.len() ==> (#[trigger] v[i]).wf(),
    ensures
        0 <= min_points(v) <= 1000,
    decreases v.len(),
{
    if v.len() > 1 {
        lemma_min_points_bounds(v.drop_last());
    }
    if v.len() > 0 {
        let s = v.last();
        assert(s.wf());
        assert(0 <= s.passes / s.total <= 1) by (nonlinear_arith)
            requires
                0 < s.total,
                s.passes <= s.total,
        ;
        let s0 = v[0];
        assert(s0.wf());
        assert(0 <= s0.passes / s0.total <= 1) by (nonlinear_arith)
            requires
                0 < s0.total,
                s0.passes <= s0.total,
        ;
    }
}

proof fn lemma_points_sum_bounds(tests: Seq<Seq<TestScore>>, num_runs: int, n: int)
    requires
        scores_wf(tests),
        0 <= n <= tests.len(),
    ensures
        0 <= points_sum(tests, num_runs, n) <= 1000 * n,
    decreases n,
{
    if n > 0 {
        lemma_points_sum_bounds(tests, num_runs, n - 1);
        let v = tests[n - 1];
        assert forall|i: int| 0 <= i < v.len() implies (#[trigger] v[i]).wf() by {
            assert(tests[n - 1][i].wf());
        }
        lemma_min_points_bounds(v);
    }
}

/// The points of one score: 1000 when every subtest passed, else 0.
fn test_points(score: &TestScore) -> (r: u64)
    requires
        score.wf(),
    ensures
        r == score.points(),
{
    assert(score.passes / score.total <= 1) by (nonlinear_arith)
        requires
            0 < score.total,
            score.passes <= score.total,
    ;
    1000 * (score.passes / score.total)
}

/// The interop score of a category: for each test scored in all `num_runs`
/// runs, its lowest points over the runs, summed and divided by the number of
/// runs (rounded down).
pub fn interop_score(test_scores: &Vec<Vec<TestScore>>, num_runs: usize) -> (r: u64)
    requires
        scores_wf(score_views(test_scores@)),
        1000 * test_scores@.len() <= u64::MAX,
    ensures
        r == interop(score_views(test_scores@), num_runs as int),
{
    let n = test_scores.len();
    let mut sum: u64 = 0;
    let mut t: usize = 0;
    while t < n
        invariant
            n == test_scores@.len(),
            1000 * n <= u64::MAX,
            scores_wf(score_views(test_scores@)),
            t <= n,
            sum == points_sum(score_views(test_scores@), num_runs as int, t as int),
        decreases n - t,
    {
        proof {
            lemma_points_sum_bounds(score_views(test_scores@), num_runs as int, t as int + 1);
        }
        let test_score = &test_scores[t];
        if test_score.len() == num_runs {
            let m = test_score.len();
            let mut min_score: u64 = 0;
            let mut i: usize = 0;
            while i < m
                invariant
                    m == test_score@.len(),
                    n == test_scores@.len(),
                    t < n,
                    *test_score == test_scores@[t as int],
                    scores_wf(score_views(test_scores@)),
                    i <= m,
                    min_score == min_points(test_score@.subrange(0, i as int)),
                decreases m - i,
            {
                assert(score_views(test_scores@)[t as int][i as int].wf());
                let p = test_points(&test_score[i]);
                assert(test_score@.subrange(0, i + 1).drop_last() =~= test_score@.subrange(0, i as int));
                if i == 0 || p < min_score {
                    min_score = p;
                }
                i = i + 1;
            }
            assert(test_score@.subrange(0, m as int) =~= test_score@);
            assert(score_views(test_scores@)[t as int] == test_score@);
            sum = sum + min_score;
        }
        t = t + 1;
    }
    if num_runs == 0 {
        0
    } else {
        sum / (num_runs as u64)
    }
}

/// The result of one subtest.
#[derive(Debug)]
pub struct SubtestResult {
    pub id: String,
    pub status: Status,
}

/// The result of one test: its own status and its subtests' results.
#[derive(Debug)]
pub struct Results {
    pub status: Status,
    pub subtests: Vec<SubtestResult>,
}

/// How many of the subtests passed.
pub open spec fn count_passes(subs: Seq<SubtestResult>) -> int
    decreases subs.len(),
{
    if subs.len() == 0 {
        0
    } else {
        count_passes(subs.drop_last()) + if subs.last().status == Status::Pass {
            1int
        } else {
            0int
        }
    }
}

/// Passes and total of a test: over its subtests where it has any, else its
/// own status as one check.
pub open spec fn result_counts(r: Results) -> (int, int) {
    if r.subtests@.len() > 0 {
        (count_passes(r.subtests@), r.subtests@.len() as int)
    } else if r.status == Status::Pass {
        (1, 1)
    } else {
        (0, 1)
    }
}

/// The score of a test in one run.
pub open spec fn score_of(r: Results) -> TestScore {
    TestScore { passes: result_counts(r).0 as u64, total: result_counts(r).1 as u64 }
}

/// A test's points in one run: 1000 times its passing fraction, rounded down.
pub open spec fn result_points(r: Results) -> int {
    1000 * result_counts(r).0 / result_counts(r).1
}

proof fn lemma_count_passes_bounds(subs: Seq<SubtestResult>)
    ensures
        0 <= count_passes(subs) <= subs.len(),
    decreases subs.len(),
{
    if subs.len() > 0 {
        lemma_count_passes_bounds(subs.drop_last());
    }
}

/// Passes and total of one test's results, as a score.
pub fn test_counts(results: &Results) -> (r: TestScore)
    ensures
        r == score_of(*results),
        r.passes == result_counts(*results).0,
        r.total == result_counts(*results).1,
        r.wf(),
{
    let subs = &results.subtests;
    let n = subs.len();
    if n == 0 {
        return if results.status == Status::Pass {
            TestScore::new(1, 1)
        } else {
            TestScore::new(0, 1)
        };
    }
    let mut passes: u64 = 0;
    let mut i: usize = 0;
    while i < n
        invariant
            n == subs@.len(),
            i <= n,
            passes == count_passes(subs@.subrange(0, i as int)),
        decreases n - i,
    {
        proof {
            lemma_count_passes_bounds(subs@.subrange(0, i as int));
        }
        assert(subs@.subrange(0, i + 1).drop_last() =~= subs@.subrange(0, i as int));
        if subs[i].status == Status::Pass {
            passes = passes + 1;
        }
        i = i + 1;
    }
    assert(subs@.subrange(0, n as int) =~= subs@);
    proof {
        lemma_count_passes_bounds(subs@);
    }
    TestScore::new(passes, n as u64)
}

/// A test's points in one run: 1000 times its passing fraction, rounded down.
fn run_points_of(results: &Results) -> (r: u64)
    ensures
        r == result_points(*results),
        r <= 1000,
{
    let score = test_counts(results);
    let passes = score.passes;
    let total = score.total;
    assert((1000 * passes as int) / (total as int) <= 1000) by (nonlinear_arith)
        requires
            0 < total,
            passes <= total,
    ;
    let wide: u128 = 1000 * (passes as u128) / (total as u128);
    wide as u64
}

/// `id` is among the test ids `ids`.
pub open spec fn has_id(ids: Seq<String>, id: Seq<char>) -> bool {
    exists|i: int| 0 <= i < ids.len() && (#[trigger] ids[i])@ == id
}

/// True when `id` is among `ids`.
fn contains_id(ids: &Vec<String>, id: &String) -> (r: bool)
    ensures
        r == has_id(ids@, id@),
{
    let n = ids.len();
    let mut i: usize = 0;
    while i < n
        invariant
            n == ids@.len(),
            i <= n,
            forall|k: int| 0 <= k < i ==> (#[trigger] ids@[k])@ != id@,
        decreases n - i,
    {
        if ids[i] == *id {
            return true;
        }
        i = i + 1;
    }
    false
}

/// Summed points of the first `n` entries of a run whose test lies in `cat`.
pub open spec fn run_points(run: Seq<(String, Results)>, cat: Seq<String>, n: int) -> int
    decreases n,
{
    if n <= 0 {
        0
    } else {
        run_points(run, cat, n - 1) + if has_id(cat, run[n - 1].0@) {
            result_points(run[n - 1].1)
        } else {
            0
        }
    }
}

proof fn lemma_run_points_bounds(run: Seq<(String, Results)>, cat: Seq<String>, n: int)
    requires
        0 <= n <= run.len(),
    ensures
        0 <= run_points(run, cat, n) <= 1000 * n,
    decreases n,
{
    if n > 0 {
        lemma_run_points_bounds(run, cat, n - 1);
        let r = run[n - 1].1;
        let (p, t) = result_counts(r);
        lemma_count_passes_bounds(r.subtests@);
        assert(0 <= 1000 * p / t <= 1000) by (nonlinear_arith)
            requires
                0 < t,
                0 <= p <= t,
        ;
    }
}

/// A category's score in one run: the points of the run's tests that lie in
/// the category, summed and divided by the category's number of tests.
pub fn category_run_score(run: &Vec<(String, Results)>, cat: &Vec<String>) -> (r: u64)
    requires
        cat@.len() > 0,
        1000 * run@.len() <= u64::MAX,
    ensures
        r == run_points(run@, cat@, run@.len() as int) / cat@.len() as int,
{
    let n = run.len();
    let mut sum: u64 = 0;
    let mut i: usize = 0;
    while i < n
        invariant
            n == run@.len(),
            1000 * n <= u64::MAX,
            i <= n,
            sum == run_points(run@, cat@, i as int),
        decreases n - i,
    {
        proof {
            lemma_run_points_bounds(run@, cat@, i + 1);
        }
        let entry = &run[i];
        if contains_id(cat, &entry.0) {
            sum = sum + run_points_of(&entry.1);
        }
        i = i + 1;
    }
    sum / (cat.len() as u64)
}

/// The results of the first entry of `run` for test `id`, if any.
pub open spec fn lookup(run: Seq<(String, Results)>, id: Seq<char>) -> Option<Results>
    decreases run.len(),
{
    if run.len() == 0 {
        None
    } else if run[0].0@ == id {
        Some(run[0].1)
    } else {
        lookup(run.drop_first(), id)
    }
}

/// The scores of test `id` in the first `n` runs that have it, in run order.
pub open spec fn scores_for(runs: Seq<Vec<(String, Results)>>, id: Seq<char>, n: int) -> Seq<
    TestScore,
>
    decreases n,
{
    if n <= 0 {
        seq![]
    } else {
        scores_for(runs, id, n - 1) + match lookup(runs[n - 1]@, id) {
            Some(r) => seq![score_of(r)],
            None => seq![],
        }
    }
}

/// For each test of a category, its scores over all runs that have it.
pub open spec fn category_scores(runs: Seq<Vec<(String, Results)>>, cat: Seq<String>) -> Seq<
    Seq<TestScore>,
> {
    Seq::new(cat.len(), |t: int| scores_for(runs, cat[t]@, runs.len() as int))
}

/// The results of the first entry of `run` for test `id`.
fn find_result<'r>(run: &'r Vec<(String, Results)>, id: &String) -> (r: Option<&'r Results>)
    ensures
        match r {
            Some(x) => lookup(run@, id@) == Some(*x),
            None => lookup(run@, id@) is None,
        },
{
    let n = run.len();
    let mut i: usize = 0;
    assert(run@.subrange(0, n as int) =~= run@);
    while i < n
        invariant
            n == run@.len(),
            i <= n,
            lookup(run@, id@) == lookup(run@.subrange(i as int, n as int), id@),
        decreases n - i,
    {
        let ghost rest = run@.subrange(i as int, n as int);
        assert(rest.drop_first() =~= run@.subrange(i + 1, n as int));
        if run[i].0 == *id {
            return Some(&run[i].1);
        }
        i = i + 1;
    }
    None
}

/// The scores of test `id` over all runs that have it, in run order.
fn test_scores_over_runs(runs: &Vec<Vec<(String, Results)>>, id: &String) -> (r: Vec<TestScore>)
    ensures
        r@ == scores_for(runs@, id@, runs@.len() as int),
        forall|i: int| 0 <= i < r@.len() ==> (#[trigger] r@[i]).wf(),
{
    let n = runs.len();
    let mut out: Vec<TestScore> = Vec::new();
    let mut j: usize = 0;
    while j < n
        invariant
            n == runs@.len(),
            j <= n,
            out@ == scores_for(runs@, id@, j as int),
            forall|i: int| 0 <= i < out@.len() ==> (#[trigger] out@[i]).wf(),
        decreases n - j,
    {
        match find_result(&runs[j], id) {
            Some(results) => {
                out.push(test_counts(results));
                assert(out@ =~= scores_for(runs@, id@, j + 1));
            },
            None => {
                assert(out@ =~= scores_for(runs@, id@, j + 1));
            },
        }
        j = j + 1;
    }
    out
}

/// For each test of the category, its scores over all runs that have it.
fn category_test_scores(runs: &Vec<Vec<(String, Results)>>, cat: &Vec<String>) -> (r: Vec<
    Vec<TestScore>,
>)
    ensures
        score_views(r@) == category_scores(runs@, cat@),
        scores_wf(score_views(r@)),
{
    let n = cat.len();
    let mut out: Vec<Vec<TestScore>> = Vec::new();
    let mut t: usize = 0;
    while t < n
        invariant
            n == cat@.len(),
            t <= n,
            score_views(out@) =~= category_scores(runs@, cat@).subrange(0, t as int),
            scores_wf(score_views(out@)),
        decreases n - t,
    {
        let scores = test_scores_over_runs(runs, &cat[t]);
        let ghost before = out@;
        out.push(scores);
        assert(score_views(out@) =~= score_views(before).push(scores@));
        t = t + 1;
        assert(score_views(out@) =~= category_scores(runs@, cat@).subrange(0, t as int));
        assert forall|tt: int, i: int|
            0 <= tt < score_views(out@).len() && 0 <= i < score_views(out@)[tt].len() implies (
            #[trigger] score_views(out@)[tt][i]).wf() by {
            if tt < t - 1 {
                assert(score_views(out@)[tt] == score_views(before)[tt]);
            }
        }
    }
    assert(category_scores(runs@, cat@).subrange(0, n as int) =~= category_scores(runs@, cat@));
    out
}

/// The scores of one run, one per category, in the categories' order.
pub fn score_run(run: &Vec<(String, Results)>, tests_by_category: &Vec<(String, Vec<String>)>) -> (r:
    Vec<u64>)
    requires
        forall|c: int|
            0 <= c < tests_by_category@.len() ==> (#[trigger] tests_by_category@[c]).1@.len() > 0,
        1000 * run@.len() <= u64::MAX,
    ensures
        r@.len() == tests_by_category@.len(),
        forall|c: int|
            0 <= c < tests_by_category@.len() ==> r@[c] == run_points(
                run@,
                (#[trigger] tests_by_category@[c]).1@,
                run@.len() as int,
            ) / tests_by_category@[c].1@.len() as int,
{
    let n = tests_by_category.len();
    let mut out: Vec<u64> = Vec::new();
    let mut c: usize = 0;
    while c < n
        invariant
            n == tests_by_category@.len(),
            forall|cc: int|
                0 <= cc < tests_by_category@.len() ==> (#[trigger] tests_by_category@[cc]).1@.len()
                    > 0,
            1000 * run@.len() <= u64::MAX,
            c <= n,
            out@.len() == c,
            forall|cc: int|
                0 <= cc < c ==> out@[cc] == run_points(
                    run@,
                    (#[trigger] tests_by_category@[cc]).1@,
                    run@.len() as int,
                ) / tests_by_category@[cc].1@.len() as int,
        decreases n - c,
    {
        let score = category_run_score(run, &tests_by_category[c].1);
        out.push(score);
        c = c + 1;
    }
    out
}

/// A category's score in one run (see `category_run_score`).
pub open spec fn category_run_points(run: Seq<(String, Results)>, cat: Seq<String>) -> int {
    run_points(run, cat, run.len() as int) / cat.len() as int
}

/// Every category lists at least one test, and the sums stay within `u64`.
pub open spec fn scoring_inputs_ok(
    runs: Seq<Vec<(String, Results)>>,
    tests_by_category: Seq<(String, Vec<String>)>,
) -> bool {
    &&& forall|c: int|
        0 <= c < tests_by_category.len() ==> (#[trigger] tests_by_category[c]).1@.len() > 0 && 1000
            * tests_by_category[c].1@.len() <= u64::MAX
    &&& forall|j: int| 0 <= j < runs.len() ==> 1000 * (#[trigger] runs[j])@.len() <= u64::MAX
}

/// The interop scores of a set of runs. Each run lists `(test id, results)`;
/// each category is `(name, test ids)`. Returns, per category in order, its
/// name with its score in each run, and its name with its interop score.
pub fn score_runs(
    runs: &Vec<Vec<(String, Results)>>,
    tests_by_category: &Vec<(String, Vec<String>)>,
) -> (r: (Vec<(String, Vec<u64>)>, Vec<(String, u64)>))
    requires
        scoring_inputs_ok(runs@, tests_by_category@),
    ensures
        r.0@.len() == tests_by_category@.len(),
        r.1@.len() == tests_by_category@.len(),
        forall|c: int|
            0 <= c < tests_by_category@.len() ==> {
                &&& (#[trigger] r.0@[c]).0@ == tests_by_category@[c].0@
                &&& r.0@[c].1@.len() == runs@.len()
                &&& forall|j: int|
                    0 <= j < runs@.len() ==> r.0@[c].1@[j] == category_run_points(
                        #[trigger] runs@[j]@,
                        tests_by_category@[c].1@,
                    )
            },
        forall|c: int|
            0 <= c < tests_by_category@.len() ==> {
                &&& (#[trigger] r.1@[c]).0@ == tests_by_category@[c].0@
                &&& r.1@[c].1 == interop(
                    category_scores(runs@, tests_by_category@[c].1@),
                    runs@.len() as int,
                )
            },
{
    let n_cats = tests_by_category.len();
    let n_runs = runs.len();
    let mut per_run: Vec<Vec<u64>> = Vec::new();
    let mut j: usize = 0;
    while j < n_runs
        invariant
            n_runs == runs@.len(),
            n_cats == tests_by_category@.len(),
            scoring_inputs_ok(runs@, tests_by_category@),
            j <= n_runs,
            per_run@.len() == j,
            forall|jj: int|
                0 <= jj < j ==> (#[trigger] per_run@[jj])@.len() == n_cats && forall|c: int|
                    0 <= c < n_cats ==> per_run@[jj]@[c] == category_run_points(
                        runs@[jj]@,
                        tests_by_category@[c].1@,
                    ),
        decreases n_runs - j,
    {
        assert(1000 * runs@[j as int]@.len() <= u64::MAX);
        let scores = score_run(&runs[j], tests_by_category);
        per_run.push(scores);
        j = j + 1;
    }
    let mut by_category: Vec<(String, Vec<u64>)> = Vec::new();
    let mut interop_by_category: Vec<(String, u64)> = Vec::new();
    let mut c: usize = 0;
    while c < n_cats
        invariant
            n_runs == runs@.len(),
            n_cats == tests_by_category@.len(),
            scoring_inputs_ok(runs@, tests_by_category@),
            per_run@.len() == n_runs,
            forall|jj: int|
                0 <= jj < n_runs ==> (#[trigger] per_run@[jj])@.len() == n_cats && forall|cc: int|
                    0 <= cc < n_cats ==> per_run@[jj]@[cc] == category_run_points(
                        runs@[jj]@,
                        tests_by_category@[cc].1@,
                    ),
            c <= n_cats,
            by_category@.len() == c,
            interop_by_category@.len() == c,
            forall|cc: int|
                0 <= cc < c ==> {
                    &&& (#[trigger] by_category@[cc]).0@ == tests_by_category@[cc].0@
                    &&& by_category@[cc].1@.len() == runs@.len()
                    &&& forall|jj: int|
                        0 <= jj < runs@.len() ==> by_category@[cc].1@[jj] == category_run_points(
                            #[trigger] runs@[jj]@,
                            tests_by_category@[cc].1@,
                        )
                },
            forall|cc: int|
                0 <= cc < c ==> {
                    &&& (#[trigger] interop_by_category@[cc]).0@ == tests_by_category@[cc].0@
                    &&& interop_by_category@[cc].1 == interop(
                        category_scores(runs@, tests_by_category@[cc].1@),
                        runs@.len() as int,
                    )
                },
        decreases n_cats - c,
    {
        let mut scores: Vec<u64> = Vec::new();
        let mut jj: usize = 0;
        while jj < n_runs
            invariant
                n_runs == runs@.len(),
                n_cats == tests_by_category@.len(),
                c < n_cats,
                per_run@.len() == n_runs,
                forall|k: int|
                    0 <= k < n_runs ==> (#[trigger] per_run@[k])@.len() == n_cats && forall|cc: int|
                        0 <= cc < n_cats ==> per_run@[k]@[cc] == category_run_points(
                            runs@[k]@,
                            tests_by_category@[cc].1@,
                        ),
                jj <= n_runs,
                scores@.len() == jj,
                forall|k: int|
                    0 <= k < jj ==> scores@[k] == category_run_points(
                        #[trigger] runs@[k]@,
                        tests_by_category@[c as int].1@,
                    ),
            decreases n_runs - jj,
        {
            assert(per_run@[jj as int]@.len() == n_cats);
            let v = per_run[jj][c];
            scores.push(v);
            jj = jj + 1;
        }
        let cat = &tests_by_category[c];
        let test_scores = category_test_scores(runs, &cat.1);
        assert(1000 * cat.1@.len() <= u64::MAX);
        assert(score_views(test_scores@).len() == test_scores@.len());
        assert(category_scores(runs@, cat.1@).len() == cat.1@.len());
        let score = interop_score(&test_scores, n_runs);
        by_category.push((cat.0.clone(), scores));
        interop_by_category.push((cat.0.clone(), score));
        c = c + 1;
    }
    (by_category, interop_by_category)
}

} // verus!
