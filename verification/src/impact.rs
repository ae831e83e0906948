//! Selection of the tests that a change can affect.

use vstd::prelude::*;
use crate::collector::{item_models, TestItem, TestItemModel};
use crate::runner::string_views;
use crate::text::str_eq;

verus! {

/// What the state database recorded of a test: the files that its last
/// measured run touched, and the stored status of its last run.
pub struct TestHistory {
    pub deps: Vec<String>,
    pub last_status: Option<String>,
}

/// The view of an optional string.
pub open spec fn opt_view(o: Option<String>) -> Option<Seq<char>> {
    match o {
        Some(s) => Some(s@),
        None => None,
    }
}

/// Whether a stored status is one that is always run again.
pub open spec fn last_was_failure(last: Option<Seq<char>>) -> bool {
    last == Some("failed"@) || last == Some("error"@)
}

/// Whether a test must run: its own file changed, it has no recorded
/// dependencies, one of them changed, or its last run failed or erred.
pub open spec fn spec_should_run(
    changed: Seq<Seq<char>>,
    file: Seq<char>,
    deps: Seq<Seq<char>>,
    last: Option<Seq<char>>,
) -> bool {
    ||| changed.contains(file)
    ||| deps.len() == 0
    ||| exists|i: int| 0 <= i < deps.len() && changed.contains(#[trigger] deps[i])
    ||| last_was_failure(last)
}

/// Whether a stored status is `failed` or `error`.
fn is_failure_status(last: &Option<String>) -> (b: bool)
    ensures
        b == last_was_failure(opt_view(*last)),
{
    match last {
        Some(status) => str_eq(status.as_str(), "failed") || str_eq(status.as_str(), "error"),
        None => false,
    }
}

/// A step in deciding whether a test must run.
#[derive(Debug, Clone, Copy, PartialEq, Eq, Structural)]
pub enum ImpactStep {
    Run,
    Skip,
    /// The decision needs the test's recorded dependencies.
    NeedDeps,
    /// The decision needs the test's last recorded status.
    NeedLastResult,
}

/// The next step in deciding whether a test must run, from what has been
/// read of its history so far.
pub open spec fn spec_decide(
    changed: Seq<Seq<char>>,
    file: Seq<char>,
    deps: Option<Seq<Seq<char>>>,
    last: Option<Option<Seq<char>>>,
) -> ImpactStep {
    if changed.contains(file) {
        ImpactStep::Run
    } else {
        match deps {
            None => ImpactStep::NeedDeps,
            Some(d) => if d.len() == 0 || (exists|i: int| 0 <= i < d.len() && changed.contains(#[trigger] d[i])) {
                ImpactStep::Run
            } else {
                match last {
                    None => ImpactStep::NeedLastResult,
                    Some(l) => if last_was_failure(l) {
                        ImpactStep::Run
                    } else {
                        ImpactStep::Skip
                    },
                }
            },
        }
    }
}

/// Deciding step by step agrees with the whole decision: once the steps
/// reach `Run` or `Skip` on what has been read, that is what the full
/// history decides, whatever the parts not read hold.
pub proof fn law_stepwise_decision_agrees(
    changed: Seq<Seq<char>>,
    file: Seq<char>,
    deps: Seq<Seq<char>>,
    last: Option<Seq<char>>,
    read_deps: bool,
    read_last: bool,
)
    requires
        read_last ==> read_deps,
    ensures
        ({
            let step = spec_decide(
                changed,
                file,
                if read_deps { Some(deps) } else { None },
                if read_last { Some(last) } else { None },
            );
            &&& step == ImpactStep::Run ==> spec_should_run(changed, file, deps, last)
            &&& step == ImpactStep::Skip ==> !spec_should_run(changed, file, deps, last)
        }),
{
}

/// Decides which tests to run given the files that changed.
pub struct ImpactAnalyzer {
    changed_files: Vec<String>,
}

impl View for ImpactAnalyzer {
    type V = Seq<Seq<char>>;

    closed spec fn view(&self) -> Seq<Seq<char>> {
        string_views(self.changed_files@)
    }
}

/// Whether `s` is among `v`.
fn contains_string(v: &Vec<String>, s: &String) -> (b: bool)
    ensures
        b == string_views(v@).contains(s@),
{
    let mut k: usize = 0;
    while k < v.len()
        invariant
            k <= v.len(),
            forall|i: int| 0 <= i < k ==> v@[i]@ != s@,
        decreases v.len() - k,
    {
        if v[k] == *s {
            assert(string_views(v@)[k as int] == s@);
            return true;
        }
        k = k + 1;
    }
    assert(!string_views(v@).contains(s@)) by {
        if string_views(v@).contains(s@) {
            let i = choose|i: int| 0 <= i < string_views(v@).len() && string_views(v@)[i] == s@;
            assert(v@[i]@ == s@);
        }
    }
    false
}

/// Whether test `k` of `tests` must run.
pub open spec fn run_at(changed: Seq<Seq<char>>, tests: Seq<TestItem>, hist: Seq<TestHistory>, k: int) -> bool {
    spec_should_run(changed, tests[k].file_path@, string_views(hist[k].deps@), opt_view(hist[k].last_status))
}

/// The first `n` tests whose decision is `run`, in order.
pub open spec fn selected(
    changed: Seq<Seq<char>>,
    tests: Seq<TestItem>,
    hist: Seq<TestHistory>,
    n: int,
    run: bool,
) -> Seq<TestItemModel>
    decreases n,
{
    if n <= 0 {
        seq![]
    } else if run_at(changed, tests, hist, n - 1) == run {
        selected(changed, tests, hist, n - 1, run).push(tests[n - 1]@)
    } else {
        selected(changed, tests, hist, n - 1, run)
    }
}

impl ImpactAnalyzer {
    pub fn new(changed_files: Vec<String>) -> (r: ImpactAnalyzer)
        ensures
            r@ == string_views(changed_files@),
    {
        ImpactAnalyzer { changed_files }
    }

    /// Whether one of `deps` is among the changed files.
    fn any_changed(&self, deps: &Vec<String>) -> (b: bool)
        ensures
            b == exists|i: int| 0 <= i < deps.len() && self@.contains(#[trigger] string_views(deps@)[i]),
    {
        let mut k: usize = 0;
        while k < deps.len()
            invariant
                k <= deps.len(),
                forall|i: int| 0 <= i < k ==> !self@.contains(#[trigger] string_views(deps@)[i]),
            decreases deps.len() - k,
        {
            if contains_string(&self.changed_files, &deps[k]) {
                assert(string_views(deps@)[k as int] == deps@[k as int]@);
                return true;
            }
            k = k + 1;
        }
        false
    }

    /// Whether `test`, with this history, must run.
    pub fn should_run(&self, test: &TestItem, history: &TestHistory) -> (b: bool)
        ensures
            b == spec_should_run(self@, test.file_path@, string_views(history.deps@), opt_view(history.last_status)),
    {
        if contains_string(&self.changed_files, &test.file_path) {
            return true;
        }
        if history.deps.len() == 0 || self.any_changed(&history.deps) {
            return true;
        }
        is_failure_status(&history.last_status)
    }

    /// The next step in deciding whether `test` must run, given what has
    /// been read of its history so far: its dependencies and its last
    /// status, each once read. The test's own file is looked at first,
    /// then its dependencies, then its last status; a step asks for what
    /// it needs and has not been read.
    pub fn decide(&self, test: &TestItem, deps: Option<&Vec<String>>, last: Option<&Option<String>>) -> (r: ImpactStep)
        ensures
            r == spec_decide(
                self@,
                test.file_path@,
                match deps {
                    Some(d) => Some(string_views(d@)),
                    None => None,
                },
                match last {
                    Some(l) => Some(opt_view(*l)),
                    None => None,
                },
            ),
    {
        if contains_string(&self.changed_files, &test.file_path) {
            return ImpactStep::Run;
        }
        match deps {
            None => ImpactStep::NeedDeps,
            Some(d) => {
                if d.len() == 0 || self.any_changed(d) {
                    ImpactStep::Run
                } else {
                    match last {
                        None => ImpactStep::NeedLastResult,
                        Some(l) => if is_failure_status(l) {
                            ImpactStep::Run
                        } else {
                            ImpactStep::Skip
                        },
                    }
                }
            },
        }
    }

    /// Splits `tests` into those that must run and those that can be
    /// skipped, each in the order given; `histories[i]` is what was recorded
    /// of `tests[i]`.
    pub fn filter_affected(&self, tests: &[TestItem], histories: &[TestHistory]) -> (r: (Vec<TestItem>, Vec<TestItem>))
        requires
            tests.len() == histories.len(),
        ensures
            item_models(r.0@) == selected(self@, tests@, histories@, tests.len() as int, true),
            item_models(r.1@) == selected(self@, tests@, histories@, tests.len() as int, false),
    {
        let mut to_run: Vec<TestItem> = Vec::new();
        let mut skipped: Vec<TestItem> = Vec::new();
        let mut k: usize = 0;
        while k < tests.len()
            invariant
                k <= tests.len(),
                tests.len() == histories.len(),
                item_models(to_run@) == selected(self@, tests@, histories@, k as int, true),
                item_models(skipped@) == selected(self@, tests@, histories@, k as int, false),
            decreases tests.len() - k,
        {
            let run = self.should_run(&tests[k], &histories[k]);
            let item = tests[k].clone();
            if run {
                let ghost before = to_run@;
                to_run.push(item);
                assert(item_models(to_run@) =~= item_models(before).push(tests@[k as int]@));
            } else {
                let ghost before = skipped@;
                skipped.push(item);
                assert(item_models(skipped@) =~= item_models(before).push(tests@[k as int]@));
            }
            k = k + 1;
        }
        (to_run, skipped)
    }
}

/// A test whose own file changed always runs.
pub proof fn law_changed_test_file_runs(
    changed: Seq<Seq<char>>,
    file: Seq<char>,
    deps: Seq<Seq<char>>,
    last: Option<Seq<char>>,
)
    requires
        changed.contains(file),
    ensures
        spec_should_run(changed, file, deps, last),
{
}

/// A test with a changed dependency always runs.
pub proof fn law_changed_dependency_runs(
    changed: Seq<Seq<char>>,
    file: Seq<char>,
    deps: Seq<Seq<char>>,
    last: Option<Seq<char>>,
    i: int,
)
    requires
        0 <= i < deps.len(),
        changed.contains(deps[i]),
    ensures
        spec_should_run(changed, file, deps, last),
{
}

/// When nothing changed, a test with recorded dependencies whose last run
/// neither failed nor erred is skipped.
pub proof fn law_unchanged_passing_test_skipped(file: Seq<char>, deps: Seq<Seq<char>>, last: Option<Seq<char>>)
    requires
        deps.len() > 0,
        !last_was_failure(last),
    ensures
        !spec_should_run(Seq::<Seq<char>>::empty(), file, deps, last),
{
}

/// More changed files never make fewer tests run.
pub proof fn law_should_run_monotone(
    c1: Seq<Seq<char>>,
    c2: Seq<Seq<char>>,
    file: Seq<char>,
    deps: Seq<Seq<char>>,
    last: Option<Seq<char>>,
)
    requires
        forall|f: Seq<char>| c1.contains(f) ==> c2.contains(f),
        spec_should_run(c1, file, deps, last),
    ensures
        spec_should_run(c2, file, deps, last),
{
    if exists|i: int| 0 <= i < deps.len() && c1.contains(#[trigger] deps[i]) {
        let i = choose|i: int| 0 <= i < deps.len() && c1.contains(#[trigger] deps[i]);
        assert(c2.contains(deps[i]));
    }
}

/// The tests that run and the tests that are skipped together number as
/// many as the tests given, and each of them is a test given, with that
/// decision.
pub proof fn law_selection_partitions(
    changed: Seq<Seq<char>>,
    tests: Seq<TestItem>,
    hist: Seq<TestHistory>,
    n: int,
)
    requires
        0 <= n <= tests.len(),
        tests.len() == hist.len(),
    ensures
        selected(changed, tests, hist, n, true).len() + selected(changed, tests, hist, n, false).len() == n,
        forall|run: bool, j: int|
            0 <= j < selected(changed, tests, hist, n, run).len() ==> exists|k: int|
                0 <= k < n && run_at(changed, tests, hist, k) == run && #[trigger] selected(
                    changed,
                    tests,
                    hist,
                    n,
                    run,
                )[j] == tests[k]@,
    decreases n,
{
    if n > 0 {
        law_selection_partitions(changed, tests, hist, n - 1);
        assert forall|run: bool, j: int|
            0 <= j < selected(changed, tests, hist, n, run).len() implies exists|k: int|
                0 <= k < n && run_at(changed, tests, hist, k) == run && #[trigger] selected(
                    changed,
                    tests,
                    hist,
                    n,
                    run,
                )[j] == tests[k]@ by {
            if j < selected(changed, tests, hist, n - 1, run).len() {
                let k = choose|k: int|
                    0 <= k < n - 1 && run_at(changed, tests, hist, k) == run && #[trigger] selected(
                        changed,
                        tests,
                        hist,
                        n - 1,
                        run,
                    )[j] == tests[k]@;
                assert(selected(changed, tests, hist, n, run)[j] == tests[k]@);
            } else {
                assert(selected(changed, tests, hist, n, run)[j] == tests[n - 1]@);
            }
        }
    }
}

/// The tests that run are in the order given and come from a prefix:
/// every test chosen among the first `n - 1` is also chosen among the first `n`.
proof fn lemma_selected_grows(changed: Seq<Seq<char>>, tests: Seq<TestItem>, hist: Seq<TestHistory>, n: int, m: TestItemModel)
    requires
        n > 0,
        selected(changed, tests, hist, n - 1, true).contains(m),
    ensures
        selected(changed, tests, hist, n, true).contains(m),
{
    let prev = selected(changed, tests, hist, n - 1, true);
    let j = choose|j: int| 0 <= j < prev.len() && prev[j] == m;
    if run_at(changed, tests, hist, n - 1) {
        assert(selected(changed, tests, hist, n, true)[j] == m);
    }
}

/// More changed files never make fewer tests run: every test that runs for
/// `c1` also runs for any `c2` that holds every file of `c1`.
pub proof fn law_selection_monotone(
    c1: Seq<Seq<char>>,
    c2: Seq<Seq<char>>,
    tests: Seq<TestItem>,
    hist: Seq<TestHistory>,
    n: int,
)
    requires
        forall|f: Seq<char>| c1.contains(f) ==> c2.contains(f),
        0 <= n <= tests.len(),
        tests.len() == hist.len(),
    ensures
        forall|m: TestItemModel| #[trigger]
            selected(c1, tests, hist, n, true).contains(m) ==> selected(c2, tests, hist, n, true).contains(m),
    decreases n,
{
    if n > 0 {
        law_selection_monotone(c1, c2, tests, hist, n - 1);
        assert forall|m: TestItemModel| #[trigger]
            selected(c1, tests, hist, n, true).contains(m) implies selected(c2, tests, hist, n, true).contains(m) by {
            let s1 = selected(c1, tests, hist, n, true);
            let j = choose|j: int| 0 <= j < s1.len() && s1[j] == m;
            if run_at(c1, tests, hist, n - 1) && j == s1.len() - 1 {
                law_should_run_monotone(
                    c1,
                    c2,
                    tests[n - 1].file_path@,
                    string_views(hist[n - 1].deps@),
                    opt_view(hist[n - 1].last_status),
                );
                let s2 = selected(c2, tests, hist, n, true);
                assert(s2[s2.len() - 1] == m);
            } else {
                assert(selected(c1, tests, hist, n - 1, true)[j] == m);
                assert(selected(c1, tests, hist, n - 1, true).contains(m));
                lemma_selected_grows(c2, tests, hist, n, m);
            }
        }
    }
}

/// Whether a file's current hash differs from the one stored for it; a
/// file with no stored hash counts as changed.
pub open spec fn hash_changed(current: Seq<char>, stored: Option<Seq<char>>) -> bool {
    stored != Some(current)
}

/// The paths, in the order given, whose current hash differs from the
/// stored one; `current[i]` is a path and its hash, `stored[i]` the hash
/// recorded for that path, if any.
pub fn changed_paths(current: &Vec<(String, String)>, stored: &Vec<Option<String>>) -> (out: Vec<String>)
    requires
        current.len() == stored.len(),
    ensures
        string_views(out@) == changed_prefix(current@, stored@, current.len() as int),
{
    let mut out: Vec<String> = Vec::new();
    let mut k: usize = 0;
    while k < current.len()
        invariant
            k <= current.len(),
            current.len() == stored.len(),
            string_views(out@) == changed_prefix(current@, stored@, k as int),
        decreases current.len() - k,
    {
        let differs = match &stored[k] {
            Some(h) => !(*h == current[k].1),
            None => true,
        };
        if differs {
            let ghost before = out@;
            out.push(current[k].0.clone());
            assert(string_views(out@) =~= string_views(before).push(current@[k as int].0@));
        }
        k = k + 1;
    }
    out
}

/// The paths among the first `n` whose hash changed, in order.
pub open spec fn changed_prefix(current: Seq<(String, String)>, stored: Seq<Option<String>>, n: int) -> Seq<Seq<char>>
    decreases n,
{
    if n <= 0 {
        seq![]
    } else if hash_changed(current[n - 1].1@, opt_view(stored[n - 1])) {
        changed_prefix(current, stored, n - 1).push(current[n - 1].0@)
    } else {
        changed_prefix(current, stored, n - 1)
    }
}

/// A test runs exactly when its own file changed, it has no recorded
/// dependency, one of its dependencies changed, or its last stored status
/// is `failed` or `error`.
pub proof fn law_test_runs_exactly_when(
    changed: Seq<Seq<char>>,
    file: Seq<char>,
    deps: Seq<Seq<char>>,
    last: Option<Seq<char>>,
)
    ensures
        spec_should_run(changed, file, deps, last) <==> (changed.contains(file) || deps.len() == 0 || (exists|i: int|
            0 <= i < deps.len() && changed.contains(#[trigger] deps[i])) || last == Some("failed"@) || last
            == Some("error"@)),
{
}

/// Whatever files changed, a test whose own file did not change, with at
/// least one recorded dependency and none of them changed, and whose last
/// status is neither `failed` nor `error` (`passed`, `skipped`, anything
/// else, or none), is skipped.
pub proof fn law_untouched_test_skipped(
    changed: Seq<Seq<char>>,
    file: Seq<char>,
    deps: Seq<Seq<char>>,
    last: Option<Seq<char>>,
)
    requires
        !changed.contains(file),
        deps.len() > 0,
        forall|i: int| 0 <= i < deps.len() ==> !changed.contains(#[trigger] deps[i]),
        last != Some("failed"@),
        last != Some("error"@),
    ensures
        !spec_should_run(changed, file, deps, last),
        spec_decide(changed, file, Some(deps), Some(last)) == ImpactStep::Skip,
{
}

/// What each step of the decision does: a changed test file runs at once;
/// otherwise the dependencies are asked for, then a test with none, or with
/// a changed one, runs; otherwise the last status is asked for, and the
/// test runs exactly when that status is `failed` or `error`.
pub proof fn law_decide_steps(
    changed: Seq<Seq<char>>,
    file: Seq<char>,
    deps: Seq<Seq<char>>,
    last: Option<Seq<char>>,
)
    ensures
        spec_decide(changed, file, None, None) == (if changed.contains(file) {
            ImpactStep::Run
        } else {
            ImpactStep::NeedDeps
        }),
        spec_decide(changed, file, Some(deps), None) == (if changed.contains(file) || deps.len() == 0 || (exists|
            i: int,
        | 0 <= i < deps.len() && changed.contains(#[trigger] deps[i])) {
            ImpactStep::Run
        } else {
            ImpactStep::NeedLastResult
        }),
        spec_decide(changed, file, Some(deps), Some(last)) == (if changed.contains(file) || deps.len() == 0 || (exists|
            i: int,
        | 0 <= i < deps.len() && changed.contains(#[trigger] deps[i])) || last == Some("failed"@) || last == Some(
            "error"@,
        ) {
            ImpactStep::Run
        } else {
            ImpactStep::Skip
        }),
{
}

/// The changed files are the files whose hash differs: every path whose
/// stored hash is missing or is another text than its current hash is
/// reported, and every path reported is such a path. When no path occurs
/// twice, a path whose stored hash equals its current hash is not reported.
pub proof fn law_changed_paths_are_edited_files(
    current: Seq<(String, String)>,
    stored: Seq<Option<String>>,
    n: int,
)
    requires
        0 <= n <= current.len(),
        current.len() == stored.len(),
    ensures
        forall|i: int|
            0 <= i < n && (stored[i] is None || stored[i]->0@ != current[i].1@) ==> #[trigger] changed_prefix(
                current,
                stored,
                n,
            ).contains(current[i].0@),
        forall|x: Seq<char>|
            #[trigger] changed_prefix(current, stored, n).contains(x) ==> exists|i: int|
                0 <= i < n && x == current[i].0@ && (stored[i] is None || stored[i]->0@ != current[i].1@),
        (forall|i: int, j: int| 0 <= i < j < n ==> current[i].0@ != current[j].0@) ==> forall|i: int|
            0 <= i < n && stored[i] is Some && stored[i]->0@ == current[i].1@ ==> !#[trigger] changed_prefix(
                current,
                stored,
                n,
            ).contains(current[i].0@),
    decreases n,
{
    if n > 0 {
        law_changed_paths_are_edited_files(current, stored, n - 1);
        let prev = changed_prefix(current, stored, n - 1);
        let cur = changed_prefix(current, stored, n);
        let last_changed = stored[n - 1] is None || stored[n - 1]->0@ != current[n - 1].1@;
        assert(hash_changed(current[n - 1].1@, opt_view(stored[n - 1])) == last_changed);
        assert forall|i: int|
            0 <= i < n && (stored[i] is None || stored[i]->0@ != current[i].1@) implies #[trigger] cur.contains(
            current[i].0@,
        ) by {
            if i < n - 1 {
                assert(prev.contains(current[i].0@));
                let k = choose|k: int| 0 <= k < prev.len() && prev[k] == current[i].0@;
                assert(cur[k] == current[i].0@);
            } else {
                assert(cur[cur.len() - 1] == current[i].0@);
            }
        }
        assert forall|x: Seq<char>| #[trigger] cur.contains(x) implies exists|i: int|
            0 <= i < n && x == current[i].0@ && (stored[i] is None || stored[i]->0@ != current[i].1@) by {
            let k = choose|k: int| 0 <= k < cur.len() && cur[k] == x;
            if k < prev.len() {
                assert(prev[k] == x);
                assert(prev.contains(x));
            } else {
                assert(x == current[n - 1].0@);
            }
        }
        if forall|i: int, j: int| 0 <= i < j < n ==> current[i].0@ != current[j].0@ {
            assert forall|i: int|
                0 <= i < n && stored[i] is Some && stored[i]->0@ == current[i].1@ implies !#[trigger] cur.contains(
                current[i].0@,
            ) by {
                if cur.contains(current[i].0@) {
                    let k = choose|k: int| 0 <= k < cur.len() && cur[k] == current[i].0@;
                    if k < prev.len() {
                        assert(prev[k] == current[i].0@);
                        assert(prev.contains(current[i].0@));
                        if i == n - 1 {
                            let m = choose|m: int|
                                0 <= m < n - 1 && current[i].0@ == current[m].0@ && (stored[m] is None
                                    || stored[m]->0@ != current[m].1@);
                            assert(current[m].0@ != current[n - 1].0@);
                        }
                    } else {
                        assert(cur[k] == current[n - 1].0@);
                        if i < n - 1 {
                            assert(current[i].0@ != current[n - 1].0@);
                        }
                    }
                }
            }
        }
    }
}

} // verus!
