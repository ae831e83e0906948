//! The stages of a run and what decides between them.

use vstd::prelude::*;
use crate::collector::{item_models, TestItem, TestItemModel};
use crate::impact::{selected, ImpactAnalyzer, TestHistory};
use crate::runner::TestResult;

verus! {

/// Where a run stands.
#[derive(Debug, Clone, Copy, PartialEq, Eq, Structural)]
pub enum RunStage {
    /// Looking for the test paths that exist.
    FindPaths,
    /// Collecting tests from the paths found.
    Collect,
    /// Choosing the tests to run.
    Select,
    /// Running the chosen tests.
    Execute,
    /// Finished, with this exit code.
    Done(i32),
}

/// The stage after `stage`, given what that stage counted: the paths that
/// exist, the tests collected, the tests chosen, or the tests that failed
/// or erred. A run without paths fails; one with no tests or nothing to run
/// succeeds at once; a run with a failing test fails.
pub open spec fn spec_advance(stage: RunStage, count: nat) -> RunStage {
    match stage {
        RunStage::FindPaths => if count == 0 {
            RunStage::Done(1)
        } else {
            RunStage::Collect
        },
        RunStage::Collect => if count == 0 {
            RunStage::Done(0)
        } else {
            RunStage::Select
        },
        RunStage::Select => if count == 0 {
            RunStage::Done(0)
        } else {
            RunStage::Execute
        },
        RunStage::Execute => if count > 0 {
            RunStage::Done(1)
        } else {
            RunStage::Done(0)
        },
        RunStage::Done(code) => RunStage::Done(code),
    }
}

/// The stage after `stage`, given what that stage counted.
pub fn advance(stage: RunStage, count: usize) -> (next: RunStage)
    ensures
        next == spec_advance(stage, count as nat),
{
    match stage {
        RunStage::FindPaths => if count == 0 {
            RunStage::Done(1)
        } else {
            RunStage::Collect
        },
        RunStage::Collect => if count == 0 {
            RunStage::Done(0)
        } else {
            RunStage::Select
        },
        RunStage::Select => if count == 0 {
            RunStage::Done(0)
        } else {
            RunStage::Execute
        },
        RunStage::Execute => if count > 0 {
            RunStage::Done(1)
        } else {
            RunStage::Done(0)
        },
        RunStage::Done(code) => RunStage::Done(code),
    }
}

/// The number of workers: the number asked for, or, when that is zero,
/// the parallelism the machine offers, four when it cannot tell.
pub fn worker_count(requested: usize, available: Option<usize>) -> (n: usize)
    ensures
        n == (if requested > 0 {
            requested
        } else {
            match available {
                Some(a) => a,
                None => 4,
            }
        }),
{
    if requested > 0 {
        requested
    } else {
        match available {
            Some(a) => a,
            None => 4,
        }
    }
}

/// The tests to run and the tests skipped: with `all`, every test runs;
/// otherwise impact analysis decides, with `histories[i]` the history of
/// `tests[i]`.
pub fn choose_tests(all: bool, analyzer: &ImpactAnalyzer, tests: &[TestItem], histories: &[TestHistory]) -> (r: (
    Vec<TestItem>,
    Vec<TestItem>,
))
    requires
        !all ==> tests.len() == histories.len(),
    ensures
        all ==> item_models(r.0@) == item_models(tests@) && r.1@.len() == 0,
        !all ==> item_models(r.0@) == selected(analyzer@, tests@, histories@, tests.len() as int, true),
        !all ==> item_models(r.1@) == selected(analyzer@, tests@, histories@, tests.len() as int, false),
{
    if all {
        let mut every: Vec<TestItem> = Vec::new();
        let mut k: usize = 0;
        while k < tests.len()
            invariant
                k <= tests.len(),
                item_models(every@) == item_models(tests@.take(k as int)),
            decreases tests.len() - k,
        {
            let ghost before = every@;
            let t = tests[k].clone();
            every.push(t);
            assert(tests@.take(k + 1) =~= tests@.take(k as int).push(tests@[k as int]));
            assert(item_models(every@) =~= item_models(before).push(t@));
            assert(item_models(tests@.take(k + 1)) =~= item_models(tests@.take(k as int)).push(tests@[k as int]@));
            k = k + 1;
        }
        assert(tests@.take(tests.len() as int) =~= tests@);
        (every, Vec::new())
    } else {
        analyzer.filter_affected(tests, histories)
    }
}

/// Whether a result's dependencies are to be recorded: only when its run
/// measured some, so that a run without coverage keeps the recorded graph.
pub fn records_dependencies(result: &TestResult) -> (b: bool)
    ensures
        b == (result.covered_files.len() > 0),
{
    result.covered_files.len() > 0
}

/// A run ends with a non-zero exit code exactly when no test path exists
/// or some test that ran failed or erred.
pub proof fn law_exit_code(paths: nat, tests: nat, chosen: nat, failures: nat)
    ensures
        ({
            let s1 = spec_advance(RunStage::FindPaths, paths);
            let s2 = spec_advance(s1, tests);
            let s3 = spec_advance(s2, chosen);
            let s4 = spec_advance(s3, failures);
            &&& s4 is Done
            &&& (s4 == RunStage::Done(1) <==> (paths == 0 || (tests > 0 && chosen > 0 && failures > 0)))
            &&& (s4 == RunStage::Done(0) <==> !(paths == 0 || (tests > 0 && chosen > 0 && failures > 0)))
        }),
{
}

} // verus!
