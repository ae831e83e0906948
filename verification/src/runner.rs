//! Test outcomes and the commands that run one test.

use vstd::prelude::*;
use crate::collector::TestItem;
use crate::text::{chars_of, matches_at, occurs_at, push_char, str_eq};

verus! {

/// The outcome of one test.
#[derive(Debug, Clone, Copy, PartialEq, Eq, Structural)]
pub enum TestStatus {
    Passed,
    Failed,
    Error,
    Skipped,
}

/// The name under which a status is stored.
pub open spec fn status_name(s: TestStatus) -> Seq<char> {
    match s {
        TestStatus::Passed => "passed"@,
        TestStatus::Failed => "failed"@,
        TestStatus::Error => "error"@,
        TestStatus::Skipped => "skipped"@,
    }
}

/// The status a stored name stands for; any unknown name reads as an error.
pub open spec fn status_from_name(s: Seq<char>) -> TestStatus {
    if s == "passed"@ {
        TestStatus::Passed
    } else if s == "failed"@ {
        TestStatus::Failed
    } else if s == "skipped"@ {
        TestStatus::Skipped
    } else {
        TestStatus::Error
    }
}

impl TestStatus {
    /// The name under which the status is stored.
    pub fn as_str(&self) -> (r: &'static str)
        ensures
            r@ == status_name(*self),
    {
        match self {
            TestStatus::Passed => "passed",
            TestStatus::Failed => "failed",
            TestStatus::Error => "error",
            TestStatus::Skipped => "skipped",
        }
    }

    /// The status a stored name stands for.
    pub fn from_str(s: &str) -> (r: TestStatus)
        ensures
            r == status_from_name(s@),
    {
        if str_eq(s, "passed") {
            TestStatus::Passed
        } else if str_eq(s, "failed") {
            TestStatus::Failed
        } else if str_eq(s, "skipped") {
            TestStatus::Skipped
        } else {
            TestStatus::Error
        }
    }
}

/// Reading back the stored name of a status gives the status again.
pub proof fn lemma_status_name_round_trip(s: TestStatus)
    ensures
        status_from_name(status_name(s)) == s,
{
    reveal_strlit("passed");
    reveal_strlit("failed");
    reveal_strlit("error");
    reveal_strlit("skipped");
    assert("failed"@[0] == 'f' && "passed"@[0] == 'p' && "skipped"@[0] == 's');
}

/// Whether `w` occurs somewhere in `s`.
pub open spec fn contains_seq(s: Seq<char>, w: Seq<char>) -> bool {
    exists|i: int| occurs_at(s, i, w)
}

/// Whether `w` occurs somewhere in the characters `v`.
pub fn contains_str(v: &Vec<char>, w: &str) -> (b: bool)
    ensures
        b == contains_seq(v@, w@),
{
    let mut i: usize = 0;
    while i < v.len()
        invariant
            i <= v.len(),
            forall|j: int| 0 <= j < i ==> !occurs_at(v@, j, w@),
        decreases v.len() - i,
    {
        if matches_at(v, i, w) {
            return true;
        }
        i = i + 1;
    }
    if matches_at(v, i, w) {
        return true;
    }
    assert forall|j: int| !occurs_at(v@, j, w@) by {
        if 0 <= j <= v.len() {
        }
    }
    false
}

/// The status that pytest's lowercased output reports, falling back on the
/// exit code where the output names none.
pub open spec fn status_from_output_spec(out: Seq<char>, exit_success: bool) -> TestStatus {
    if contains_seq(out, " passed"@) && !contains_seq(out, " failed"@) && !contains_seq(out, " error"@) {
        TestStatus::Passed
    } else if contains_seq(out, " failed"@) || contains_seq(out, "assertionerror"@) || contains_seq(out, "assert "@) {
        TestStatus::Failed
    } else if contains_seq(out, " skipped"@) && !contains_seq(out, " failed"@) {
        TestStatus::Skipped
    } else if contains_seq(out, "error"@) {
        TestStatus::Error
    } else if exit_success {
        TestStatus::Passed
    } else {
        TestStatus::Failed
    }
}

/// Output that reports a failure is never read as a pass: it reads as a
/// failure, whatever else it says and however the process exited.
pub proof fn law_reported_failure_is_failure(out: Seq<char>, exit_success: bool)
    requires
        contains_seq(out, " failed"@),
    ensures
        status_from_output_spec(out, exit_success) == TestStatus::Failed,
{
}

/// The lowercase form of an ASCII text, character by character.
pub open spec fn ascii_lowercase(s: Seq<char>) -> Seq<char> {
    s.map_values(|c: char| ascii_lower(c))
}

/// For ASCII output, reading the status is blind to case. By the contract
/// of `parse_status`, its status for ASCII output `o` is read from
/// `ascii_lowercase(o)`; that text is ASCII again, and reading it lowercased
/// once more gives the same status, so `parse_status` gives the same status
/// for `o` and for `o` lowercased (which is what `to_lowercase` makes of
/// ASCII text).
pub proof fn law_status_ignores_case_of_ascii_output(out: Seq<char>, exit_success: bool)
    requires
        all_ascii(out),
    ensures
        all_ascii(ascii_lowercase(out)),
        status_from_output_spec(ascii_lowercase(ascii_lowercase(out)), exit_success)
            == status_from_output_spec(ascii_lowercase(out), exit_success),
{
    let once = ascii_lowercase(out);
    assert forall|i: int| 0 <= i < once.len() implies (#[trigger] once[i] as u32) < 128 by {
        let c = out[i];
        assert((c as u32) < 128);
        if 'A' <= c && c <= 'Z' {
            assert(('A' as u32) == 65 && ('Z' as u32) == 90);
        }
    }
    assert forall|i: int| 0 <= i < once.len() implies #[trigger] ascii_lower(once[i]) == once[i] by {
        let c = out[i];
        assert((c as u32) < 128);
        if 'A' <= c && c <= 'Z' {
            assert(('A' as u32) == 65 && ('Z' as u32) == 90 && ('a' as u32) == 97);
        }
    }
    assert(ascii_lowercase(once) =~= once);
}

/// The status that pytest's output reports, given that output already
/// lowercased and whether the process exited successfully.
pub fn status_from_output(lowered: &str, exit_success: bool) -> (r: TestStatus)
    ensures
        r == status_from_output_spec(lowered@, exit_success),
{
    let v = chars_of(lowered);
    let passed = contains_str(&v, " passed");
    let failed = contains_str(&v, " failed");
    let error = contains_str(&v, " error");
    if passed && !failed && !error {
        return TestStatus::Passed;
    }
    if failed || contains_str(&v, "assertionerror") || contains_str(&v, "assert ") {
        return TestStatus::Failed;
    }
    if contains_str(&v, " skipped") && !failed {
        return TestStatus::Skipped;
    }
    if contains_str(&v, "error") {
        return TestStatus::Error;
    }
    if exit_success {
        TestStatus::Passed
    } else {
        TestStatus::Failed
    }
}

/// What `str::to_lowercase` returns for a string.
pub uninterp spec fn lowercase(s: Seq<char>) -> Seq<char>;

/// Whether every character of `s` is ASCII.
pub open spec fn all_ascii(s: Seq<char>) -> bool {
    forall|i: int| 0 <= i < s.len() ==> (#[trigger] s[i] as u32) < 128
}

/// The lowercase form of an ASCII character.
pub open spec fn ascii_lower(c: char) -> char {
    if 'A' <= c && c <= 'Z' {
        ((c as u32) + 32) as char
    } else {
        c
    }
}

/// The lowercase form of a string (`str::to_lowercase`).
///
/// Trusted: the result is the named `lowercase` of the argument, a function
/// of the argument alone (the Unicode lowercase mapping); on a string of
/// ASCII characters it turns `A`..`Z` into `a`..`z` and keeps every other
/// character, as the Unicode mapping does for ASCII.
#[verifier::external_body]
fn to_lowercase(s: &str) -> (r: String)
    ensures
        r@ == lowercase(s@),
        all_ascii(s@) ==> r@ == ascii_lowercase(s@),
{
    s.to_lowercase()
}

/// The status of a test from its pytest output and exit code; the output
/// is read without regard to case, and standard error is not read.
pub fn parse_status(stdout: &str, stderr: &str, exit_success: bool) -> (r: TestStatus)
    ensures
        r == status_from_output_spec(lowercase(stdout@), exit_success),
        all_ascii(stdout@) ==> r == status_from_output_spec(ascii_lowercase(stdout@), exit_success),
{
    let lowered = to_lowercase(stdout);
    status_from_output(lowered.as_str(), exit_success)
}

/// The outcome of one test run.
#[derive(Debug, Clone)]
pub struct TestResult {
    pub test_id: String,
    pub file_path: String,
    pub status: TestStatus,
    pub duration_ms: i64,
    pub stdout: Option<String>,
    pub stderr: Option<String>,
    /// Files touched during this test run (from coverage)
    pub covered_files: Vec<String>,
}

/// The views of a sequence of strings.
pub open spec fn string_views(v: Seq<String>) -> Seq<Seq<char>> {
    v.map_values(|s: String| s@)
}

impl TestResult {
    /// The result of running `test`, from what its process printed, how it
    /// exited and how long it took; standard error is kept only when the
    /// process wrote something to it.
    pub fn from_run(
        test: &TestItem,
        duration_ms: i64,
        stdout: String,
        stderr: String,
        exit_success: bool,
        covered_files: Vec<String>,
    ) -> (r: TestResult)
        ensures
            r.test_id@ == test.test_id@,
            r.file_path@ == test.file_path@,
            r.status == status_from_output_spec(lowercase(stdout@), exit_success),
            r.duration_ms == duration_ms,
            r.stdout == Some(stdout),
            r.stderr == (if stderr@.len() == 0 { None } else { Some(stderr) }),
            r.covered_files@ == covered_files@,
    {
        let status = parse_status(stdout.as_str(), stderr.as_str(), exit_success);
        let stderr = if stderr.as_str().unicode_len() == 0 {
            None
        } else {
            Some(stderr)
        };
        TestResult {
            test_id: test.test_id.clone(),
            file_path: test.file_path.clone(),
            status,
            duration_ms,
            stdout: Some(stdout),
            stderr,
            covered_files,
        }
    }

    /// Whether the test failed or could not run.
    pub fn is_failure(&self) -> (b: bool)
        ensures
            b == (self.status == TestStatus::Failed || self.status == TestStatus::Error),
    {
        self.status == TestStatus::Failed || self.status == TestStatus::Error
    }
}

/// Whether any result is a failure or an error: the run then fails.
pub fn any_failed(results: &Vec<TestResult>) -> (b: bool)
    ensures
        b == exists|i: int|
            0 <= i < results.len() && (#[trigger] results@[i].status == TestStatus::Failed
                || results@[i].status == TestStatus::Error),
{
    let mut k: usize = 0;
    while k < results.len()
        invariant
            k <= results.len(),
            forall|i: int|
                0 <= i < k ==> !(#[trigger] results@[i].status == TestStatus::Failed
                    || results@[i].status == TestStatus::Error),
        decreases results.len() - k,
    {
        if results[k].is_failure() {
            return true;
        }
        k = k + 1;
    }
    false
}

/// How tests are run: how many at once, with which interpreter, and
/// whether under coverage measurement.
pub struct Runner {
    pub workers: usize,
    pub python_bin: String,
    pub with_coverage: bool,
    pub coverage_dir: String,
}

/// The directory that per-test coverage data goes to.
pub open spec fn default_coverage_dir() -> Seq<char> {
    ".riptide-coverage"@
}

/// A test id with each `/`, `:` and `.` replaced by `_`, so that it can
/// stand in a file name.
pub open spec fn safe_id(id: Seq<char>) -> Seq<char> {
    id.map_values(|c: char| if c == '/' || c == ':' || c == '.' { '_' } else { c })
}

/// `dir` joined with a relative file name, as `Path::join` does it: a
/// separator is put between them unless `dir` is empty or already ends in one.
pub open spec fn join_path(dir: Seq<char>, name: Seq<char>) -> Seq<char> {
    if dir.len() == 0 || dir.last() == '/' {
        dir + name
    } else {
        dir + seq!['/'] + name
    }
}

/// The file that the coverage data of the test with this id goes to.
pub open spec fn coverage_data_path(dir: Seq<char>, id: Seq<char>) -> Seq<char> {
    join_path(dir, ".coverage."@ + safe_id(id))
}

/// The JSON report that `coverage json` writes for the test with this id:
/// its data file's name with `.json` added.
pub open spec fn coverage_report_path(dir: Seq<char>, id: Seq<char>) -> Seq<char> {
    join_path(dir, ".coverage."@ + safe_id(id) + ".json"@)
}

/// Joining a directory with two names that share a first part gives the
/// same path only for the same second part.
proof fn lemma_join_suffix(dir: Seq<char>, pre: Seq<char>, x: Seq<char>, y: Seq<char>)
    requires
        join_path(dir, pre + x) == join_path(dir, pre + y),
    ensures
        x == y,
{
    let head = if dir.len() == 0 || dir.last() == '/' {
        dir + pre
    } else {
        dir + seq!['/'] + pre
    };
    assert(join_path(dir, pre + x) =~= head + x);
    assert(join_path(dir, pre + y) =~= head + y);
    assert(x =~= (head + x).subrange(head.len() as int, (head + x).len() as int));
    assert(y =~= (head + y).subrange(head.len() as int, (head + y).len() as int));
}


/// The arguments after the interpreter that run one test.
pub open spec fn pytest_args(with_coverage: bool, data_file: Seq<char>, node_id: Seq<char>) -> Seq<Seq<char>> {
    if with_coverage {
        seq![
            "-m"@, "coverage"@, "run"@, "--data-file"@, data_file, "--source=."@, "--branch"@,
            "-m"@, "pytest"@, node_id, "-x"@, "--tb=short"@, "-q"@, "--no-header"@,
        ]
    } else {
        seq!["-m"@, "pytest"@, node_id, "-x"@, "--tb=short"@, "-q"@, "--no-header"@]
    }
}

/// Appends a string literal to a list of arguments.
fn push_arg(args: &mut Vec<String>, a: &str)
    ensures
        string_views(final(args)@) == string_views(old(args)@).push(a@),
{
    let ghost before = args@;
    args.push(String::from_str(a));
    assert(string_views(args@) =~= string_views(before).push(a@));
}

/// Appends a string to a list of arguments.
fn push_owned_arg(args: &mut Vec<String>, a: String)
    ensures
        string_views(final(args)@) == string_views(old(args)@).push(a@),
{
    let ghost before = args@;
    args.push(a);
    assert(string_views(args@) =~= string_views(before).push(a@));
}

/// Tests whose ids still differ once every `/`, `:` and `.` is read as
/// `_` never share a coverage data file, nor a JSON report, so such tests
/// never write the same file when they run at once. (Ids that agree after
/// that replacement, such as `a/b.py::t` and `a_b.py::t`, do share them.)
pub proof fn law_coverage_files_per_test(dir: Seq<char>, a: Seq<char>, b: Seq<char>)
    ensures
        coverage_data_path(dir, a) == coverage_data_path(dir, b) <==> safe_id(a) == safe_id(b),
        coverage_report_path(dir, a) == coverage_report_path(dir, b) <==> safe_id(a) == safe_id(b),
{
    if coverage_data_path(dir, a) == coverage_data_path(dir, b) {
        lemma_join_suffix(dir, ".coverage."@, safe_id(a), safe_id(b));
    }
    let xa = safe_id(a) + ".json"@;
    let xb = safe_id(b) + ".json"@;
    assert(".coverage."@ + safe_id(a) + ".json"@ =~= ".coverage."@ + xa);
    assert(".coverage."@ + safe_id(b) + ".json"@ =~= ".coverage."@ + xb);
    if coverage_report_path(dir, a) == coverage_report_path(dir, b) {
        lemma_join_suffix(dir, ".coverage."@, xa, xb);
        assert(safe_id(a) =~= xa.subrange(0, safe_id(a).len() as int));
        assert(safe_id(b) =~= xb.subrange(0, safe_id(b).len() as int));
    }
}

/// The arguments after the interpreter that turn a coverage data file into
/// a JSON report.
pub open spec fn coverage_json_args(data_file: Seq<char>, report: Seq<char>) -> Seq<Seq<char>> {
    seq!["-m"@, "coverage"@, "json"@, "--data-file"@, data_file, "-o"@, report, "-q"@]
}

impl Runner {
    pub fn new(workers: usize, python_bin: &str, with_coverage: bool) -> (r: Runner)
        ensures
            r.workers == workers,
            r.python_bin@ == python_bin@,
            r.with_coverage == with_coverage,
            r.coverage_dir@ == default_coverage_dir(),
    {
        Runner {
            workers,
            python_bin: String::from_str(python_bin),
            with_coverage,
            coverage_dir: String::from_str(".riptide-coverage"),
        }
    }

    /// Appends `id` to `p` with each `/`, `:` and `.` replaced by `_`.
    fn push_safe_id(p: &mut String, id: &str)
        ensures
            final(p)@ == old(p)@ + safe_id(id@),
    {
        let v = chars_of(id);
        let ghost base = p@;
        let mut k: usize = 0;
        while k < v.len()
            invariant
                k <= v.len(),
                v@ == id@,
                p@ == base + safe_id(v@.subrange(0, k as int)),
            decreases v.len() - k,
        {
            let c = v[k];
            let d = if c == '/' || c == ':' || c == '.' {
                '_'
            } else {
                c
            };
            push_char(p, d);
            assert(safe_id(v@.subrange(0, k + 1)) =~= safe_id(v@.subrange(0, k as int)).push(d));
            k = k + 1;
        }
        assert(v@.subrange(0, v.len() as int) =~= v@);
    }

    /// The file that the coverage data of `test` goes to: `.coverage.` and
    /// the test id with `/`, `:` and `.` read as `_`.
    pub fn coverage_data_file(&self, test: &TestItem) -> (p: String)
        ensures
            p@ == coverage_data_path(self.coverage_dir@, test.test_id@),
    {
        let dir = chars_of(self.coverage_dir.as_str());
        let mut p = self.coverage_dir.clone();
        if dir.len() > 0 && dir[dir.len() - 1] != '/' {
            push_char(&mut p, '/');
        }
        p.append(".coverage.");
        Self::push_safe_id(&mut p, test.test_id.as_str());
        assert(p@ =~= coverage_data_path(self.coverage_dir@, test.test_id@));
        p
    }

    /// The JSON report file that `coverage json` writes for `test`'s data:
    /// the data file's name with `.json` added.
    pub fn coverage_report_file(&self, test: &TestItem) -> (p: String)
        ensures
            p@ == coverage_report_path(self.coverage_dir@, test.test_id@),
    {
        let mut p = self.coverage_data_file(test);
        p.append(".json");
        assert(p@ =~= coverage_report_path(self.coverage_dir@, test.test_id@));
        p
    }

    /// The arguments after the interpreter that write the JSON coverage
    /// report of `test`'s data file.
    pub fn coverage_json_command_args(&self, test: &TestItem) -> (args: Vec<String>)
        ensures
            string_views(args@) == coverage_json_args(
                coverage_data_path(self.coverage_dir@, test.test_id@),
                coverage_report_path(self.coverage_dir@, test.test_id@),
            ),
    {
        let mut args: Vec<String> = Vec::new();
        push_arg(&mut args, "-m");
        push_arg(&mut args, "coverage");
        push_arg(&mut args, "json");
        push_arg(&mut args, "--data-file");
        push_owned_arg(&mut args, self.coverage_data_file(test));
        push_arg(&mut args, "-o");
        push_owned_arg(&mut args, self.coverage_report_file(test));
        push_arg(&mut args, "-q");
        assert(string_views(args@) =~= coverage_json_args(
            coverage_data_path(self.coverage_dir@, test.test_id@),
            coverage_report_path(self.coverage_dir@, test.test_id@),
        ));
        args
    }

    /// The arguments after the interpreter that run `test` under pytest,
    /// through `coverage run` when coverage is on.
    pub fn command_args(&self, test: &TestItem) -> (args: Vec<String>)
        ensures
            string_views(args@) == pytest_args(
                self.with_coverage,
                coverage_data_path(self.coverage_dir@, test.test_id@),
                test.spec_pytest_nodeid(),
            ),
    {
        let node_id = test.pytest_nodeid();
        let mut args: Vec<String> = Vec::new();
        push_arg(&mut args, "-m");
        if self.with_coverage {
            let data_file = self.coverage_data_file(test);
            push_arg(&mut args, "coverage");
            push_arg(&mut args, "run");
            push_arg(&mut args, "--data-file");
            push_owned_arg(&mut args, data_file);
            push_arg(&mut args, "--source=.");
            push_arg(&mut args, "--branch");
            push_arg(&mut args, "-m");
        }
        push_arg(&mut args, "pytest");
        push_owned_arg(&mut args, node_id);
        push_arg(&mut args, "-x");
        push_arg(&mut args, "--tb=short");
        push_arg(&mut args, "-q");
        push_arg(&mut args, "--no-header");
        assert(string_views(args@) =~= pytest_args(
            self.with_coverage,
            coverage_data_path(self.coverage_dir@, test.test_id@),
            test.spec_pytest_nodeid(),
        ));
        args
    }
}

/// Whether the text `w` stands somewhere in `out`.
pub open spec fn text_contains(out: Seq<char>, w: Seq<char>) -> bool {
    exists|i: int| 0 <= i && i + w.len() <= out.len() && #[trigger] out.subrange(i, i + w.len()) == w
}

proof fn lemma_contains_seq_is_text_contains(out: Seq<char>, w: Seq<char>)
    ensures
        contains_seq(out, w) == text_contains(out, w),
{
    if contains_seq(out, w) {
        let i = choose|i: int| occurs_at(out, i, w);
        assert(out.subrange(i, i + w.len()) == w);
    }
    if text_contains(out, w) {
        let i = choose|i: int| 0 <= i && i + w.len() <= out.len() && #[trigger] out.subrange(i, i + w.len()) == w;
        assert(occurs_at(out, i, w));
    }
}

/// How pytest's (lowercased) output reads, rule by rule: a pass reported
/// with no failure and no error is a pass, whatever else (skips, say) it
/// reports; otherwise a failure or an assertion is a failure; otherwise a
/// skip with no failure is a skip; otherwise any error is an error; and
/// output that names none of these is read from the exit code.
pub proof fn law_status_reading(out: Seq<char>, exit_success: bool)
    ensures
        ({
            let passed = text_contains(out, " passed"@);
            let failed = text_contains(out, " failed"@);
            let error_word = text_contains(out, " error"@);
            let assertion = text_contains(out, "assertionerror"@) || text_contains(out, "assert "@);
            let skipped = text_contains(out, " skipped"@);
            let any_error = text_contains(out, "error"@);
            let st = status_from_output_spec(out, exit_success);
            &&& (passed && !failed && !error_word) ==> st == TestStatus::Passed
            &&& (!(passed && !failed && !error_word) && (failed || assertion)) ==> st == TestStatus::Failed
            &&& (!(passed && !error_word) && !failed && !assertion && skipped) ==> st == TestStatus::Skipped
            &&& (!(passed && !error_word) && !failed && !assertion && !skipped && any_error) ==> st
                == TestStatus::Error
            &&& (!passed && !failed && !assertion && !skipped && !any_error) ==> st == (if exit_success {
                TestStatus::Passed
            } else {
                TestStatus::Failed
            })
        }),
{
    lemma_contains_seq_is_text_contains(out, " passed"@);
    lemma_contains_seq_is_text_contains(out, " failed"@);
    lemma_contains_seq_is_text_contains(out, " error"@);
    lemma_contains_seq_is_text_contains(out, "assertionerror"@);
    lemma_contains_seq_is_text_contains(out, "assert "@);
    lemma_contains_seq_is_text_contains(out, " skipped"@);
    lemma_contains_seq_is_text_contains(out, "error"@);
}

} // verus!
