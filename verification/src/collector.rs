//! Discovery of pytest test functions in Python source text.

use vstd::prelude::*;
use crate::pattern::{regex_is_match, FilePattern};
use crate::text::{
    chars_of, copy_opt_string, copy_range, is_white_space, matches_at, node_sep, occurs_at, push_node_sep, str_eq, string_of_range,
    unicode_word_char, white_space, word_char,
};

verus! {

/// One discovered test function.
#[derive(Debug)]
pub struct TestItem {
    /// Node id: `path/to/test_file.py::test_function_name`, or with the class between
    pub test_id: String,
    pub file_path: String,
    pub function_name: String,
    pub class_name: Option<String>,
}

impl Clone for TestItem {
    fn clone(&self) -> (r: TestItem)
        ensures
            r == *self,
    {
        TestItem {
            test_id: self.test_id.clone(),
            file_path: self.file_path.clone(),
            function_name: self.function_name.clone(),
            class_name: copy_opt_string(&self.class_name),
        }
    }
}

/// What a `TestItem` holds, as sequences of characters.
pub struct TestItemModel {
    pub test_id: Seq<char>,
    pub file_path: Seq<char>,
    pub function_name: Seq<char>,
    pub class_name: Option<Seq<char>>,
}

impl View for TestItem {
    type V = TestItemModel;

    open spec fn view(&self) -> TestItemModel {
        TestItemModel {
            test_id: self.test_id@,
            file_path: self.file_path@,
            function_name: self.function_name@,
            class_name: class_view(self.class_name),
        }
    }
}

/// The models of a sequence of items.
pub open spec fn item_models(v: Seq<TestItem>) -> Seq<TestItemModel> {
    v.map_values(|t: TestItem| t@)
}

/// The item for function `func` of file `file`, inside class `class` or not.
pub open spec fn item_model(file: Seq<char>, class: Option<Seq<char>>, func: Seq<char>) -> TestItemModel {
    TestItemModel {
        test_id: spec_nodeid(file, class, func),
        file_path: file,
        function_name: func,
        class_name: class,
    }
}

/// The pytest node id of a function in a file, inside a class or not.
pub open spec fn spec_nodeid(file: Seq<char>, class: Option<Seq<char>>, func: Seq<char>) -> Seq<char> {
    match class {
        Some(cls) => file + node_sep() + cls + node_sep() + func,
        None => file + node_sep() + func,
    }
}

/// The class name of an item as a sequence of characters.
pub open spec fn class_view(c: Option<String>) -> Option<Seq<char>> {
    match c {
        Some(s) => Some(s@),
        None => None,
    }
}

impl TestItem {
    /// The node id that pytest accepts for this item.
    pub open spec fn spec_pytest_nodeid(&self) -> Seq<char> {
        spec_nodeid(self.file_path@, class_view(self.class_name), self.function_name@)
    }

    /// The item for function `function_name` of file `file_path`, inside
    /// class `class_name` or not; its id is its pytest node id.
    pub fn new(file_path: &str, class_name: Option<String>, function_name: String) -> (res: TestItem)
        ensures
            res@ == item_model(file_path@, class_view(class_name), function_name@),
    {
        let mut id = String::from_str(file_path);
        push_node_sep(&mut id);
        match &class_name {
            Some(cls) => {
                id.append(cls.as_str());
                push_node_sep(&mut id);
            },
            None => {},
        }
        id.append(function_name.as_str());
        TestItem {
            test_id: id,
            file_path: String::from_str(file_path),
            function_name,
            class_name,
        }
    }

    /// `file::Class::function` or `file::function`.
    pub fn pytest_nodeid(&self) -> (res: String)
        ensures
            res@ == self.spec_pytest_nodeid(),
    {
        let mut s = self.file_path.clone();
        push_node_sep(&mut s);
        match &self.class_name {
            Some(cls) => {
                s.append(cls.as_str());
                push_node_sep(&mut s);
            },
            None => {},
        }
        s.append(self.function_name.as_str());
        s
    }
}


/// Length of the run of white space in `l` that starts at `i`.
pub open spec fn ws_len(l: Seq<char>, i: int) -> nat
    decreases l.len() - i,
{
    if 0 <= i < l.len() && is_white_space(l[i]) {
        1 + ws_len(l, i + 1)
    } else {
        0
    }
}

/// Length of the run of word characters in `l` that starts at `i`.
pub open spec fn word_len(l: Seq<char>, i: int) -> nat
    decreases l.len() - i,
{
    if 0 <= i < l.len() && unicode_word_char(l[i]) {
        1 + word_len(l, i + 1)
    } else {
        0
    }
}

pub open spec fn kw_class() -> Seq<char> {
    seq!['c', 'l', 'a', 's', 's']
}

pub open spec fn kw_test_class() -> Seq<char> {
    seq!['T', 'e', 's', 't']
}

pub open spec fn kw_def() -> Seq<char> {
    seq!['d', 'e', 'f']
}

pub open spec fn kw_test_fn() -> Seq<char> {
    seq!['t', 'e', 's', 't', '_']
}

/// A line that opens a test class, `^class\s+(Test\w*)\s*[:(]`: the
/// bounds of the class name in the line.
pub open spec fn class_line(l: Seq<char>) -> Option<(int, int)> {
    let a = 5int;
    let b = a + ws_len(l, a);
    let c = b + 4 + word_len(l, b + 4);
    let d = c + ws_len(l, c);
    if occurs_at(l, 0, kw_class()) && ws_len(l, a) >= 1 && occurs_at(l, b, kw_test_class())
        && d < l.len() && (l[d] == ':' || l[d] == '(') {
        Some((b, c))
    } else {
        None
    }
}

/// A line that defines a test function, `^(\s*)def\s+(test_\w+)\s*\(`:
/// the length of its indentation and the bounds of the function name.
pub open spec fn def_line(l: Seq<char>) -> Option<(int, int, int)> {
    let a = ws_len(l, 0) as int;
    let b = a + 3;
    let c = b + ws_len(l, b);
    let e = c + 5 + word_len(l, c + 5);
    let f = e + ws_len(l, e);
    if occurs_at(l, a, kw_def()) && ws_len(l, b) >= 1 && occurs_at(l, c, kw_test_fn())
        && word_len(l, c + 5) >= 1 && f < l.len() && l[f] == '(' {
        Some((a, c, e))
    } else {
        None
    }
}

/// End of the white-space run in `l` that starts at `i`.
fn ws_end(l: &Vec<char>, i: usize) -> (r: usize)
    requires
        i <= l.len(),
    ensures
        r == i + ws_len(l@, i as int),
        r <= l.len(),
{
    let mut j = i;
    while j < l.len() && white_space(l[j])
        invariant
            i <= j <= l.len(),
            ws_len(l@, i as int) == (j - i) + ws_len(l@, j as int),
        decreases l.len() - j,
    {
        j = j + 1;
    }
    j
}

/// End of the word-character run in `l` that starts at `i`.
fn word_end(l: &Vec<char>, i: usize) -> (r: usize)
    requires
        i <= l.len(),
    ensures
        r == i + word_len(l@, i as int),
        r <= l.len(),
{
    let mut j = i;
    while j < l.len() && word_char(l[j])
        invariant
            i <= j <= l.len(),
            word_len(l@, i as int) == (j - i) + word_len(l@, j as int),
        decreases l.len() - j,
    {
        j = j + 1;
    }
    j
}

/// Recognises a line that opens a test class; returns the bounds of its name.
pub fn match_class_line(l: &Vec<char>) -> (r: Option<(usize, usize)>)
    ensures
        match r {
            Some((b, c)) => class_line(l@) == Some((b as int, c as int)),
            None => class_line(l@) is None,
        },
{
    proof {
        reveal_strlit("class");
        reveal_strlit("Test");
        assert("class"@ =~= kw_class());
        assert("Test"@ =~= kw_test_class());
    }
    if !matches_at(l, 0, "class") {
        return None;
    }
    let b = ws_end(l, 5);
    if b == 5 || !matches_at(l, b, "Test") {
        return None;
    }
    let c = word_end(l, b + 4);
    let d = ws_end(l, c);
    if d < l.len() && (l[d] == ':' || l[d] == '(') {
        Some((b, c))
    } else {
        None
    }
}

/// Recognises a line that opens a class other than a test class.
pub fn opens_other_class(l: &Vec<char>) -> (b: bool)
    ensures
        b == other_class_line(l@),
{
    proof {
        reveal_strlit("class");
        assert("class"@ =~= kw_class());
    }
    matches_at(l, 0, "class") && ws_end(l, 5) > 5 && match_class_line(l).is_none()
}

/// Recognises a line that defines a test function; returns the length of
/// its indentation and the bounds of the function name.
pub fn match_def_line(l: &Vec<char>) -> (r: Option<(usize, usize, usize)>)
    ensures
        match r {
            Some((a, c, e)) => def_line(l@) == Some((a as int, c as int, e as int)),
            None => def_line(l@) is None,
        },
{
    proof {
        reveal_strlit("def");
        reveal_strlit("test_");
        assert("def"@ =~= kw_def());
        assert("test_"@ =~= kw_test_fn());
    }
    let a = ws_end(l, 0);
    if !matches_at(l, a, "def") {
        return None;
    }
    let b = a + 3;
    let c = ws_end(l, b);
    if c == b || !matches_at(l, c, "test_") {
        return None;
    }
    let e = word_end(l, c + 5);
    if e == c + 5 {
        return None;
    }
    let f = ws_end(l, e);
    if f < l.len() && l[f] == '(' {
        Some((a, c, e))
    } else {
        None
    }
}

/// Index of the first line feed in `s` at or after `i` (the length of `s`
/// when there is none).
pub open spec fn next_newline(s: Seq<char>, i: int) -> int
    decreases s.len() - i,
{
    if i < 0 || i >= s.len() {
        s.len() as int
    } else if s[i] == '\n' {
        i
    } else {
        next_newline(s, i + 1)
    }
}

pub proof fn lemma_next_newline(s: Seq<char>, i: int)
    requires
        0 <= i <= s.len(),
    ensures
        i <= next_newline(s, i) <= s.len(),
        next_newline(s, i) < s.len() ==> s[next_newline(s, i)] == '\n',
        forall|j: int| i <= j < next_newline(s, i) ==> s[j] != '\n',
    decreases s.len() - i,
{
    if i < s.len() && s[i] != '\n' {
        lemma_next_newline(s, i + 1);
    }
}

/// A line without the carriage return that ends it, if any.
pub open spec fn strip_cr(l: Seq<char>) -> Seq<char> {
    if l.len() > 0 && l.last() == '\r' {
        l.drop_last()
    } else {
        l
    }
}

/// The lines of `s` from position `i` on, as `str::lines` gives them: split
/// at each line feed, a carriage return before a line feed dropped, and no
/// empty line after a final line feed.
pub open spec fn lines_from(s: Seq<char>, i: int) -> Seq<Seq<char>>
    decreases s.len() - i,
{
    if i < 0 || i >= s.len() {
        seq![]
    } else {
        proof {
            lemma_next_newline(s, i);
        }
        let e = next_newline(s, i);
        let raw = s.subrange(i, e);
        if e < s.len() {
            seq![strip_cr(raw)] + lines_from(s, e + 1)
        } else {
            seq![raw]
        }
    }
}

/// The lines of a text.
pub open spec fn text_lines(s: Seq<char>) -> Seq<Seq<char>> {
    lines_from(s, 0)
}

/// A line that opens a class other than a test class: `class` at the start
/// of the line, then white space.
pub open spec fn other_class_line(l: Seq<char>) -> bool {
    occurs_at(l, 0, kw_class()) && ws_len(l, 5) >= 1 && class_line(l) is None
}

/// The effect of one line on the scan: the class we are in and the items
/// found so far. A `class Test…` line opens a test class; any other class
/// line at the start of a line closes it, and so does a top-level test
/// function; an indented test function belongs to the open test class.
pub open spec fn scan_line(
    file: Seq<char>,
    st: (Option<Seq<char>>, Seq<TestItemModel>),
    l: Seq<char>,
) -> (Option<Seq<char>>, Seq<TestItemModel>) {
    match class_line(l) {
        Some((b, c)) => (Some(l.subrange(b, c)), st.1),
        None => match def_line(l) {
            Some((a, c, e)) => {
                let cls = if a > 0 {
                    st.0
                } else {
                    None
                };
                (cls, st.1.push(item_model(file, cls, l.subrange(c, e))))
            },
            None => if other_class_line(l) {
                (None, st.1)
            } else {
                st
            },
        },
    }
}

/// Only a `class Test…` line opens a class context: after any other line
/// the scan is in no class or in the one it was in before; a class line
/// that opens another class closes it.
pub proof fn law_only_test_classes_open_context(file: Seq<char>, st: (Option<Seq<char>>, Seq<TestItemModel>), l: Seq<char>)
    ensures
        class_line(l) is None ==> (scan_line(file, st, l).0 is None || scan_line(file, st, l).0 == st.0),
        other_class_line(l) ==> scan_line(file, st, l) == (None::<Seq<char>>, st.1),
{
}

/// The state of the scan after the given lines of a file.
pub open spec fn scan_lines(file: Seq<char>, lines: Seq<Seq<char>>) -> (Option<Seq<char>>, Seq<TestItemModel>)
    decreases lines.len(),
{
    if lines.len() == 0 {
        (None, seq![])
    } else {
        scan_line(file, scan_lines(file, lines.drop_last()), lines.last())
    }
}

/// The test items that a file with this content holds.
pub open spec fn tests_in_source(file: Seq<char>, content: Seq<char>) -> Seq<TestItemModel> {
    scan_lines(file, text_lines(content)).1
}

/// Scans the content of a Python file for test functions, top-level and
/// inside `class Test*` blocks, and appends one item per function found.
pub fn collect_from_source(file_path: &str, content: &str, items: &mut Vec<TestItem>)
    ensures
        item_models(final(items)@) == item_models(old(items)@) + tests_in_source(file_path@, content@),
{
    let v = chars_of(content);
    let mut pos: usize = 0;
    let mut current: Option<String> = None;
    let ghost mut done: Seq<Seq<char>> = seq![];
    let ghost start = item_models(items@);
    while pos < v.len()
        invariant
            pos <= v.len(),
            v@ == content@,
            text_lines(v@) == done + lines_from(v@, pos as int),
            class_view(current) == scan_lines(file_path@, done).0,
            item_models(items@) == start + scan_lines(file_path@, done).1,
        decreases v.len() - pos,
    {
        let mut e = pos;
        while e < v.len() && v[e] != '\n'
            invariant
                pos <= e <= v.len(),
                next_newline(v@, pos as int) == next_newline(v@, e as int),
            decreases v.len() - e,
        {
            e = e + 1;
        }
        let ghost raw = v@.subrange(pos as int, e as int);
        let mut end = e;
        if e < v.len() && e > pos && v[e - 1] == '\r' {
            end = e - 1;
        }
        let line = copy_range(&v, pos, end);
        assert(line@ == (if e < v.len() { strip_cr(raw) } else { raw })) by {
            if e < v.len() && raw.len() > 0 && raw.last() == '\r' {
                assert(raw.drop_last() =~= v@.subrange(pos as int, end as int));
            }
        }
        assert(lines_from(v@, pos as int) =~= seq![line@] + lines_from(v@, e + 1));
        let ghost before = scan_lines(file_path@, done);
        match match_class_line(&line) {
            Some((b, c)) => {
                current = Some(string_of_range(&line, b, c));
            },
            None => match match_def_line(&line) {
                Some((a, c, e2)) => {
                    let func = string_of_range(&line, c, e2);
                    let cls = if a > 0 {
                        copy_opt_string(&current)
                    } else {
                        current = None;
                        None
                    };
                    let item = TestItem::new(file_path, cls, func);
                    let ghost old_items = items@;
                    items.push(item);
                    assert(item_models(items@) =~= item_models(old_items).push(item@));
                },
                None => {
                    if opens_other_class(&line) {
                        current = None;
                    }
                },
            },
        }
        proof {
            let nd = done.push(line@);
            assert(nd.drop_last() =~= done);
            assert(text_lines(v@) =~= nd + lines_from(v@, e + 1));
            done = nd;
        }
        pos = if e < v.len() {
            e + 1
        } else {
            e
        };
    }
    assert(done =~= text_lines(v@));
}

/// `.py`, the extension of Python source files.
pub open spec fn kw_py_ext() -> Seq<char> {
    seq!['.', 'p', 'y']
}

/// Whether a file name has the extension `py`, as `Path::extension` sees
/// it: the part after the last dot, where that dot is not the first
/// character of the name.
pub open spec fn has_py_extension(name: Seq<char>) -> bool {
    name.len() >= 4 && name.subrange(name.len() - 3, name.len() as int) == kw_py_ext()
}

/// Directory names that test discovery never enters.
pub open spec fn is_excluded_dir(c: Seq<char>) -> bool {
    ||| c == seq!['.', 'g', 'i', 't']
    ||| c == seq!['_', '_', 'p', 'y', 'c', 'a', 'c', 'h', 'e', '_', '_']
    ||| c == seq!['.', 'v', 'e', 'n', 'v']
    ||| c == seq!['v', 'e', 'n', 'v']
}

/// Whether a file name has the extension `py`.
pub fn is_python_file(file_name: &str) -> (b: bool)
    ensures
        b == has_py_extension(file_name@),
{
    let v = chars_of(file_name);
    proof {
        reveal_strlit(".py");
        assert(".py"@ =~= kw_py_ext());
    }
    if v.len() < 4 {
        return false;
    }
    matches_at(&v, v.len() - 3, ".py")
}

/// Whether a path component is one that discovery skips.
pub fn is_excluded_component(c: &str) -> (b: bool)
    ensures
        b == is_excluded_dir(c@),
{
    proof {
        reveal_strlit(".git");
        reveal_strlit("__pycache__");
        reveal_strlit(".venv");
        reveal_strlit("venv");
        assert(".git"@ =~= seq!['.', 'g', 'i', 't']);
        assert("__pycache__"@ =~= seq!['_', '_', 'p', 'y', 'c', 'a', 'c', 'h', 'e', '_', '_']);
        assert(".venv"@ =~= seq!['.', 'v', 'e', 'n', 'v']);
        assert("venv"@ =~= seq!['v', 'e', 'n', 'v']);
    }
    str_eq(c, ".git") || str_eq(c, "__pycache__") || str_eq(c, ".venv") || str_eq(c, "venv")
}

/// Whether a file found while walking a directory is a test file: a
/// Python file whose name the pattern matches (the whole name, for a
/// pattern made by `FilePattern::whole_name`), with no excluded directory
/// among the components of its path.
pub fn is_test_file_in_walk(components: &Vec<String>, file_name: &str, pattern: &FilePattern) -> (b: bool)
    ensures
        b == (has_py_extension(file_name@) && regex_is_match(pattern@, file_name@) && forall|i: int|
            0 <= i < components.len() ==> !is_excluded_dir(#[trigger] components@[i]@)),
{
    if !is_python_file(file_name) || !pattern.is_match(file_name) {
        return false;
    }
    let mut k: usize = 0;
    while k < components.len()
        invariant
            k <= components.len(),
            forall|i: int| 0 <= i < k ==> !is_excluded_dir(#[trigger] components@[i]@),
        decreases components.len() - k,
    {
        if is_excluded_component(components[k].as_str()) {
            return false;
        }
        k = k + 1;
    }
    true
}

/// The characters of a word run are word characters, inside the line.
proof fn lemma_word_run(l: Seq<char>, i: int)
    requires
        0 <= i,
    ensures
        i + word_len(l, i) <= l.len() || word_len(l, i) == 0,
        forall|j: int| i <= j < i + word_len(l, i) ==> 0 <= j < l.len() && unicode_word_char(#[trigger] l[j]),
    decreases l.len() - i,
{
    if 0 <= i < l.len() && unicode_word_char(l[i]) {
        lemma_word_run(l, i + 1);
    }
}

/// Whether a name is a test function name: `test_` and at least one more
/// character, all of them after the prefix word characters.
pub open spec fn is_test_fn_name(name: Seq<char>) -> bool {
    &&& name.len() > 5
    &&& name.subrange(0, 5) == kw_test_fn()
    &&& forall|j: int| 5 <= j < name.len() ==> unicode_word_char(#[trigger] name[j])
}

/// Whether a name is a test class name: `Test` and then word characters.
pub open spec fn is_test_class_name(name: Seq<char>) -> bool {
    &&& name.len() >= 4
    &&& name.subrange(0, 4) == kw_test_class()
    &&& forall|j: int| 4 <= j < name.len() ==> unicode_word_char(#[trigger] name[j])
}

/// What holds of every item that discovery reports for a file.
pub open spec fn well_formed_item(file: Seq<char>, t: TestItemModel) -> bool {
    &&& t.file_path == file
    &&& t.test_id == spec_nodeid(file, t.class_name, t.function_name)
    &&& is_test_fn_name(t.function_name)
    &&& (t.class_name matches Some(c) ==> is_test_class_name(c))
}

proof fn lemma_class_line_name(l: Seq<char>)
    requires
        class_line(l) is Some,
    ensures
        class_line(l) matches Some((b, c)) ==> is_test_class_name(l.subrange(b, c)),
{
    let (b, c) = class_line(l).unwrap();
    lemma_word_run(l, b + 4);
    let name = l.subrange(b, c);
    assert(name.subrange(0, 4) =~= l.subrange(b, b + 4));
    assert forall|j: int| 4 <= j < name.len() implies unicode_word_char(#[trigger] name[j]) by {
        assert(name[j] == l[b + j]);
    }
}

proof fn lemma_def_line_name(l: Seq<char>)
    requires
        def_line(l) is Some,
    ensures
        def_line(l) matches Some((a, c, e)) ==> is_test_fn_name(l.subrange(c, e)),
{
    let (a, c, e) = def_line(l).unwrap();
    lemma_word_run(l, c + 5);
    let name = l.subrange(c, e);
    assert(name.subrange(0, 5) =~= l.subrange(c, c + 5));
    assert forall|j: int| 5 <= j < name.len() implies unicode_word_char(#[trigger] name[j]) by {
        assert(name[j] == l[c + j]);
    }
}

proof fn lemma_scan_well_formed(file: Seq<char>, lines: Seq<Seq<char>>)
    ensures
        forall|k: int|
            0 <= k < scan_lines(file, lines).1.len() ==> well_formed_item(file, #[trigger] scan_lines(file, lines).1[k]),
        scan_lines(file, lines).0 matches Some(c) ==> is_test_class_name(c),
    decreases lines.len(),
{
    if lines.len() > 0 {
        lemma_scan_well_formed(file, lines.drop_last());
        let l = lines.last();
        if class_line(l) is Some {
            lemma_class_line_name(l);
        } else if def_line(l) is Some {
            lemma_def_line_name(l);
        }
    }
}

/// Every test item found in a file belongs to that file, has its pytest
/// node id as its id, is named `test_` and more word characters, and, when
/// it stands in a class, that class is named `Test` and word characters.
pub proof fn law_discovered_items_well_formed(file: Seq<char>, content: Seq<char>)
    ensures
        forall|k: int|
            0 <= k < tests_in_source(file, content).len() ==> well_formed_item(
                file,
                #[trigger] tests_in_source(file, content)[k],
            ),
{
    lemma_scan_well_formed(file, text_lines(content));
}

/// A run of white space of length `k` from `i` that cannot be extended is
/// what `ws_len` measures.
proof fn lemma_ws_len_of_run(l: Seq<char>, i: int, k: int)
    requires
        0 <= i,
        0 <= k,
        i + k <= l.len(),
        forall|j: int| i <= j < i + k ==> is_white_space(#[trigger] l[j]),
        i + k == l.len() || !is_white_space(l[i + k]),
    ensures
        ws_len(l, i) == k,
    decreases k,
{
    if k > 0 {
        lemma_ws_len_of_run(l, i + 1, k - 1);
    }
}

/// A run of word characters of length `k` from `i` that cannot be extended
/// is what `word_len` measures.
proof fn lemma_word_len_of_run(l: Seq<char>, i: int, k: int)
    requires
        0 <= i,
        0 <= k,
        i + k <= l.len(),
        forall|j: int| i <= j < i + k ==> unicode_word_char(#[trigger] l[j]),
        i + k == l.len() || !unicode_word_char(l[i + k]),
    ensures
        word_len(l, i) == k,
    decreases k,
{
    if k > 0 {
        lemma_word_len_of_run(l, i + 1, k - 1);
    }
}

/// `ws_len(l, i)` is the length of the longest run of white space that
/// starts at `i`: every character of the run is white space, and the run
/// ends at the end of the line or before a character that is not.
pub proof fn law_ws_len_is_longest_run(l: Seq<char>, i: int)
    requires
        0 <= i <= l.len(),
    ensures
        i + ws_len(l, i) <= l.len(),
        forall|j: int| i <= j < i + ws_len(l, i) ==> is_white_space(#[trigger] l[j]),
        i + ws_len(l, i) == l.len() || !is_white_space(l[i + ws_len(l, i)]),
    decreases l.len() - i,
{
    if i < l.len() && is_white_space(l[i]) {
        law_ws_len_is_longest_run(l, i + 1);
    }
}

/// `word_len(l, i)` is the length of the longest run of word characters
/// that starts at `i`, at any position of the line: every character of the
/// run is a word character, and the run ends at the end of the line or
/// before a character that is not one.
pub proof fn law_word_len_is_longest_run(l: Seq<char>, i: int)
    requires
        0 <= i <= l.len(),
    ensures
        i + word_len(l, i) <= l.len(),
        forall|j: int| i <= j < i + word_len(l, i) ==> unicode_word_char(#[trigger] l[j]),
        i + word_len(l, i) == l.len() || !unicode_word_char(l[i + word_len(l, i)]),
    decreases l.len() - i,
{
    if i < l.len() && unicode_word_char(l[i]) {
        law_word_len_is_longest_run(l, i + 1);
    }
}

/// A test function line is recognised with its whole name: when
/// `def_line(l)` gives `(a, c, e)`, the line is `a` characters of white
/// space, `def`, white space, then the name `l[c..e]`, which is `test_`
/// followed by the longest run of word characters there, then white space
/// and `(`.
pub proof fn law_def_line_sound(l: Seq<char>)
    ensures
        def_line(l) matches Some((a, c, e)) ==> {
            &&& 0 <= a && a + 3 <= l.len()
            &&& forall|j: int| 0 <= j < a ==> is_white_space(#[trigger] l[j])
            &&& l.subrange(a, a + 3) == "def"@
            &&& a + 3 < c && c + 5 <= l.len()
            &&& forall|j: int| a + 3 <= j < c ==> is_white_space(#[trigger] l[j])
            &&& l.subrange(c, c + 5) == "test_"@
            &&& c + 5 < e <= l.len()
            &&& forall|j: int| c + 5 <= j < e ==> unicode_word_char(#[trigger] l[j])
            &&& (e == l.len() || !unicode_word_char(l[e]))
            &&& exists|f: int|
                e <= f < l.len() && l[f] == '(' && forall|j: int| e <= j < f ==> is_white_space(#[trigger] l[j])
        },
{
    reveal_strlit("def");
    reveal_strlit("test_");
    assert("def"@ =~= kw_def());
    assert("test_"@ =~= kw_test_fn());
    if def_line(l) is Some {
        let a = ws_len(l, 0) as int;
        law_ws_len_is_longest_run(l, 0);
        let b = a + 3;
        law_ws_len_is_longest_run(l, b);
        let c = b + ws_len(l, b);
        law_word_len_is_longest_run(l, c + 5);
        let e = c + 5 + word_len(l, c + 5);
        law_ws_len_is_longest_run(l, e);
        let f = e + ws_len(l, e);
        assert(e <= f < l.len() && l[f] == '(' && forall|j: int| e <= j < f ==> is_white_space(#[trigger] l[j]));
    }
}

/// Every line that has the shape of a test function definition is
/// recognised, with its whole name: white space, `def`, white space,
/// `test_` and the longest run of word characters after it (at least one),
/// white space, `(`.
pub proof fn law_def_line_complete(l: Seq<char>, a: int, c: int, e: int, f: int)
    requires
        0 <= a,
        a + 3 <= l.len(),
        forall|j: int| 0 <= j < a ==> is_white_space(#[trigger] l[j]),
        l.subrange(a, a + 3) == "def"@,
        a + 3 < c,
        c + 5 <= l.len(),
        forall|j: int| a + 3 <= j < c ==> is_white_space(#[trigger] l[j]),
        l.subrange(c, c + 5) == "test_"@,
        c + 5 < e <= l.len(),
        forall|j: int| c + 5 <= j < e ==> unicode_word_char(#[trigger] l[j]),
        e == l.len() || !unicode_word_char(l[e]),
        e <= f < l.len(),
        forall|j: int| e <= j < f ==> is_white_space(#[trigger] l[j]),
        l[f] == '(',
    ensures
        def_line(l) == Some((a, c, e)),
{
    reveal_strlit("def");
    reveal_strlit("test_");
    assert("def"@ =~= kw_def());
    assert("test_"@ =~= kw_test_fn());
    assert(l[a] == l.subrange(a, a + 3)[0]);
    assert(l[c] == l.subrange(c, c + 5)[0]);
    lemma_ws_len_of_run(l, 0, a);
    lemma_ws_len_of_run(l, a + 3, c - (a + 3));
    lemma_word_len_of_run(l, c + 5, e - (c + 5));
    lemma_ws_len_of_run(l, e, f - e);
}

/// A test class line is recognised with its whole name: when
/// `class_line(l)` gives `(b, c)`, the line is `class`, white space, then the
/// name `l[b..c]`, which is `Test` followed by the longest run of word
/// characters there, then white space and `:` or `(`.
pub proof fn law_class_line_sound(l: Seq<char>)
    ensures
        class_line(l) matches Some((b, c)) ==> {
            &&& 5 < b && b + 4 <= c <= l.len()
            &&& l.subrange(0, 5) == "class"@
            &&& forall|j: int| 5 <= j < b ==> is_white_space(#[trigger] l[j])
            &&& l.subrange(b, b + 4) == "Test"@
            &&& forall|j: int| b + 4 <= j < c ==> unicode_word_char(#[trigger] l[j])
            &&& (c == l.len() || !unicode_word_char(l[c]))
            &&& exists|d: int|
                c <= d < l.len() && (l[d] == ':' || l[d] == '(') && forall|j: int|
                    c <= j < d ==> is_white_space(#[trigger] l[j])
        },
{
    reveal_strlit("class");
    reveal_strlit("Test");
    assert("class"@ =~= kw_class());
    assert("Test"@ =~= kw_test_class());
    if class_line(l) is Some {
        law_ws_len_is_longest_run(l, 5);
        let b = 5int + ws_len(l, 5);
        law_word_len_is_longest_run(l, b + 4);
        let c = b + 4 + word_len(l, b + 4);
        law_ws_len_is_longest_run(l, c);
        let d = c + ws_len(l, c);
        assert(c <= d < l.len() && (l[d] == ':' || l[d] == '(') && forall|j: int|
            c <= j < d ==> is_white_space(#[trigger] l[j]));
    }
}

/// Every line that has the shape of a test class line is recognised, with
/// its whole name: `class`, white space, `Test` and the longest run of word
/// characters after it, white space, then `:` or `(`.
pub proof fn law_class_line_complete(l: Seq<char>, b: int, c: int, d: int)
    requires
        5 < b,
        b + 4 <= c <= l.len(),
        l.subrange(0, 5) == "class"@,
        forall|j: int| 5 <= j < b ==> is_white_space(#[trigger] l[j]),
        l.subrange(b, b + 4) == "Test"@,
        forall|j: int| b + 4 <= j < c ==> unicode_word_char(#[trigger] l[j]),
        c == l.len() || !unicode_word_char(l[c]),
        c <= d < l.len(),
        forall|j: int| c <= j < d ==> is_white_space(#[trigger] l[j]),
        l[d] == ':' || l[d] == '(',
    ensures
        class_line(l) == Some((b, c)),
{
    reveal_strlit("class");
    reveal_strlit("Test");
    assert("class"@ =~= kw_class());
    assert("Test"@ =~= kw_test_class());
    assert(l[b] == l.subrange(b, b + 4)[0]);
    lemma_ws_len_of_run(l, 5, b - 5);
    lemma_word_len_of_run(l, b + 4, c - (b + 4));
    lemma_ws_len_of_run(l, c, d - c);
}

/// Discovery skips exactly the directories `.git`, `__pycache__`, `.venv`
/// and `venv`: any other component, such as `test` or `tests`, is walked.
pub proof fn law_excluded_dirs_are_exactly(c: Seq<char>)
    ensures
        is_excluded_dir(c) <==> (c == ".git"@ || c == "__pycache__"@ || c == ".venv"@ || c == "venv"@),
{
    reveal_strlit(".git");
    reveal_strlit("__pycache__");
    reveal_strlit(".venv");
    reveal_strlit("venv");
    assert(".git"@ =~= seq!['.', 'g', 'i', 't']);
    assert("__pycache__"@ =~= seq!['_', '_', 'p', 'y', 'c', 'a', 'c', 'h', 'e', '_', '_']);
    assert(".venv"@ =~= seq!['.', 'v', 'e', 'n', 'v']);
    assert("venv"@ =~= seq!['v', 'e', 'n', 'v']);
}

} // verus!
