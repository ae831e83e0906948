use riptide::collector::{
    collect_from_source, is_excluded_component, is_python_file, is_test_file_in_walk, TestItem,
};
use riptide::pattern::FilePattern;
use riptide::collector::opens_other_class;

fn item(file: &str, class: Option<&str>, func: &str) -> TestItem {
    TestItem::new(file, class.map(|c| c.to_string()), func.to_string())
}

fn collect(file: &str, content: &str) -> Vec<TestItem> {
    let mut items = Vec::new();
    collect_from_source(file, content, &mut items);
    items
}

fn ids(items: &[TestItem]) -> Vec<String> {
    items.iter().map(|t| t.test_id.clone()).collect()
}

#[test]
fn nodeid_top_level_function() {
    let t = item("tests/test_auth.py", None, "test_login");
    assert_eq!(t.pytest_nodeid(), "tests/test_auth.py::test_login");
    assert_eq!(t.test_id, "tests/test_auth.py::test_login");
}

#[test]
fn nodeid_method_in_class() {
    let t = item("tests/test_auth.py", Some("TestSession"), "test_expire");
    assert_eq!(t.pytest_nodeid(), "tests/test_auth.py::TestSession::test_expire");
    assert_eq!(t.test_id, t.pytest_nodeid());
    assert_eq!(t.class_name.as_deref(), Some("TestSession"));
    assert_eq!(t.function_name, "test_expire");
    assert_eq!(t.file_path, "tests/test_auth.py");
}

#[test]
fn clone_keeps_every_field() {
    let t = item("a.py", Some("TestA"), "test_b");
    let c = t.clone();
    assert_eq!(c.test_id, t.test_id);
    assert_eq!(c.class_name, t.class_name);
}

#[test]
fn collects_top_level_and_class_tests() {
    let src = "import os\n\
               def test_one():\n    pass\n\
               class TestGroup:\n    def test_two(self):\n        pass\n    def helper(self):\n        pass\n\
               def test_three():\n    pass\n";
    let items = collect("t/test_x.py", src);
    assert_eq!(
        ids(&items),
        vec!["t/test_x.py::test_one", "t/test_x.py::TestGroup::test_two", "t/test_x.py::test_three"]
    );
    assert_eq!(items[1].class_name.as_deref(), Some("TestGroup"));
    assert_eq!(items[2].class_name, None);
}

#[test]
fn class_context_survives_non_test_code() {
    // Only a top-level test function leaves the class: other top-level
    // code does not.
    let src = "class TestA(Base):\n    def test_a(self): pass\nx = 1\n    def test_b(self): pass\n";
    let items = collect("f.py", src);
    assert_eq!(ids(&items), vec!["f.py::TestA::test_a", "f.py::TestA::test_b"]);
}

#[test]
fn indented_test_without_class_has_no_class() {
    let items = collect("f.py", "if True:\n    def test_inner():\n        pass\n");
    assert_eq!(ids(&items), vec!["f.py::test_inner"]);
    assert_eq!(items[0].class_name, None);
}

#[test]
fn non_test_names_are_skipped() {
    let src = "def test_(): pass\ndef testing(): pass\nclass Helper:\n    def test_h(self): pass\n\
               async def test_async(): pass\nclassTestX:\ndef  test_spaced  (x): pass\n";
    let items = collect("f.py", src);
    assert_eq!(ids(&items), vec!["f.py::test_h", "f.py::test_spaced"]);
}

#[test]
fn class_needs_colon_or_paren() {
    let items = collect("f.py", "class TestA\n    def test_a(self): pass\nclass  TestB :\n    def test_b(self): pass\n");
    assert_eq!(ids(&items), vec!["f.py::test_a", "f.py::TestB::test_b"]);
}

#[test]
fn crlf_and_tabs_and_unicode() {
    let src = "class TestÜber:\r\n\tdef test_größe(self):\r\n\t\tpass\r\ndef test_x\u{3000}():";
    let items = collect("u.py", src);
    assert_eq!(ids(&items), vec!["u.py::TestÜber::test_größe", "u.py::test_x"]);
}

#[test]
fn empty_source_has_no_tests() {
    assert!(collect("e.py", "").is_empty());
    assert!(collect("e.py", "\n\n").is_empty());
}

#[test]
fn appends_to_existing_items() {
    let mut items = vec![item("a.py", None, "test_a")];
    collect_from_source("b.py", "def test_b(): pass", &mut items);
    assert_eq!(ids(&items), vec!["a.py::test_a", "b.py::test_b"]);
}

#[test]
fn python_file_extension() {
    assert!(is_python_file("test_a.py"));
    assert!(is_python_file("..py"));
    assert!(!is_python_file(".py"));
    assert!(!is_python_file("py"));
    assert!(!is_python_file("a.pyc"));
    assert!(!is_python_file("a_py"));
}

#[test]
fn excluded_components() {
    for c in [".git", "__pycache__", ".venv", "venv"] {
        assert!(is_excluded_component(c));
    }
    for c in ["tests", ".", "venv2", "git"] {
        assert!(!is_excluded_component(c));
    }
}

#[test]
fn walk_selection_uses_pattern_extension_and_exclusions() {
    let p = FilePattern::whole_name(r"test_.*\.py|.*_test\.py").ok().unwrap();
    let comps = |v: &[&str]| v.iter().map(|s| s.to_string()).collect::<Vec<_>>();
    assert!(is_test_file_in_walk(&comps(&["tests", "test_a.py"]), "test_a.py", &p));
    assert!(is_test_file_in_walk(&comps(&["tests", "a_test.py"]), "a_test.py", &p));
    assert!(!is_test_file_in_walk(&comps(&["tests", "helper.py"]), "helper.py", &p));
    assert!(!is_test_file_in_walk(&comps(&[".venv", "test_a.py"]), "test_a.py", &p));
    assert!(!is_test_file_in_walk(&comps(&["tests", "test_a.pyc"]), "test_a.pyc", &p));
}

#[test]
fn bad_pattern_is_refused() {
    let e = FilePattern::new("test_(").err().unwrap();
    assert!(!e.message.is_empty());
    assert_eq!(FilePattern::new("abc").ok().unwrap().as_str(), "abc");
}

#[test]
fn discovered_items_are_well_formed() {
    let src = "class TestA:\n    def test_one(self): pass\ndef test_two(): pass\n";
    for t in collect("w.py", src) {
        assert_eq!(t.file_path, "w.py");
        assert_eq!(t.test_id, t.pytest_nodeid());
        assert!(t.function_name.starts_with("test_") && t.function_name.len() > 5);
        if let Some(c) = &t.class_name {
            assert!(c.starts_with("Test"));
        }
    }
}

#[test]
fn other_class_closes_test_class() {
    let src = "class TestA:\n    def test_x(self):\n        pass\nclass Helper:\n    def test_h(self):\n        pass\n";
    let items = collect("t/test_h.py", src);
    assert_eq!(ids(&items), vec!["t/test_h.py::TestA::test_x", "t/test_h.py::test_h"]);
    let chars = |s: &str| s.chars().collect::<Vec<char>>();
    assert!(opens_other_class(&chars("class Helper:")));
    assert!(opens_other_class(&chars("class\tBase(object):")));
    assert!(!opens_other_class(&chars("class TestB:")));
    assert!(!opens_other_class(&chars("    class Inner:")));
    assert!(!opens_other_class(&chars("classes = []")));
}

#[test]
fn indented_class_keeps_test_class() {
    let src = "class TestA:\n    class Inner:\n        pass\n    def test_y(self):\n        pass\n";
    assert_eq!(ids(&collect("f.py", src)), vec!["f.py::TestA::test_y"]);
}

#[test]
fn pattern_matches_whole_file_names() {
    let p = FilePattern::whole_name(r"test_.*\.py|.*_test\.py").ok().unwrap();
    let one = |n: &str| vec![n.to_string()];
    assert!(is_test_file_in_walk(&one("test_utils.py"), "test_utils.py", &p));
    assert!(is_test_file_in_walk(&one("utils_test.py"), "utils_test.py", &p));
    assert!(!is_test_file_in_walk(&one("contest_utils.py"), "contest_utils.py", &p));
    assert!(!is_test_file_in_walk(&one("test_a.py.bak.py"), "xtest_a.py", &p));
    assert_eq!(p.as_str(), r"^(?:test_.*\.py|.*_test\.py)$");
    assert!(FilePattern::whole_name("(").is_err());
}
