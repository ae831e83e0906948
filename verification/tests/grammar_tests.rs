use regex::Regex;
use riptide::collector::{collect_from_source, match_class_line, match_def_line, TestItem};

/// The class and function lines that discovery recognises, written as
/// regular expressions, to compare with the library's scanner: a test
/// class opens a class context, any other top-level class closes it.
fn regex_reference(file: &str, content: &str) -> Vec<String> {
    let class_re = Regex::new(r"^class\s+(Test\w*)\s*[:(]").unwrap();
    let func_re = Regex::new(r"^(\s*)def\s+(test_\w+)\s*\(").unwrap();
    let other_class_re = Regex::new(r"^class\s").unwrap();
    let mut current: Option<String> = None;
    let mut out = Vec::new();
    for line in content.lines() {
        if let Some(c) = class_re.captures(line) {
            current = Some(c[1].to_string());
            continue;
        }
        if other_class_re.is_match(line) {
            current = None;
        }
        if let Some(c) = func_re.captures(line) {
            let cls = if c[1].len() > 0 { current.clone() } else {
                current = None;
                None
            };
            out.push(match cls {
                Some(k) => format!("{}::{}::{}", file, k, &c[2]),
                None => format!("{}::{}", file, &c[2]),
            });
        }
    }
    out
}

fn scanned(file: &str, content: &str) -> Vec<String> {
    let mut items: Vec<TestItem> = Vec::new();
    collect_from_source(file, content, &mut items);
    items.into_iter().map(|t| t.test_id).collect()
}

const LINES: &[&str] = &[
    "class TestA:", "class TestA(object):", "class  TestB :", "class\tTestC(", "class Test:", "class Test_x1:",
    "class TestD", "class TestE ()", "classTestF:", " class TestG:", "class Testé:", "class TestH-:", "class TestI\u{a0}:",
    "def test_a():", "    def test_b(self):", "\tdef test_c ( ):", "def test_():", "def test__():", "def  test_d  (",
    "def test_e", "deftest_f():", "async def test_g():", "def test_h\u{2003}(x):", "    def helper(self):",
    "def test_i-j():", "def test_ünï():", "def test_k\r", "class TestJ:\r", "\u{3000}def test_l():", "x = 1", "",
    "    class TestK:", "def test_m(): # class TestL:", "def Test_n():", "DEF test_o():", "def test_p\u{200b}():",
];

#[test]
fn scanner_agrees_with_regexes_line_by_line() {
    let class_re = Regex::new(r"^class\s+(Test\w*)\s*[:(]").unwrap();
    let func_re = Regex::new(r"^(\s*)def\s+(test_\w+)\s*\(").unwrap();
    for line in LINES {
        let chars: Vec<char> = line.chars().collect();
        let mine = match_class_line(&chars).map(|(b, c)| chars[b..c].iter().collect::<String>());
        let theirs = class_re.captures(line).map(|c| c[1].to_string());
        assert_eq!(mine, theirs, "class line {:?}", line);
        let mine = match_def_line(&chars).map(|(a, c, e)| (a > 0, chars[c..e].iter().collect::<String>()));
        let theirs = func_re.captures(line).map(|c| (c[1].len() > 0, c[2].to_string()));
        assert_eq!(mine, theirs, "def line {:?}", line);
    }
}

#[test]
fn scanner_agrees_with_regexes_on_files() {
    let mut content = String::new();
    for (i, line) in LINES.iter().enumerate() {
        content.push_str(line);
        content.push_str(if i % 3 == 0 { "\r\n" } else { "\n" });
    }
    assert_eq!(scanned("f.py", &content), regex_reference("f.py", &content));
    let trimmed = content.trim_end();
    assert_eq!(scanned("g.py", trimmed), regex_reference("g.py", trimmed));
    let reversed: String = LINES.iter().rev().map(|l| format!("{}\n", l)).collect();
    assert_eq!(scanned("h.py", &reversed), regex_reference("h.py", &reversed));
}
