use riptide::collector::{collect_from_source, TestItem};
use riptide::text::{chars_of, str_eq, white_space};

#[test]
fn white_space_is_unicode_white_space() {
    for c in ['\t', '\n', '\u{b}', '\u{c}', '\r', ' ', '\u{85}', '\u{a0}', '\u{1680}', '\u{2000}', '\u{200a}', '\u{2028}', '\u{2029}', '\u{202f}', '\u{205f}', '\u{3000}'] {
        assert!(white_space(c), "{:?}", c);
        assert!(c.is_whitespace());
    }
    for c in ['a', '_', '\u{200b}', '\u{feff}', '\u{180e}'] {
        assert!(!white_space(c), "{:?}", c);
    }
}

fn name_of(src: &str) -> Option<String> {
    let mut items: Vec<TestItem> = Vec::new();
    collect_from_source("w.py", src, &mut items);
    items.pop().map(|t| t.function_name)
}

#[test]
fn word_characters_in_names() {
    for c in ['a', 'Z', '0', '_', 'é', 'ß', '日', '\u{301}'] {
        assert_eq!(name_of(&format!("def test_{}():", c)), Some(format!("test_{}", c)), "{:?}", c);
    }
    for c in ['-', ':', '.', '+'] {
        assert_eq!(name_of(&format!("def test_{}():", c)), None, "{:?}", c);
    }
}

#[test]
fn chars_and_equality() {
    assert_eq!(chars_of("añb"), vec!['a', 'ñ', 'b']);
    assert!(str_eq("abc", "abc"));
    assert!(!str_eq("abc", "abd"));
    assert!(!str_eq("ab", "abc"));
    assert!(str_eq("", ""));
}
