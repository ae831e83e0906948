use riptide::coverage::{
    coverage_counts, covered_files, get_member, lines_json, report_counts_of_text, report_files_of_text, JsonNumber,
    JsonValue,
};

fn obj(members: Vec<(&str, JsonValue)>) -> JsonValue {
    JsonValue::Object(members.into_iter().map(|(k, v)| (k.to_string(), v)).collect())
}

fn nums(v: &[u64]) -> JsonValue {
    JsonValue::Array(v.iter().map(|n| JsonValue::Number(JsonNumber::PosInt(*n))).collect())
}

fn report() -> JsonValue {
    obj(vec![
        ("meta", obj(vec![("version", JsonValue::Str("7".to_string()))])),
        (
            "files",
            obj(vec![
                ("src/auth.py", obj(vec![("executed_lines", nums(&[1, 2, 3])), ("missing_lines", nums(&[4]))])),
                (
                    "src/models.py",
                    obj(vec![
                        (
                            "executed_lines",
                            JsonValue::Array(vec![
                                JsonValue::Number(JsonNumber::PosInt(1)),
                                JsonValue::Number(JsonNumber::NegInt(-1)),
                                JsonValue::Number(JsonNumber::Float),
                                JsonValue::Str("2".to_string()),
                            ]),
                        ),
                        ("missing_lines", JsonValue::Null),
                    ]),
                ),
                ("src/empty.py", JsonValue::Bool(true)),
            ]),
        ),
    ])
}

#[test]
fn covered_files_are_the_report_files() {
    assert_eq!(covered_files(&report()), vec!["src/auth.py", "src/models.py", "src/empty.py"]);
}

#[test]
fn no_files_object_means_no_files() {
    assert!(covered_files(&JsonValue::Null).is_empty());
    assert!(covered_files(&obj(vec![("files", nums(&[1]))])).is_empty());
    assert!(coverage_counts(&obj(vec![])).is_empty());
}

#[test]
fn counts_per_file() {
    let c = coverage_counts(&report());
    let got: Vec<(String, u32, u32)> = c.iter().map(|f| (f.file.clone(), f.executed_lines, f.total_lines)).collect();
    assert_eq!(
        got,
        vec![
            ("src/auth.py".to_string(), 3, 4),
            ("src/models.py".to_string(), 1, 1),
            ("src/empty.py".to_string(), 0, 0),
        ]
    );
}

#[test]
fn member_lookup() {
    let r = report();
    assert!(matches!(get_member(&r, "nope"), JsonValue::Null));
    assert!(matches!(get_member(&r, "files"), JsonValue::Object(_)));
    assert!(matches!(get_member(&JsonValue::Bool(false), "files"), JsonValue::Null));
}

#[test]
fn line_lists_as_json() {
    assert_eq!(lines_json(&vec![]), "[]");
    assert_eq!(lines_json(&vec![7]), "[7]");
    assert_eq!(lines_json(&vec![1, 20, 300]), "[1,20,300]");
    assert_eq!(lines_json(&vec![0, 4294967295]), "[0,4294967295]");
    let v: Vec<u32> = vec![3, 10, 99, 100];
    assert_eq!(lines_json(&v), serde_json::to_string(&v).unwrap());
}

#[test]
fn reports_read_from_text() {
    let text = r#"{"meta": {"version": "7"}, "files": {"src/z.py": {"executed_lines": [1, 2, -3, 4.5], "missing_lines": [9]}, "src/a.py": {"executed_lines": [], "missing_lines": []}}}"#;
    assert_eq!(report_files_of_text(text), Some(vec!["src/a.py".to_string(), "src/z.py".to_string()]));
    let counts = report_counts_of_text(text).unwrap();
    let got: Vec<(String, u32, u32)> = counts.iter().map(|f| (f.file.clone(), f.executed_lines, f.total_lines)).collect();
    assert_eq!(got, vec![("src/a.py".to_string(), 0, 0), ("src/z.py".to_string(), 2, 3)]);
    assert!(report_files_of_text("{not json").is_none());
    assert!(report_counts_of_text("").is_none());
    assert_eq!(report_files_of_text("[1, 2]"), Some(vec![]));
}
