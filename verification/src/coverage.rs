//! Reading coverage reports: which files a test touched, and how many
//! lines of each file ran.

use vstd::prelude::*;
use crate::runner::string_views;
use crate::text::{push_char, str_eq};

verus! {

/// A JSON number, as the report holds it: a non-negative integer, a
/// negative integer, or any other number.
pub enum JsonNumber {
    PosInt(u64),
    NegInt(i64),
    Float,
}

/// A JSON value; an object's members stand in the order that the parser's
/// map yields them (with `serde_json`'s default features, sorted by name).
pub enum JsonValue {
    Null,
    Bool(bool),
    Number(JsonNumber),
    Str(String),
    Array(Vec<JsonValue>),
    Object(Vec<(String, JsonValue)>),
}

#[verifier::external_type_specification]
#[verifier::external_body]
pub struct ExJsonValue(serde_json::Value);

/// What `serde_json::from_str` makes of a text, as a `JsonValue` (numbers
/// kept as non-negative integers, negative integers, or other numbers);
/// `None` where the text is not JSON.
pub uninterp spec fn parsed_json(text: Seq<char>) -> Option<JsonValue>;

/// The `JsonValue` that stands for a parsed `serde_json::Value`, variant
/// by variant; used by `parse_json` only.
#[verifier::external_body]
fn json_of_value(v: &serde_json::Value) -> JsonValue {
    match v {
        serde_json::Value::Null => JsonValue::Null,
        serde_json::Value::Bool(b) => JsonValue::Bool(*b),
        serde_json::Value::Number(n) => JsonValue::Number(match (n.as_u64(), n.as_i64()) {
            (Some(u), _) => JsonNumber::PosInt(u),
            (None, Some(i)) => JsonNumber::NegInt(i),
            (None, None) => JsonNumber::Float,
        }),
        serde_json::Value::String(s) => JsonValue::Str(s.clone()),
        serde_json::Value::Array(a) => JsonValue::Array(a.iter().map(json_of_value).collect()),
        serde_json::Value::Object(m) => JsonValue::Object(m.iter().map(|(k, x)| (k.clone(), json_of_value(x))).collect()),
    }
}

/// Parses a JSON text (`serde_json::from_str` into a `serde_json::Value`).
///
/// Trusted: the result is the named `parsed_json` of the text, a function
/// of the text alone; the parsed value is carried over one variant for one
/// variant, object members in the map's order.
#[verifier::external_body]
fn parse_json(text: &str) -> (r: Option<JsonValue>)
    ensures
        r == parsed_json(text@),
{
    match serde_json::from_str::<serde_json::Value>(text) {
        Ok(v) => Some(json_of_value(&v)),
        Err(_) => None,
    }
}

/// The first member of `entries` named `key`.
pub open spec fn lookup(entries: Seq<(String, JsonValue)>, key: Seq<char>) -> Option<JsonValue>
    decreases entries.len(),
{
    if entries.len() == 0 {
        None
    } else if entries[0].0@ == key {
        Some(entries[0].1)
    } else {
        lookup(entries.drop_first(), key)
    }
}

/// `v[key]`: the member named `key` of an object, `null` otherwise.
pub open spec fn member(v: JsonValue, key: Seq<char>) -> JsonValue {
    match v {
        JsonValue::Object(m) => match lookup(m@, key) {
            Some(x) => x,
            None => JsonValue::Null,
        },
        _ => JsonValue::Null,
    }
}

/// The names of an object's members, in order; none for any other value.
pub open spec fn object_keys(v: JsonValue) -> Seq<Seq<char>> {
    match v {
        JsonValue::Object(m) => m@.map_values(|e: (String, JsonValue)| e.0@),
        _ => seq![],
    }
}

/// The files of a coverage report: the member names of its `files` object.
pub open spec fn report_files(report: JsonValue) -> Seq<Seq<char>> {
    object_keys(member(report, "files"@))
}

/// Whether a value is a non-negative integer.
pub open spec fn is_unsigned(v: JsonValue) -> bool {
    v matches JsonValue::Number(JsonNumber::PosInt(_))
}

/// How many entries of `a` are non-negative integers.
pub open spec fn count_unsigned(a: Seq<JsonValue>) -> nat
    decreases a.len(),
{
    if a.len() == 0 {
        0
    } else {
        count_unsigned(a.drop_last()) + if is_unsigned(a.last()) {
            1nat
        } else {
            0nat
        }
    }
}

/// How many entries of an array are non-negative integers; none for any
/// other value.
pub open spec fn unsigned_entries(v: JsonValue) -> nat {
    match v {
        JsonValue::Array(a) => count_unsigned(a@),
        _ => 0,
    }
}

/// The member named `key` of an object, `null` otherwise.
#[verifier::loop_isolation(false)]
pub fn get_member<'a>(v: &'a JsonValue, key: &str) -> (r: &'a JsonValue)
    ensures
        *r == member(*v, key@),
{
    match v {
        JsonValue::Object(m) => {
            let mut k: usize = 0;
            assert(m@.skip(0) =~= m@);
            while k < m.len()
                invariant
                    k <= m.len(),
                    lookup(m@, key@) == lookup(m@.skip(k as int), key@),
                decreases m.len() - k,
            {
                assert(m@.skip(k as int).drop_first() =~= m@.skip(k + 1));
                assert(m@.skip(k as int)[0] == m@[k as int]);
                if str_eq(m[k].0.as_str(), key) {
                    assert(m@.skip(k as int).len() > 0);
                    assert(lookup(m@.skip(k as int), key@) == Some(m@[k as int].1));
                    return &m[k].1;
                }
                k = k + 1;
            }
            assert(m@.skip(k as int).len() == 0);
            &JsonValue::Null
        },
        _ => &JsonValue::Null,
    }
}

/// Whether a value is a non-negative integer.
fn unsigned(v: &JsonValue) -> (b: bool)
    ensures
        b == is_unsigned(*v),
{
    match v {
        JsonValue::Number(JsonNumber::PosInt(_)) => true,
        _ => false,
    }
}

/// How many entries of an array are non-negative integers.
pub fn count_unsigned_entries(v: &JsonValue) -> (n: usize)
    ensures
        n == unsigned_entries(*v),
{
    match v {
        JsonValue::Array(a) => {
            let mut n: usize = 0;
            let mut k: usize = 0;
            while k < a.len()
                invariant
                    k <= a.len(),
                    n <= k,
                    n == count_unsigned(a@.take(k as int)),
                decreases a.len() - k,
            {
                assert(a@.take(k + 1).drop_last() =~= a@.take(k as int));
                if unsigned(&a[k]) {
                    n = n + 1;
                }
                k = k + 1;
            }
            assert(a@.take(a.len() as int) =~= a@);
            n
        },
        _ => 0,
    }
}

/// The files of a coverage report that a test touched: the member names
/// of the report's `files` object, none when there is no such object.
pub fn covered_files(report: &JsonValue) -> (files: Vec<String>)
    ensures
        string_views(files@) == report_files(*report),
{
    let files = get_member(report, "files");
    let mut out: Vec<String> = Vec::new();
    match files {
        JsonValue::Object(m) => {
            let mut k: usize = 0;
            while k < m.len()
                invariant
                    k <= m.len(),
                    out.len() == k,
                    forall|i: int| 0 <= i < k ==> #[trigger] out@[i]@ == m@[i].0@,
                decreases m.len() - k,
            {
                out.push(m[k].0.clone());
                k = k + 1;
            }
            assert(string_views(out@) =~= report_files(*report));
        },
        _ => {},
    }
    out
}

/// The files that a coverage report in JSON text lists; `None` when the
/// text is not JSON.
pub fn report_files_of_text(text: &str) -> (r: Option<Vec<String>>)
    ensures
        r is None <==> parsed_json(text@) is None,
        r matches Some(v) ==> string_views(v@) == report_files(parsed_json(text@).unwrap()),
{
    match parse_json(text) {
        Some(report) => Some(covered_files(&report)),
        None => None,
    }
}

/// Line counts of one file of a coverage report.
pub struct FileCounts {
    pub file: String,
    pub executed_lines: u32,
    pub total_lines: u32,
}

/// The executed and total line counts of a file's report data, cut to 32
/// bits: the executed lines and the missing lines are the non-negative
/// integers of its `executed_lines` and `missing_lines` arrays.
pub open spec fn file_counts(data: JsonValue) -> (u32, u32) {
    let e = unsigned_entries(member(data, "executed_lines"@));
    let m = unsigned_entries(member(data, "missing_lines"@));
    (e as u32, (e + m) as u32)
}

/// The line counts of every file of a coverage report, in the report's order.
pub open spec fn report_counts(report: JsonValue) -> Seq<(Seq<char>, u32, u32)> {
    match member(report, "files"@) {
        JsonValue::Object(m) => m@.map_values(
            |e: (String, JsonValue)| (e.0@, file_counts(e.1).0, file_counts(e.1).1),
        ),
        _ => seq![],
    }
}

/// The view of a list of counts.
pub open spec fn counts_view(v: Seq<FileCounts>) -> Seq<(Seq<char>, u32, u32)> {
    v.map_values(|c: FileCounts| (c.file@, c.executed_lines, c.total_lines))
}

/// The sum of two counts, cut to 32 bits.
fn total_u32(e: usize, m: usize) -> (t: u32)
    ensures
        t == (e + m) as u32,
{
    let a = e as u64;
    let b = m as u64;
    let t = ((a as u32) as u64 + (b as u32) as u64) as u32;
    assert(((a as u32) as u64 + (b as u32) as u64) as u32 == (a + b) as u32) by (bit_vector);
    t
}

/// The line counts of one file's report data.
pub fn counts_of_file(file: &String, data: &JsonValue) -> (c: FileCounts)
    ensures
        c.file@ == file@,
        (c.executed_lines, c.total_lines) == file_counts(*data),
{
    let e = count_unsigned_entries(get_member(data, "executed_lines"));
    let m = count_unsigned_entries(get_member(data, "missing_lines"));
    FileCounts { file: file.clone(), executed_lines: e as u32, total_lines: total_u32(e, m) }
}

/// The line counts of every file of a coverage report, in the report's
/// order; none when the report has no `files` object.
pub fn coverage_counts(report: &JsonValue) -> (out: Vec<FileCounts>)
    ensures
        counts_view(out@) == report_counts(*report),
{
    let files = get_member(report, "files");
    let mut out: Vec<FileCounts> = Vec::new();
    match files {
        JsonValue::Object(m) => {
            let mut k: usize = 0;
            while k < m.len()
                invariant
                    k <= m.len(),
                    out.len() == k,
                    forall|i: int|
                        0 <= i < k ==> (#[trigger] out@[i]).file@ == m@[i].0@ && (
                        out@[i].executed_lines, out@[i].total_lines) == file_counts(m@[i].1),
                decreases m.len() - k,
            {
                let c = counts_of_file(&m[k].0, &m[k].1);
                out.push(c);
                k = k + 1;
            }
            assert(counts_view(out@) =~= report_counts(*report));
        },
        _ => {},
    }
    out
}

/// The line counts of every file of a coverage report in JSON text; `None`
/// when the text is not JSON.
pub fn report_counts_of_text(text: &str) -> (r: Option<Vec<FileCounts>>)
    ensures
        r is None <==> parsed_json(text@) is None,
        r matches Some(v) ==> counts_view(v@) == report_counts(parsed_json(text@).unwrap()),
{
    match parse_json(text) {
        Some(report) => Some(coverage_counts(&report)),
        None => None,
    }
}

/// The decimal digit for a number below ten.
pub open spec fn digit_char(d: nat) -> char {
    ((48 + d) as u8) as char
}

/// The decimal notation of a number, without leading zeros.
pub open spec fn decimal(n: nat) -> Seq<char>
    decreases n,
{
    if n < 10 {
        seq![digit_char(n)]
    } else {
        decimal(n / 10).push(digit_char(n % 10))
    }
}

/// Appends the decimal notation of `n` to a string.
fn push_decimal(s: &mut String, n: u32)
    ensures
        final(s)@ == old(s)@ + decimal(n as nat),
    decreases n,
{
    if n >= 10 {
        push_decimal(s, n / 10);
    }
    let d = (n % 10) as u8;
    push_char(s, (48u8 + d) as char);
}

/// The numbers of a list in decimal, separated by commas.
pub open spec fn comma_joined(v: Seq<u32>) -> Seq<char>
    decreases v.len(),
{
    if v.len() == 0 {
        seq![]
    } else if v.len() == 1 {
        decimal(v[0] as nat)
    } else {
        comma_joined(v.drop_last()) + seq![','] + decimal(v.last() as nat)
    }
}

/// A list of line numbers as a JSON array, the text `serde_json::to_string`
/// gives for it: `[` the numbers in decimal separated by commas `]`.
pub open spec fn json_number_list(v: Seq<u32>) -> Seq<char> {
    seq!['['] + comma_joined(v) + seq![']']
}

/// A list of line numbers as a JSON array.
pub fn lines_json(lines: &Vec<u32>) -> (s: String)
    ensures
        s@ == json_number_list(lines@),
{
    let mut s = String::new();
    push_char(&mut s, '[');
    let mut k: usize = 0;
    while k < lines.len()
        invariant
            k <= lines.len(),
            s@ == seq!['['] + comma_joined(lines@.take(k as int)),
        decreases lines.len() - k,
    {
        if k > 0 {
            push_char(&mut s, ',');
        }
        push_decimal(&mut s, lines[k]);
        assert(lines@.take(k + 1).drop_last() =~= lines@.take(k as int));
        k = k + 1;
    }
    push_char(&mut s, ']');
    assert(lines@.take(lines.len() as int) =~= lines@);
    s
}

} // verus!
