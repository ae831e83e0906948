//! Character classes and string building blocks shared by the other modules.

use vstd::prelude::*;

verus! {

/// Appends one character to a string (`String::push`).
///
/// Trusted: the string afterwards is the string before with `c` added at
/// the end, as the standard library documents.
#[verifier::external_body]
pub(crate) fn push_char(s: &mut String, c: char)
    ensures
        final(s)@ == old(s)@.push(c),
{
    s.push(c);
}

/// The two characters that separate the parts of a pytest node id.
pub open spec fn node_sep() -> Seq<char> {
    seq![':', ':']
}

/// Appends `"::"` to a string.
pub fn push_node_sep(s: &mut String)
    ensures
        final(s)@ == old(s)@ + node_sep(),
{
    let sep = "::";
    proof {
        reveal_strlit("::");
    }
    s.append(sep);
}

/// The Unicode `White_Space` property: the characters that `\s` matches
/// in a Unicode regular expression.
pub open spec fn is_white_space(c: char) -> bool {
    ||| ('\t' <= c && c <= '\r')
    ||| c == ' '
    ||| c == '\u{85}'
    ||| c == '\u{a0}'
    ||| c == '\u{1680}'
    ||| ('\u{2000}' <= c && c <= '\u{200a}')
    ||| c == '\u{2028}'
    ||| c == '\u{2029}'
    ||| c == '\u{202f}'
    ||| c == '\u{205f}'
    ||| c == '\u{3000}'
}

/// Whether `c` has the Unicode `White_Space` property.
pub fn white_space(c: char) -> (b: bool)
    ensures
        b == is_white_space(c),
{
    ('\t' <= c && c <= '\r') || c == ' ' || c == '\u{85}' || c == '\u{a0}' || c == '\u{1680}'
        || ('\u{2000}' <= c && c <= '\u{200a}') || c == '\u{2028}' || c == '\u{2029}'
        || c == '\u{202f}' || c == '\u{205f}' || c == '\u{3000}'
}

/// The ASCII word characters `[_0-9a-zA-Z]`.
pub open spec fn is_ascii_word(c: char) -> bool {
    ||| ('a' <= c && c <= 'z')
    ||| ('A' <= c && c <= 'Z')
    ||| ('0' <= c && c <= '9')
    ||| c == '_'
}

/// What `regex_syntax::is_word_character` returns for `c`: whether `c` is
/// a Unicode word character, the class that `\w` matches.
pub uninterp spec fn unicode_word_char(c: char) -> bool;

/// Whether `c` is a Unicode word character (`regex_syntax::is_word_character`).
///
/// Trusted: the result is the named function `unicode_word_char` of `c`
/// (the Unicode word class of UTS#18, looked up in the crate's tables); on
/// ASCII it is exactly `[_0-9a-zA-Z]`, which the crate answers through
/// `is_word_byte` and whose table holds no other ASCII range.
/// The crate panics only without its `unicode-perl` feature, which its
/// default features enable.
#[verifier::external_body]
pub(crate) fn word_char(c: char) -> (b: bool)
    ensures
        b == unicode_word_char(c),
        (c as u32) < 128 ==> (b <==> is_ascii_word(c)),
{
    regex_syntax::is_word_character(c)
}

/// The characters of a string, in order.
pub fn chars_of(s: &str) -> (v: Vec<char>)
    ensures
        v@ == s@,
{
    let mut v: Vec<char> = Vec::new();
    for c in it: s.chars()
        invariant
            v@ == it.seq().take(it.index() as int),
    {
        v.push(c);
    }
    v
}


/// Whether `w` occurs in `s` starting at position `i`.
pub open spec fn occurs_at(s: Seq<char>, i: int, w: Seq<char>) -> bool {
    0 <= i && i + w.len() <= s.len() && s.subrange(i, i + w.len()) == w
}

/// Whether the characters of `w` stand in `s` from position `i` on.
pub fn matches_at(s: &Vec<char>, i: usize, w: &str) -> (b: bool)
    ensures
        b == occurs_at(s@, i as int, w@),
{
    let n = w.unicode_len();
    if i > s.len() || n > s.len() - i {
        return false;
    }
    let mut k: usize = 0;
    while k < n
        invariant
            n == w@.len(),
            i + n <= s.len(),
            k <= n,
            forall|j: int| 0 <= j < k ==> s@[i + j] == w@[j],
        decreases n - k,
    {
        if s[i + k] != w.get_char(k) {
            assert(s@.subrange(i as int, i + n)[k as int] != w@[k as int]);
            return false;
        }
        k = k + 1;
    }
    assert(s@.subrange(i as int, i + n) =~= w@);
    true
}

/// The string made of the characters `v[from..to]`.
pub fn string_of_range(v: &Vec<char>, from: usize, to: usize) -> (s: String)
    requires
        from <= to <= v.len(),
    ensures
        s@ == v@.subrange(from as int, to as int),
{
    let mut s = String::new();
    let mut k = from;
    while k < to
        invariant
            from <= k <= to <= v.len(),
            s@ == v@.subrange(from as int, k as int),
        decreases to - k,
    {
        push_char(&mut s, v[k]);
        assert(v@.subrange(from as int, k + 1) =~= v@.subrange(from as int, k as int).push(v@[k as int]));
        k = k + 1;
    }
    s
}


/// A copy of `v[from..to]`.
pub fn copy_range(v: &Vec<char>, from: usize, to: usize) -> (r: Vec<char>)
    requires
        from <= to <= v.len(),
    ensures
        r@ == v@.subrange(from as int, to as int),
{
    let mut r: Vec<char> = Vec::new();
    let mut k = from;
    while k < to
        invariant
            from <= k <= to <= v.len(),
            r@ == v@.subrange(from as int, k as int),
        decreases to - k,
    {
        r.push(v[k]);
        assert(v@.subrange(from as int, k + 1) =~= v@.subrange(from as int, k as int).push(v@[k as int]));
        k = k + 1;
    }
    r
}

/// A copy of an optional string.
pub fn copy_opt_string(o: &Option<String>) -> (r: Option<String>)
    ensures
        r == *o,
{
    match o {
        Some(s) => Some(s.clone()),
        None => None,
    }
}


/// Whether two strings hold the same characters.
pub fn str_eq(a: &str, b: &str) -> (r: bool)
    ensures
        r == (a@ == b@),
{
    let va = chars_of(a);
    let vb = chars_of(b);
    if va.len() != vb.len() {
        return false;
    }
    let mut k: usize = 0;
    while k < va.len()
        invariant
            va@ == a@,
            vb@ == b@,
            va.len() == vb.len(),
            k <= va.len(),
            forall|j: int| 0 <= j < k ==> va@[j] == vb@[j],
        decreases va.len() - k,
    {
        if va[k] != vb[k] {
            return false;
        }
        k = k + 1;
    }
    assert(va@ =~= vb@);
    true
}

} // verus!
