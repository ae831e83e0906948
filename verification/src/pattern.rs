//! File-name patterns: regular expressions compiled by the `regex` crate.

use vstd::prelude::*;

verus! {

#[verifier::external_type_specification]
#[verifier::external_body]
pub struct ExRegex(regex::Regex);

#[verifier::external_type_specification]
#[verifier::external_body]
pub struct ExRegexError(regex::Error);

/// Whether `regex::Regex::new` accepts this pattern.
pub uninterp spec fn regex_compiles(pattern: Seq<char>) -> bool;

/// What `regex::Regex::is_match` returns for the regex compiled from
/// `pattern` and this haystack: whether it matches anywhere in it.
pub uninterp spec fn regex_is_match(pattern: Seq<char>, haystack: Seq<char>) -> bool;

/// The source of a pattern anchored to match a whole name.
pub open spec fn whole_name_source(p: Seq<char>) -> Seq<char> {
    "^(?:"@ + p + ")$"@
}

/// A compiled file-name pattern; its view is the pattern's source text.
pub struct FilePattern {
    pattern: String,
    re: regex::Regex,
}

/// The reason a pattern was refused.
pub struct PatternError {
    pub message: String,
}

impl View for FilePattern {
    type V = Seq<char>;

    closed spec fn view(&self) -> Seq<char> {
        self.pattern@
    }
}

/// Compiles a pattern with `regex::Regex::new`.
///
/// Trusted: the call succeeds exactly when the pattern is one that the
/// crate accepts (the named `regex_compiles`, a function of the pattern
/// alone), and the value returned holds the regex compiled from `pattern`
/// beside `pattern` itself, which is what `FilePattern::is_match` relies on.
#[verifier::external_body]
fn compile_regex(pattern: &str) -> (r: Result<FilePattern, regex::Error>)
    ensures
        r is Ok <==> regex_compiles(pattern@),
        r matches Ok(p) ==> p@ == pattern@,
{
    match regex::Regex::new(pattern) {
        Ok(re) => Ok(FilePattern { pattern: pattern.to_string(), re }),
        Err(e) => Err(e),
    }
}

/// The message of a regex error (its `Display` text).
///
/// Trusted for nothing: no clause states what the text is.
#[verifier::external_body]
fn regex_error_text(e: &regex::Error) -> String {
    e.to_string()
}

impl FilePattern {
    /// Compiles `pattern`; fails with the crate's message where the crate
    /// refuses it.
    pub fn new(pattern: &str) -> (r: Result<FilePattern, PatternError>)
        ensures
            r is Ok <==> regex_compiles(pattern@),
            r matches Ok(p) ==> p@ == pattern@,
    {
        match compile_regex(pattern) {
            Ok(p) => Ok(p),
            Err(e) => Err(PatternError { message: regex_error_text(&e) }),
        }
    }

    /// Compiles `pattern` so that it must match a whole name: the source
    /// compiled is `^(?:` `pattern` `)$`.
    pub fn whole_name(pattern: &str) -> (r: Result<FilePattern, PatternError>)
        ensures
            r is Ok <==> regex_compiles(whole_name_source(pattern@)),
            r matches Ok(p) ==> p@ == whole_name_source(pattern@),
    {
        let mut source = String::from_str("^(?:");
        source.append(pattern);
        source.append(")$");
        FilePattern::new(source.as_str())
    }

    /// Whether the pattern matches anywhere in `text` (`regex::Regex::is_match`).
    ///
    /// Trusted: the result is the named `regex_is_match` of the pattern this
    /// value was compiled from and of `text`.
    #[verifier::external_body]
    pub(crate) fn is_match(&self, text: &str) -> (b: bool)
        ensures
            b == regex_is_match(self@, text@),
    {
        self.re.is_match(text)
    }

    /// The pattern's source text.
    pub fn as_str(&self) -> (s: &str)
        ensures
            s@ == self@,
    {
        self.pattern.as_str()
    }
}

} // verus!
