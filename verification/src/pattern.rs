//! Regular expressions, compiled once and matched many times.
//!
//! Matching is done by the `regex` crate. What it answers is not defined
//! here: it is named, as a function of the pattern's text and of the text
//! searched, and the rest of the library is proved against those names.
use vstd::prelude::*;

verus! {

/// `regex::Regex`, a compiled regular expression. Nothing inside it is
/// seen here.
#[verifier::external_type_specification]
#[verifier::external_body]
pub struct ExRegex(regex::Regex);

/// `regex::Error`, why a pattern was not accepted. Nothing inside it is
/// seen here.
#[verifier::external_type_specification]
#[verifier::external_body]
pub struct ExRegexError(regex::Error);

/// Whether `regex::Regex::new` accepts `pattern`.
pub uninterp spec fn pattern_is_valid(pattern: Seq<char>) -> bool;

/// Whether the regular expression `pattern` has a match somewhere in `text`.
pub uninterp spec fn pattern_matches(pattern: Seq<char>, text: Seq<char>) -> bool;

/// The part of `text` that capture group `group` took in the first match of
/// `pattern`; `None` where there is no match, no such group, or the group
/// took no part in the match.
pub uninterp spec fn pattern_capture(pattern: Seq<char>, text: Seq<char>, group: usize) -> Option<
    Seq<char>,
>;

/// For each of the successive non-overlapping matches of `pattern` in
/// `text`, in order, the part of `text` that capture group `group` took in
/// it, or `None` where it took none.
pub uninterp spec fn pattern_captures_all(
    pattern: Seq<char>,
    text: Seq<char>,
    group: usize,
) -> Seq<Option<Seq<char>>>;

/// A compiled regular expression together with the text it was compiled
/// from. A value is only ever made by [`Pattern::compile`], so the two
/// always belong together.
#[derive(Debug)]
pub struct Pattern {
    source: String,
    regex: regex::Regex,
}

impl View for Pattern {
    type V = Seq<char>;

    /// The text of the pattern.
    closed spec fn view(&self) -> Seq<char> {
        self.source@
    }
}

impl Pattern {
    /// Calls `regex::Regex::new`, which compiles `pattern` with the crate's
    /// default options. It succeeds exactly on the patterns that the crate
    /// accepts, and the value made remembers the pattern's text.
    #[verifier::external_body]
    pub(crate) fn compile(pattern: &str) -> (r: Result<Pattern, regex::Error>)
        ensures
            r is Ok <==> pattern_is_valid(pattern@),
            r matches Ok(p) ==> p@ == pattern@,
    {
        match regex::Regex::new(pattern) {
            Ok(regex) => Ok(Pattern { source: pattern.to_owned(), regex }),
            Err(e) => Err(e),
        }
    }

    /// Calls `regex::Regex::is_match`: whether the expression matches
    /// anywhere in `text`. For an expression compiled with the default
    /// options this depends on the pattern's text and on `text` alone.
    #[verifier::external_body]
    pub(crate) fn is_match(&self, text: &str) -> (b: bool)
        ensures
            b == pattern_matches(self@, text@),
    {
        self.regex.is_match(text)
    }

    /// Calls `regex::Regex::captures` and `regex::Captures::get`: the text
    /// of group `group` in the first match, if there is a match and the
    /// group took part in it.
    #[verifier::external_body]
    pub(crate) fn capture(&self, text: &str, group: usize) -> (r: Option<String>)
        ensures
            r is Some <==> pattern_capture(self@, text@, group) is Some,
            r matches Some(s) ==> pattern_capture(self@, text@, group) == Some(s@),
    {
        match self.regex.captures(text) {
            Some(caps) => caps.get(group).map(|m| m.as_str().to_owned()),
            None => None,
        }
    }

    /// Calls `regex::Regex::captures_iter` and `regex::Captures::get`: the
    /// text of group `group` in each successive non-overlapping match, in
    /// the order of the matches.
    #[verifier::external_body]
    pub(crate) fn captures_all(&self, text: &str, group: usize) -> (r: Vec<Option<String>>)
        ensures
            r@.len() == pattern_captures_all(self@, text@, group).len(),
            forall|i: int|
                0 <= i < r@.len() ==> (#[trigger] r@[i] is Some) == (pattern_captures_all(
                    self@,
                    text@,
                    group,
                )[i] is Some),
            forall|i: int|
                0 <= i < r@.len() && r@[i] is Some ==> pattern_captures_all(self@, text@, group)[i]
                    == Some((#[trigger] r@[i])->0@),
    {
        self.regex
            .captures_iter(text)
            .map(|caps| caps.get(group).map(|m| m.as_str().to_owned()))
            .collect()
    }

    /// The text of the pattern.
    pub fn source(&self) -> (s: &str)
        ensures
            s@ == self@,
    {
        self.source.as_str()
    }
}

/// Calls the `Display` impl of `regex::Error`: the error's text. Nothing
/// is claimed of it.
#[verifier::external_body]
pub(crate) fn error_text(e: &regex::Error) -> String {
    e.to_string()
}

} // verus!
