//! Compiled name filters.
//!
//! Name filters are regular expressions. They are compiled once, when a
//! bucket set is activated, and never recompiled per event. The compiled
//! matchers live in an opaque set; `filter_patterns` names the patterns the
//! set was built from, and `regex_accepts` names what a compiled pattern
//! matches.

use vstd::prelude::*;

verus! {

/// Whether the regular expression `pattern` matches somewhere inside `text`
/// (a partial, unanchored match). Names the result of
/// `regex::Regex::is_match`, which depends on the pattern and the text alone.
pub uninterp spec fn regex_accepts(pattern: Seq<char>, text: Seq<char>) -> bool;

/// Whether `pattern` is a well-formed regular expression. Names the success
/// of `regex::Regex::new`, which depends on the pattern alone.
pub uninterp spec fn regex_compiles(pattern: Seq<char>) -> bool;

/// The patterns the matchers of a `FilterSet` were compiled from.
pub uninterp spec fn filter_patterns(fs: FilterSet) -> Seq<Seq<char>>;

/// A set of compiled name filters. It holds `regex::Regex` matchers, which
/// are opaque here; `filter_patterns` names what it holds.
#[verifier::external_body]
pub struct FilterSet {
    matchers: Vec<regex::Regex>,
}

/// The error type of regular-expression compilation.
#[verifier::external_type_specification]
#[verifier::external_body]
pub struct ExRegexError(regex::Error);

impl FilterSet {
    /// An empty filter set. Relies on `Vec::new`.
    #[verifier::external_body]
    pub fn new() -> (r: FilterSet)
        ensures
            filter_patterns(r) == Seq::<Seq<char>>::empty(),
    {
        FilterSet { matchers: Vec::new() }
    }

    /// Compile `pattern` and add its matcher to the set. Relies on
    /// `regex::Regex::new`: compilation succeeds or fails by the pattern
    /// alone, and the returned matcher matches as the pattern prescribes.
    #[verifier::external_body]
    pub fn add(&mut self, pattern: &String) -> (r: Result<(), regex::Error>)
        ensures
            r is Ok <==> regex_compiles(pattern@),
            r is Ok ==> filter_patterns(*final(self)) == filter_patterns(*old(self)).push(
                pattern@,
            ),
            r is Err ==> filter_patterns(*final(self)) == filter_patterns(*old(self)),
    {
        let re = match regex::Regex::new(pattern) {
            Ok(re) => re,
            Err(e) => {
                return Err(e);
            },
        };
        self.matchers.push(re);
        Ok(())
    }

    /// Whether any matcher in the set matches `text`. Relies on
    /// `regex::Regex::is_match`: a partial, unanchored match of a compiled
    /// pattern against the text.
    #[verifier::external_body]
    pub fn matches_any(&self, text: &str) -> (r: bool)
        ensures
            r == (exists|i: int| 0 <= i < filter_patterns(*self).len() && regex_accepts(filter_patterns(*self)[i], text@)),
    {
        self.matchers.iter().any(|re| re.is_match(text))
    }
}

/// The message of a failed regular-expression compilation. Relies on the
/// `Display` rendering of `regex::Error`.
#[verifier::external_body]
pub fn regex_error_message(e: &regex::Error) -> String {
    e.to_string()
}

} // verus!
