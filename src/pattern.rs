//! Regular-expression patterns used by the naming rules.

use vstd::prelude::*;
use regex::Regex;

verus! {

#[verifier::external_type_specification]
#[verifier::external_body]
pub struct ExRegex(Regex);

/// Whether the regex crate accepts `pattern` (syntax and default size limit).
pub uninterp spec fn regex_compiles(pattern: Seq<char>) -> bool;

/// Whether the regex compiled from `pattern` matches somewhere in `text`.
pub uninterp spec fn regex_matches(pattern: Seq<char>, text: Seq<char>) -> bool;

/// A compiled regular expression together with its source text.
///
/// Values are only built by `Pattern::compile`, so `re` is always the
/// compilation of `source`.
pub struct Pattern {
    source: String,
    re: Regex,
}

impl View for Pattern {
    type V = Seq<char>;

    /// The source text of the pattern.
    closed spec fn view(&self) -> Seq<char> {
        self.source@
    }
}

impl Pattern {
    /// Relies on `regex::Regex::new`: whether a pattern compiles depends on
    /// the pattern text alone.
    #[verifier::external_body]
    pub(crate) fn compile(p: &str) -> (r: Option<Pattern>)
        ensures
            r is Some <==> regex_compiles(p@),
            r matches Some(x) ==> x@ == p@,
    {
        match Regex::new(p) {
            Ok(re) => Some(Pattern { source: p.to_string(), re }),
            Err(_) => None,
        }
    }

    /// Relies on `regex::Regex::is_match`: whether the compiled pattern
    /// matches anywhere in `text`.
    #[verifier::external_body]
    pub(crate) fn is_match(&self, text: &str) -> (r: bool)
        ensures
            r == regex_matches(self@, text@),
    {
        self.re.is_match(text)
    }

    /// The source text of the pattern.
    pub fn as_str(&self) -> (r: &str)
        ensures
            r@ == self@,
    {
        self.source.as_str()
    }
}

} // verus!
