//! Regular expressions over the keys of texts.

use vstd::prelude::*;

verus! {

/// `regex::Regex`, a compiled regular expression. Nothing is stated of what
/// it holds.
#[verifier::external_type_specification]
#[verifier::external_body]
pub struct ExRegex(regex::Regex);

/// Whether the regular expression written as `source` has a match somewhere
/// in `text`.
pub uninterp spec fn pattern_matches(source: Seq<char>, text: Seq<char>) -> bool;

/// A regular expression, compiled, together with the text it was compiled
/// from. `Pattern::new` is the only way to make one, so the compiled form
/// always belongs to the text.
#[derive(Debug)]
pub struct Pattern {
    source: String,
    regex: regex::Regex,
}

impl View for Pattern {
    type V = Seq<char>;

    /// The text of the regular expression.
    closed spec fn view(&self) -> Seq<char> {
        self.source@
    }
}

/// `regex::Regex::new`: the compiled form of a regular expression, or `None`
/// where the crate rejects the text as malformed or too large.
#[verifier::external_body]
fn compile(source: &str) -> (r: Option<regex::Regex>) {
    regex::Regex::new(source).ok()
}

/// `regex::Regex::is_match`: true exactly when the regular expression has a
/// match anywhere in the text. For an expression that `Regex::new` compiled,
/// that depends on the text of the expression and the text searched alone.
#[verifier::external_body]
fn regex_is_match(pattern: &Pattern, text: &str) -> (r: bool)
    ensures
        r == pattern_matches(pattern@, text@),
{
    pattern.regex.is_match(text)
}

impl Pattern {
    /// Compiles a regular expression. The regex crate alone decides whether the
    /// text is one: it refuses what is malformed and what compiles to more than
    /// its size limit, which it measures in bytes of the machine at hand. What
    /// it accepts becomes the pattern of that text.
    pub fn new(source: &str) -> (r: Option<Pattern>)
        ensures
            r.is_some() ==> r.unwrap()@ == source@,
    {
        Self::from_compiled(source, compile(source))
    }

    /// The pattern of `source`, given what compiling `source` gave: a pattern
    /// exactly where there is a compiled form. It stays private, so that no
    /// text is ever joined to the compiled form of another.
    fn from_compiled(source: &str, compiled: Option<regex::Regex>) -> (r: Option<Pattern>)
        ensures
            r.is_some() == compiled.is_some(),
            r.is_some() ==> r.unwrap()@ == source@,
    {
        match compiled {
            Some(regex) => Some(Pattern { source: source.to_owned(), regex }),
            None => None,
        }
    }

    /// The text of the regular expression.
    pub fn as_str(&self) -> (r: &str)
        ensures
            r@ == self@,
    {
        self.source.as_str()
    }

    /// True when the regular expression has a match somewhere in `text`.
    pub fn is_match(&self, text: &str) -> (r: bool)
        ensures
            r == pattern_matches(self@, text@),
    {
        regex_is_match(self, text)
    }
}

} // verus!
