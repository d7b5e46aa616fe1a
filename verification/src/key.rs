//! The identifier of a locale.

use vstd::prelude::*;
use vstd::string::StringExecFns;
use crate::text::{push_char, str_eq};

verus! {

/// The identifier of one locale, such as a language tag.
#[derive(Debug, Clone, PartialEq, Eq, PartialOrd, Ord, Hash)]
pub struct Key(pub String);

impl View for Key {
    type V = Seq<char>;

    open spec fn view(&self) -> Seq<char> {
        self.0@
    }
}

/// The text of the key for a language and, where there is one, a region: the
/// language alone, or the language, an underscore and the region.
pub open spec fn language_region_text(language: Seq<char>, region: Option<Seq<char>>) -> Seq<char> {
    match region {
        Some(r) => language.push('_') + r,
        None => language,
    }
}

impl Key {
    /// The key of a language and, where there is one, a region.
    pub fn from_language_region(language: &str, region: Option<&str>) -> (r: Key)
        ensures
            r@ == language_region_text(
                language@,
                match region {
                    Some(x) => Some(x@),
                    None => None,
                },
            ),
    {
        let mut s = language.to_owned();
        match region {
            Some(x) => {
                push_char(&mut s, '_');
                s.append(x);
            },
            None => {},
        }
        Key(s)
    }

    /// The key that a text names.
    pub fn new(s: &str) -> (r: Key)
        ensures
            r@ == s@,
    {
        Key(s.to_owned())
    }

    /// The key that a string names.
    pub fn from_string(s: String) -> (r: Key)
        ensures
            r@ == s@,
    {
        Key(s)
    }

    /// The key as text.
    pub fn as_str(&self) -> (r: &str)
        ensures
            r@ == self@,
    {
        self.0.as_str()
    }

    /// The key as an owned string: what it displays as.
    pub fn to_string(&self) -> (r: String)
        ensures
            r@ == self@,
    {
        self.0.clone()
    }

    /// True when the key is this text.
    pub fn eq_str(&self, other: &str) -> (r: bool)
        ensures
            r == (self@ == other@),
    {
        str_eq(self.0.as_str(), other)
    }
}

} // verus!
