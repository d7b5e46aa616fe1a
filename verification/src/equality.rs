//! `==` between values and plain text.

use vstd::prelude::*;
use vstd::std_specs::cmp::PartialEqSpecImpl;
use crate::value::JSONGetTextValue;

verus! {

impl<'a> PartialEq<JSONGetTextValue<'a>> for str {
    fn eq(&self, other: &JSONGetTextValue<'a>) -> (r: bool) {
        other.eq_str(self)
    }
}

impl<'a> PartialEqSpecImpl<JSONGetTextValue<'a>> for str {
    open spec fn obeys_eq_spec() -> bool {
        true
    }

    /// A text equals the values that are strings with its characters.
    open spec fn eq_spec(&self, other: &JSONGetTextValue<'a>) -> bool {
        other@.string == Some(self@)
    }
}

impl<'a> PartialEq<str> for JSONGetTextValue<'a> {
    fn eq(&self, other: &str) -> (r: bool) {
        self.eq_str(other)
    }
}

impl<'a> PartialEqSpecImpl<str> for JSONGetTextValue<'a> {
    open spec fn obeys_eq_spec() -> bool {
        true
    }

    /// A value equals the text whose characters it has as a string.
    open spec fn eq_spec(&self, other: &str) -> bool {
        self@.string == Some(other@)
    }
}

impl<'a, 'b> PartialEq<JSONGetTextValue<'a>> for &'b str {
    fn eq(&self, other: &JSONGetTextValue<'a>) -> (r: bool) {
        other.eq_str(*self)
    }
}

impl<'a, 'b> PartialEqSpecImpl<JSONGetTextValue<'a>> for &'b str {
    open spec fn obeys_eq_spec() -> bool {
        true
    }

    /// A text equals the values that are strings with its characters.
    open spec fn eq_spec(&self, other: &JSONGetTextValue<'a>) -> bool {
        other@.string == Some(self@)
    }
}

impl<'a, 'b> PartialEq<&'b str> for JSONGetTextValue<'a> {
    fn eq(&self, other: &&'b str) -> (r: bool) {
        self.eq_str(*other)
    }
}

impl<'a, 'b> PartialEqSpecImpl<&'b str> for JSONGetTextValue<'a> {
    open spec fn obeys_eq_spec() -> bool {
        true
    }

    /// A value equals the text whose characters it has as a string.
    open spec fn eq_spec(&self, other: &&'b str) -> bool {
        self@.string == Some(other@)
    }
}

} // verus!
