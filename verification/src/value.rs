//! The value of one text: a borrowed string, an owned JSON value, or a
//! reference to a JSON value that lives elsewhere.

use vstd::prelude::*;
use crate::errors::JSONGetTextValueError;
use crate::json::{
    bool_view, integer_view, json_string_text, null_view, parsed_value, string_text, string_view,
    Json, JsonView,
};
use crate::text::str_eq;

verus! {

/// Any JSON value, owned or borrowed.
#[derive(Debug, Clone, PartialEq)]
pub enum JSONGetTextValue<'a> {
    /// A string whose storage the caller owns.
    Str(&'a str),
    /// An owned JSON value.
    JSONValue(Json),
    /// A JSON value that is owned elsewhere.
    JSONValueRef(&'a Json),
}

/// What a value displays as: the string itself where it is a string, else its
/// JSON text.
pub open spec fn display_text(v: JsonView) -> Seq<char> {
    match v.string {
        Some(s) => s,
        None => v.text,
    }
}

impl<'a> View for JSONGetTextValue<'a> {
    type V = JsonView;

    /// The JSON value that this value stands for, whichever way it is held.
    open spec fn view(&self) -> JsonView {
        match self {
            JSONGetTextValue::Str(s) => string_view(s@),
            JSONGetTextValue::JSONValue(v) => v@,
            JSONGetTextValue::JSONValueRef(v) => v@,
        }
    }
}

impl<'a> JSONGetTextValue<'a> {
    /// A string value that borrows its text.
    pub fn from_str(s: &'a str) -> (r: JSONGetTextValue<'a>)
        ensures
            r == JSONGetTextValue::Str(s),
            r@ == string_view(s@),
    {
        JSONGetTextValue::Str(s)
    }

    /// A string value that owns its text.
    pub fn from_string(s: String) -> (r: JSONGetTextValue<'static>)
        ensures
            r is JSONValue,
            r@ == string_view(s@),
    {
        JSONGetTextValue::JSONValue(Json::from_string(s))
    }

    /// The value that a JSON text stands for.
    pub fn from_json_str(s: &str) -> (r: Result<JSONGetTextValue<'static>, JSONGetTextValueError>)
        ensures
            match r {
                Ok(v) => v is JSONValue && parsed_value(s@) == Some(v@),
                Err(e) => e is ParseError && parsed_value(s@).is_none(),
            },
    {
        JSONGetTextValue::parse_json(s)
    }

    /// The value that a JSON text stands for.
    pub fn parse_json(s: &str) -> (r: Result<JSONGetTextValue<'static>, JSONGetTextValueError>)
        ensures
            match r {
                Ok(v) => v is JSONValue && parsed_value(s@) == Some(v@),
                Err(e) => e is ParseError && parsed_value(s@).is_none(),
            },
    {
        match Json::parse(s) {
            Ok(v) => Ok(JSONGetTextValue::JSONValue(v)),
            Err(e) => Err(JSONGetTextValueError::ParseError(e)),
        }
    }

    /// A boolean value.
    pub fn from_bool(b: bool) -> (r: JSONGetTextValue<'static>)
        ensures
            r is JSONValue,
            r@ == bool_view(b),
    {
        JSONGetTextValue::JSONValue(Json::from_bool(b))
    }

    /// A number value.
    pub fn from_i8(n: i8) -> (r: JSONGetTextValue<'static>)
        ensures
            r is JSONValue,
            r@ == integer_view(n as int),
    {
        JSONGetTextValue::JSONValue(Json::from_integer(n as i128).unwrap())
    }

    /// A number value.
    pub fn from_i16(n: i16) -> (r: JSONGetTextValue<'static>)
        ensures
            r is JSONValue,
            r@ == integer_view(n as int),
    {
        JSONGetTextValue::JSONValue(Json::from_integer(n as i128).unwrap())
    }

    /// A number value.
    pub fn from_i32(n: i32) -> (r: JSONGetTextValue<'static>)
        ensures
            r is JSONValue,
            r@ == integer_view(n as int),
    {
        JSONGetTextValue::JSONValue(Json::from_integer(n as i128).unwrap())
    }

    /// A number value.
    pub fn from_i64(n: i64) -> (r: JSONGetTextValue<'static>)
        ensures
            r is JSONValue,
            r@ == integer_view(n as int),
    {
        JSONGetTextValue::JSONValue(Json::from_integer(n as i128).unwrap())
    }

    /// A number value, where the integer fits in 64 bits, signed or unsigned.
    pub fn from_i128(n: i128) -> (r: Result<JSONGetTextValue<'static>, JSONGetTextValueError>)
        ensures
            match r {
                Ok(v) => i64::MIN <= n <= u64::MAX && v is JSONValue && v@ == integer_view(
                    n as int,
                ),
                Err(e) => !(i64::MIN <= n <= u64::MAX) && e is IntegerOutOfRange,
            },
    {
        match Json::from_integer(n) {
            Some(v) => Ok(JSONGetTextValue::JSONValue(v)),
            None => Err(JSONGetTextValueError::IntegerOutOfRange),
        }
    }

    /// A number value.
    pub fn from_isize(n: isize) -> (r: JSONGetTextValue<'static>)
        ensures
            r is JSONValue,
            r@ == integer_view(n as int),
    {
        JSONGetTextValue::JSONValue(Json::from_integer(n as i128).unwrap())
    }

    /// A number value.
    pub fn from_u8(n: u8) -> (r: JSONGetTextValue<'static>)
        ensures
            r is JSONValue,
            r@ == integer_view(n as int),
    {
        JSONGetTextValue::JSONValue(Json::from_integer(n as i128).unwrap())
    }

    /// A number value.
    pub fn from_u16(n: u16) -> (r: JSONGetTextValue<'static>)
        ensures
            r is JSONValue,
            r@ == integer_view(n as int),
    {
        JSONGetTextValue::JSONValue(Json::from_integer(n as i128).unwrap())
    }

    /// A number value.
    pub fn from_u32(n: u32) -> (r: JSONGetTextValue<'static>)
        ensures
            r is JSONValue,
            r@ == integer_view(n as int),
    {
        JSONGetTextValue::JSONValue(Json::from_integer(n as i128).unwrap())
    }

    /// A number value.
    pub fn from_u64(n: u64) -> (r: JSONGetTextValue<'static>)
        ensures
            r is JSONValue,
            r@ == integer_view(n as int),
    {
        JSONGetTextValue::JSONValue(Json::from_integer(n as i128).unwrap())
    }

    /// A number value, where the integer fits in 64 bits.
    pub fn from_u128(n: u128) -> (r: Result<JSONGetTextValue<'static>, JSONGetTextValueError>)
        ensures
            match r {
                Ok(v) => n <= u64::MAX && v is JSONValue && v@ == integer_view(n as int),
                Err(e) => n > u64::MAX && e is IntegerOutOfRange,
            },
    {
        if n > 0xffff_ffff_ffff_ffffu128 {
            return Err(JSONGetTextValueError::IntegerOutOfRange);
        }
        match Json::from_integer(n as i128) {
            Some(v) => Ok(JSONGetTextValue::JSONValue(v)),
            None => Err(JSONGetTextValueError::IntegerOutOfRange),
        }
    }

    /// A number value.
    pub fn from_usize(n: usize) -> (r: JSONGetTextValue<'static>)
        ensures
            r is JSONValue,
            r@ == integer_view(n as int),
    {
        JSONGetTextValue::JSONValue(Json::from_integer(n as i128).unwrap())
    }

    /// A value that owns the given JSON value.
    pub fn from_json_value(v: Json) -> (r: JSONGetTextValue<'static>)
        ensures
            r == JSONGetTextValue::JSONValue(v),
            r@ == v@,
    {
        JSONGetTextValue::JSONValue(v)
    }

    /// A value that refers to the given JSON value.
    pub fn from_json_value_ref(v: &'a Json) -> (r: JSONGetTextValue<'a>)
        ensures
            r == JSONGetTextValue::JSONValueRef(v),
            r@ == v@,
    {
        JSONGetTextValue::JSONValueRef(v)
    }

    /// The value `null`.
    pub fn null() -> (r: JSONGetTextValue<'static>)
        ensures
            r is JSONValue,
            r@ == null_view(),
    {
        JSONGetTextValue::JSONValue(Json::null())
    }

    /// The value as JSON text. A borrowed string comes out as a JSON string,
    /// between quotes and escaped, exactly as an owned string of the same
    /// characters does.
    pub fn to_json_string(&self) -> (r: String)
        ensures
            r@ == self@.text,
            self matches JSONGetTextValue::Str(s) ==> r@ == string_text(s@),
    {
        match self {
            JSONGetTextValue::Str(s) => json_string_text(s),
            JSONGetTextValue::JSONValue(v) => v.text().to_owned(),
            JSONGetTextValue::JSONValueRef(v) => v.text().to_owned(),
        }
    }

    /// The value as JSON text.
    pub fn to_json(&self) -> (r: String)
        ensures
            r@ == self@.text,
    {
        self.to_json_string()
    }

    /// The string, where the value is a string. A value of another kind gives
    /// `None`: it is not turned into text here.
    pub fn as_str(&self) -> (r: Option<&str>)
        ensures
            match r {
                Some(s) => self@.string == Some(s@),
                None => self@.string.is_none(),
            },
    {
        match self {
            JSONGetTextValue::Str(s) => Some(s),
            JSONGetTextValue::JSONValue(v) => v.as_str(),
            JSONGetTextValue::JSONValueRef(v) => v.as_str(),
        }
    }

    /// A value that borrows from this one: a borrowed string stays one, and an
    /// owned or referenced JSON value becomes a reference to the same JSON
    /// value. Nothing is copied.
    pub fn clone_borrowed(&self) -> (r: JSONGetTextValue<'_>)
        ensures
            r@ == self@,
            match *self {
                JSONGetTextValue::Str(s) => r == JSONGetTextValue::Str(s),
                JSONGetTextValue::JSONValue(v) => r == JSONGetTextValue::JSONValueRef(&v),
                JSONGetTextValue::JSONValueRef(v) => r == JSONGetTextValue::JSONValueRef(v),
            },
    {
        match self {
            JSONGetTextValue::Str(s) => JSONGetTextValue::Str(*s),
            JSONGetTextValue::JSONValue(v) => JSONGetTextValue::JSONValueRef(v),
            JSONGetTextValue::JSONValueRef(v) => JSONGetTextValue::JSONValueRef(*v),
        }
    }

    /// A copy of the value that stands for the same JSON value: an owned JSON
    /// value is copied, a borrowed one is borrowed once more.
    pub fn duplicate(&self) -> (r: JSONGetTextValue<'a>)
        ensures
            r@ == self@,
    {
        match self {
            JSONGetTextValue::Str(s) => JSONGetTextValue::Str(*s),
            JSONGetTextValue::JSONValue(v) => JSONGetTextValue::JSONValue(v.duplicate()),
            JSONGetTextValue::JSONValueRef(v) => JSONGetTextValue::JSONValueRef(*v),
        }
    }

    /// True when the value is a string with exactly these characters. A value
    /// that is not a string equals no text.
    pub fn eq_str(&self, other: &str) -> (r: bool)
        ensures
            r == (self@.string == Some(other@)),
    {
        match self.as_str() {
            Some(s) => str_eq(s, other),
            None => false,
        }
    }

    /// What the value displays as: a string as its characters, without quotes,
    /// and any other value as its JSON text.
    pub fn to_string(&self) -> (r: String)
        ensures
            r@ == display_text(self@),
    {
        match self.as_str() {
            Some(s) => s.to_owned(),
            None => self.to_json_string(),
        }
    }
}

/// Borrowing a value once more changes nothing that can be read from it: it is
/// a string exactly when the value it borrows from is, with the same
/// characters, and it displays and serialises as that value does.
pub proof fn lemma_clone_borrowed_reads_alike(source: JSONGetTextValue, borrowed: JSONGetTextValue)
    requires
        borrowed@ == source@,
    ensures
        borrowed@.string == source@.string,
        display_text(borrowed@) == display_text(source@),
        borrowed@.text == source@.text,
{
}

/// A borrowed string and an owned string of the same characters serialise to
/// the same JSON text and display alike.
pub proof fn lemma_borrowed_and_owned_strings_agree(s: &str, owned: JSONGetTextValue)
    requires
        owned@ == string_view(s@),
    ensures
        JSONGetTextValue::Str(s)@.text == owned@.text,
        display_text(JSONGetTextValue::Str(s)@) == display_text(owned@),
        display_text(owned@) == s@,
{
}

} // verus!
