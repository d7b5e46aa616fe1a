//! Conversions into values through the standard traits.

use vstd::prelude::*;
use vstd::std_specs::convert::{FromSpecImpl, TryFromSpecImpl};
use crate::errors::JSONGetTextValueError;
use crate::json::{bool_view, integer_view, string_view, Json};
use crate::value::JSONGetTextValue;

verus! {

impl<'a> From<&'a str> for JSONGetTextValue<'a> {
    fn from(v: &'a str) -> (r: JSONGetTextValue<'a>) {
        JSONGetTextValue::from_str(v)
    }
}

impl<'a> FromSpecImpl<&'a str> for JSONGetTextValue<'a> {
    open spec fn obeys_from_spec() -> bool {
        true
    }

    open spec fn from_spec(v: &'a str) -> JSONGetTextValue<'a> {
        JSONGetTextValue::Str(v)
    }
}

impl From<Json> for JSONGetTextValue<'static> {
    fn from(v: Json) -> (r: JSONGetTextValue<'static>) {
        JSONGetTextValue::from_json_value(v)
    }
}

impl FromSpecImpl<Json> for JSONGetTextValue<'static> {
    open spec fn obeys_from_spec() -> bool {
        true
    }

    open spec fn from_spec(v: Json) -> JSONGetTextValue<'static> {
        JSONGetTextValue::JSONValue(v)
    }
}

impl<'a> From<&'a Json> for JSONGetTextValue<'a> {
    fn from(v: &'a Json) -> (r: JSONGetTextValue<'a>) {
        JSONGetTextValue::from_json_value_ref(v)
    }
}

impl<'a> FromSpecImpl<&'a Json> for JSONGetTextValue<'a> {
    open spec fn obeys_from_spec() -> bool {
        true
    }

    open spec fn from_spec(v: &'a Json) -> JSONGetTextValue<'a> {
        JSONGetTextValue::JSONValueRef(v)
    }
}

impl From<String> for JSONGetTextValue<'static> {
    fn from(v: String) -> (r: JSONGetTextValue<'static>)
        ensures
            r is JSONValue,
            r@ == string_view(v@),
    {
        JSONGetTextValue::from_string(v)
    }
}

impl FromSpecImpl<String> for JSONGetTextValue<'static> {
    /// What the conversion gives is stated of its view, on `from` itself.
    open spec fn obeys_from_spec() -> bool {
        false
    }

    open spec fn from_spec(v: String) -> JSONGetTextValue<'static> {
        arbitrary()
    }
}

impl From<bool> for JSONGetTextValue<'static> {
    fn from(v: bool) -> (r: JSONGetTextValue<'static>)
        ensures
            r is JSONValue,
            r@ == bool_view(v),
    {
        JSONGetTextValue::from_bool(v)
    }
}

impl FromSpecImpl<bool> for JSONGetTextValue<'static> {
    /// What the conversion gives is stated of its view, on `from` itself.
    open spec fn obeys_from_spec() -> bool {
        false
    }

    open spec fn from_spec(v: bool) -> JSONGetTextValue<'static> {
        arbitrary()
    }
}

impl From<i8> for JSONGetTextValue<'static> {
    fn from(v: i8) -> (r: JSONGetTextValue<'static>)
        ensures
            r is JSONValue,
            r@ == integer_view(v as int),
    {
        JSONGetTextValue::from_i8(v)
    }
}

impl FromSpecImpl<i8> for JSONGetTextValue<'static> {
    /// What the conversion gives is stated of its view, on `from` itself.
    open spec fn obeys_from_spec() -> bool {
        false
    }

    open spec fn from_spec(v: i8) -> JSONGetTextValue<'static> {
        arbitrary()
    }
}

impl From<i16> for JSONGetTextValue<'static> {
    fn from(v: i16) -> (r: JSONGetTextValue<'static>)
        ensures
            r is JSONValue,
            r@ == integer_view(v as int),
    {
        JSONGetTextValue::from_i16(v)
    }
}

impl FromSpecImpl<i16> for JSONGetTextValue<'static> {
    /// What the conversion gives is stated of its view, on `from` itself.
    open spec fn obeys_from_spec() -> bool {
        false
    }

    open spec fn from_spec(v: i16) -> JSONGetTextValue<'static> {
        arbitrary()
    }
}

impl From<i32> for JSONGetTextValue<'static> {
    fn from(v: i32) -> (r: JSONGetTextValue<'static>)
        ensures
            r is JSONValue,
            r@ == integer_view(v as int),
    {
        JSONGetTextValue::from_i32(v)
    }
}

impl FromSpecImpl<i32> for JSONGetTextValue<'static> {
    /// What the conversion gives is stated of its view, on `from` itself.
    open spec fn obeys_from_spec() -> bool {
        false
    }

    open spec fn from_spec(v: i32) -> JSONGetTextValue<'static> {
        arbitrary()
    }
}

impl From<i64> for JSONGetTextValue<'static> {
    fn from(v: i64) -> (r: JSONGetTextValue<'static>)
        ensures
            r is JSONValue,
            r@ == integer_view(v as int),
    {
        JSONGetTextValue::from_i64(v)
    }
}

impl FromSpecImpl<i64> for JSONGetTextValue<'static> {
    /// What the conversion gives is stated of its view, on `from` itself.
    open spec fn obeys_from_spec() -> bool {
        false
    }

    open spec fn from_spec(v: i64) -> JSONGetTextValue<'static> {
        arbitrary()
    }
}

impl From<isize> for JSONGetTextValue<'static> {
    fn from(v: isize) -> (r: JSONGetTextValue<'static>)
        ensures
            r is JSONValue,
            r@ == integer_view(v as int),
    {
        JSONGetTextValue::from_isize(v)
    }
}

impl FromSpecImpl<isize> for JSONGetTextValue<'static> {
    /// What the conversion gives is stated of its view, on `from` itself.
    open spec fn obeys_from_spec() -> bool {
        false
    }

    open spec fn from_spec(v: isize) -> JSONGetTextValue<'static> {
        arbitrary()
    }
}

impl From<u8> for JSONGetTextValue<'static> {
    fn from(v: u8) -> (r: JSONGetTextValue<'static>)
        ensures
            r is JSONValue,
            r@ == integer_view(v as int),
    {
        JSONGetTextValue::from_u8(v)
    }
}

impl FromSpecImpl<u8> for JSONGetTextValue<'static> {
    /// What the conversion gives is stated of its view, on `from` itself.
    open spec fn obeys_from_spec() -> bool {
        false
    }

    open spec fn from_spec(v: u8) -> JSONGetTextValue<'static> {
        arbitrary()
    }
}

impl From<u16> for JSONGetTextValue<'static> {
    fn from(v: u16) -> (r: JSONGetTextValue<'static>)
        ensures
            r is JSONValue,
            r@ == integer_view(v as int),
    {
        JSONGetTextValue::from_u16(v)
    }
}

impl FromSpecImpl<u16> for JSONGetTextValue<'static> {
    /// What the conversion gives is stated of its view, on `from` itself.
    open spec fn obeys_from_spec() -> bool {
        false
    }

    open spec fn from_spec(v: u16) -> JSONGetTextValue<'static> {
        arbitrary()
    }
}

impl From<u32> for JSONGetTextValue<'static> {
    fn from(v: u32) -> (r: JSONGetTextValue<'static>)
        ensures
            r is JSONValue,
            r@ == integer_view(v as int),
    {
        JSONGetTextValue::from_u32(v)
    }
}

impl FromSpecImpl<u32> for JSONGetTextValue<'static> {
    /// What the conversion gives is stated of its view, on `from` itself.
    open spec fn obeys_from_spec() -> bool {
        false
    }

    open spec fn from_spec(v: u32) -> JSONGetTextValue<'static> {
        arbitrary()
    }
}

impl From<u64> for JSONGetTextValue<'static> {
    fn from(v: u64) -> (r: JSONGetTextValue<'static>)
        ensures
            r is JSONValue,
            r@ == integer_view(v as int),
    {
        JSONGetTextValue::from_u64(v)
    }
}

impl FromSpecImpl<u64> for JSONGetTextValue<'static> {
    /// What the conversion gives is stated of its view, on `from` itself.
    open spec fn obeys_from_spec() -> bool {
        false
    }

    open spec fn from_spec(v: u64) -> JSONGetTextValue<'static> {
        arbitrary()
    }
}

impl From<usize> for JSONGetTextValue<'static> {
    fn from(v: usize) -> (r: JSONGetTextValue<'static>)
        ensures
            r is JSONValue,
            r@ == integer_view(v as int),
    {
        JSONGetTextValue::from_usize(v)
    }
}

impl FromSpecImpl<usize> for JSONGetTextValue<'static> {
    /// What the conversion gives is stated of its view, on `from` itself.
    open spec fn obeys_from_spec() -> bool {
        false
    }

    open spec fn from_spec(v: usize) -> JSONGetTextValue<'static> {
        arbitrary()
    }
}

impl TryFrom<i128> for JSONGetTextValue<'static> {
    type Error = JSONGetTextValueError;

    fn try_from(v: i128) -> (r: Result<JSONGetTextValue<'static>, JSONGetTextValueError>)
        ensures
            match r {
                Ok(value) => i64::MIN <= v <= u64::MAX && value is JSONValue && value@ == integer_view(v as int),
                Err(e) => !(i64::MIN <= v <= u64::MAX) && e is IntegerOutOfRange,
            },
    {
        JSONGetTextValue::from_i128(v)
    }
}

impl TryFromSpecImpl<i128> for JSONGetTextValue<'static> {
    /// What the conversion gives is stated of its view, on `try_from` itself.
    open spec fn obeys_try_from_spec() -> bool {
        false
    }

    open spec fn try_from_spec(v: i128) -> Result<
        JSONGetTextValue<'static>,
        JSONGetTextValueError,
    > {
        arbitrary()
    }
}

impl TryFrom<u128> for JSONGetTextValue<'static> {
    type Error = JSONGetTextValueError;

    fn try_from(v: u128) -> (r: Result<JSONGetTextValue<'static>, JSONGetTextValueError>)
        ensures
            match r {
                Ok(value) => v <= u64::MAX && value is JSONValue && value@ == integer_view(v as int),
                Err(e) => !(v <= u64::MAX) && e is IntegerOutOfRange,
            },
    {
        JSONGetTextValue::from_u128(v)
    }
}

impl TryFromSpecImpl<u128> for JSONGetTextValue<'static> {
    /// What the conversion gives is stated of its view, on `try_from` itself.
    open spec fn obeys_try_from_spec() -> bool {
        false
    }

    open spec fn try_from_spec(v: u128) -> Result<
        JSONGetTextValue<'static>,
        JSONGetTextValueError,
    > {
        arbitrary()
    }
}

} // verus!
