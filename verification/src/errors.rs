//! What can go wrong when a value is made or a catalog is built.

use vstd::prelude::*;
use vstd::string::StringExecFns;
use crate::key::Key;

verus! {

/// `std::io::Error`, the error of a failed read. It is carried as it is:
/// nothing is stated of what it holds.
#[verifier::external_type_specification]
#[verifier::external_body]
pub struct ExIoError(std::io::Error);

/// Why a value could not be made.
#[derive(Debug)]
pub enum JSONGetTextValueError {
    /// The integer does not fit in the 64 bits of a JSON number.
    IntegerOutOfRange,
    /// The text is not JSON.
    ParseError(serde_json::Error),
}

/// Why a catalog could not be built.
#[derive(Debug)]
pub enum JSONGetTextBuildError {
    /// No locale was added under the default key.
    DefaultKeyNotFound,
    /// The locale `key` has the text `text`, which the default locale lacks.
    TextInKeyNotInDefaultKey { key: Key, text: String },
    /// A locale was added twice under this key.
    DuplicatedKey(Key),
    /// A source file could not be read.
    IOError(std::io::Error),
    /// A source is not a JSON object.
    SerdeJSONError(serde_json::Error),
}

/// The message of the error for a text that the default locale lacks.
pub open spec fn missing_text_message(key: Seq<char>, text: Seq<char>) -> Seq<char> {
    "The text `"@ + text + "` in the key `"@ + key + "` is not found in the default key."@
}

/// `Display` of `serde_json::Error`, through `to_string`: the parser's own
/// message, of which nothing is stated.
#[verifier::external_body]
fn json_error_message(e: &serde_json::Error) -> (r: String) {
    e.to_string()
}

/// `Display` of `std::io::Error`, through `to_string`: the system's own
/// message, of which nothing is stated.
#[verifier::external_body]
fn io_error_message(e: &std::io::Error) -> (r: String) {
    e.to_string()
}

impl JSONGetTextValueError {
    /// The message of the error.
    pub fn to_string(&self) -> (r: String)
        ensures
            self is IntegerOutOfRange ==> r@ == "The integer is out of range."@,
    {
        match self {
            JSONGetTextValueError::IntegerOutOfRange => "The integer is out of range.".to_owned(),
            JSONGetTextValueError::ParseError(e) => json_error_message(e),
        }
    }
}

impl JSONGetTextBuildError {
    /// The message of the error.
    pub fn to_string(&self) -> (r: String)
        ensures
            self is DefaultKeyNotFound ==> r@ == "The default key is not found."@,
            self matches JSONGetTextBuildError::TextInKeyNotInDefaultKey { key, text } ==> r@
                == missing_text_message(key@, text@),
            self matches JSONGetTextBuildError::DuplicatedKey(key) ==> r@ == key@,
    {
        match self {
            JSONGetTextBuildError::DefaultKeyNotFound => "The default key is not found.".to_owned(),
            JSONGetTextBuildError::TextInKeyNotInDefaultKey { key, text } => {
                let mut s = "The text `".to_owned();
                s.append(text.as_str());
                s.append("` in the key `");
                s.append(key.as_str());
                s.append("` is not found in the default key.");
                s
            },
            JSONGetTextBuildError::DuplicatedKey(key) => key.to_string(),
            JSONGetTextBuildError::IOError(e) => io_error_message(e),
            JSONGetTextBuildError::SerdeJSONError(e) => json_error_message(e),
        }
    }
}

} // verus!
