//! JSON values as this library reads them, and the text of a JSON string.

use vstd::prelude::*;
use crate::text::push_char;

verus! {

/// The lower-case hexadecimal digit of a number below sixteen.
pub open spec fn hex_digit(n: u8) -> char {
    if n < 10 {
        (n + 48u8) as char
    } else {
        (n + 87u8) as char
    }
}

/// How one character stands inside a JSON string: a quote and a backslash get a
/// backslash in front, the control characters below U+0020 their short escape
/// or `\u00` and two hexadecimal digits, and every other character itself.
pub open spec fn escaped_char(c: char) -> Seq<char> {
    if c == '"' {
        seq!['\\', '"']
    } else if c == '\\' {
        seq!['\\', '\\']
    } else if c == '\u{8}' {
        seq!['\\', 'b']
    } else if c == '\t' {
        seq!['\\', 't']
    } else if c == '\n' {
        seq!['\\', 'n']
    } else if c == '\u{c}' {
        seq!['\\', 'f']
    } else if c == '\r' {
        seq!['\\', 'r']
    } else if (c as u32) < 32 {
        seq!['\\', 'u', '0', '0', hex_digit((c as u32 / 16) as u8), hex_digit((c as u32 % 16) as u8)]
    } else {
        seq![c]
    }
}

/// The characters of a string, each as it stands inside a JSON string.
pub open spec fn escaped(s: Seq<char>) -> Seq<char>
    decreases s.len(),
{
    if s.len() == 0 {
        Seq::empty()
    } else {
        escaped(s.drop_last()) + escaped_char(s.last())
    }
}

/// The JSON text of a string: its escaped characters between two quotes.
pub open spec fn string_text(s: Seq<char>) -> Seq<char> {
    seq!['"'] + escaped(s) + seq!['"']
}

/// Escaping goes character by character: what it gives for a string with one
/// more character is what it gave before, followed by that character's
/// escape.
pub proof fn lemma_escaped_push(s: Seq<char>, c: char)
    ensures
        escaped(s.push(c)) == escaped(s) + escaped_char(c),
{
    assert(s.push(c).drop_last() =~= s);
}

fn hex_digit_of(n: u8) -> (c: char)
    requires
        n < 16,
    ensures
        c == hex_digit(n),
{
    if n < 10 {
        (n + 48u8) as char
    } else {
        (n + 87u8) as char
    }
}

/// Appends to `out` the escape of one character.
fn push_escaped(out: &mut String, c: char)
    ensures
        final(out)@ == old(out)@ + escaped_char(c),
{
    let ghost before = out@;
    if c == '"' {
        push_char(out, '\\');
        push_char(out, '"');
    } else if c == '\\' {
        push_char(out, '\\');
        push_char(out, '\\');
    } else if c == '\u{8}' {
        push_char(out, '\\');
        push_char(out, 'b');
    } else if c == '\t' {
        push_char(out, '\\');
        push_char(out, 't');
    } else if c == '\n' {
        push_char(out, '\\');
        push_char(out, 'n');
    } else if c == '\u{c}' {
        push_char(out, '\\');
        push_char(out, 'f');
    } else if c == '\r' {
        push_char(out, '\\');
        push_char(out, 'r');
    } else if (c as u32) < 32 {
        let code: u32 = c as u32;
        push_char(out, '\\');
        push_char(out, 'u');
        push_char(out, '0');
        push_char(out, '0');
        push_char(out, hex_digit_of((code / 16) as u8));
        push_char(out, hex_digit_of((code % 16) as u8));
    } else {
        push_char(out, c);
    }
    assert(out@ =~= before + escaped_char(c));
}

/// The JSON text of a string: the string between quotes, with every quote,
/// backslash and control character escaped.
pub fn json_string_text(s: &str) -> (r: String)
    ensures
        r@ == string_text(s@),
{
    let mut out = String::new();
    push_char(&mut out, '"');
    for c in it: s.chars()
        invariant
            it.seq() == s@,
            out@ == seq!['"'] + escaped(s@.take(it.index() as int)),
    {
        proof {
            lemma_escaped_push(s@.take(it.index() as int), c);
            assert(s@.take(it.index() + 1) =~= s@.take(it.index() as int).push(c));
        }
        push_escaped(&mut out, c);
        assert(out@ =~= seq!['"'] + escaped(s@.take(it.index() + 1)));
    }
    assert(s@.take(s@.len() as int) =~= s@);
    push_char(&mut out, '"');
    out
}

/// The character of a decimal digit.
pub open spec fn digit_char(d: nat) -> char {
    ((d + 48) as u8) as char
}

/// A natural number in decimal, without leading zeros.
pub open spec fn decimal(n: nat) -> Seq<char>
    decreases n,
{
    if n < 10 {
        seq![digit_char(n)]
    } else {
        decimal(n / 10).push(digit_char(n % 10))
    }
}

/// An integer in decimal, with a minus sign in front where it is negative.
pub open spec fn integer_text(n: int) -> Seq<char> {
    if n < 0 {
        seq!['-'] + decimal((-n) as nat)
    } else {
        decimal(n as nat)
    }
}

/// What this library reads of a JSON value: its compact JSON text and, where
/// the value is a JSON string, that string.
pub struct JsonView {
    pub text: Seq<char>,
    pub string: Option<Seq<char>>,
}

/// The view of JSON `null`.
pub open spec fn null_view() -> JsonView {
    JsonView { text: "null"@, string: None }
}

/// The view of a JSON boolean.
pub open spec fn bool_view(b: bool) -> JsonView {
    JsonView {
        text: if b {
            "true"@
        } else {
            "false"@
        },
        string: None,
    }
}

/// The view of a JSON string.
pub open spec fn string_view(s: Seq<char>) -> JsonView {
    JsonView { text: string_text(s), string: Some(s) }
}

/// The view of a JSON integer.
pub open spec fn integer_view(n: int) -> JsonView {
    JsonView { text: integer_text(n), string: None }
}

/// What a text parses to as one JSON value: `None` where it is not JSON.
pub uninterp spec fn parsed_value(text: Seq<char>) -> Option<JsonView>;

/// What a text parses to as one JSON object: its members, each a key and a
/// value, or `None` where the text is not a JSON object.
pub uninterp spec fn parsed_object(text: Seq<char>) -> Option<Seq<(Seq<char>, JsonView)>>;

/// `serde_json::Error`, the parser's error. It is carried as it is: nothing is
/// stated of what it holds.
#[verifier::external_type_specification]
#[verifier::external_body]
pub struct ExJsonError(serde_json::Error);

/// A parsed JSON value of any kind (null, boolean, number, string, array or
/// object), held as its compact JSON text together with the string itself where
/// the value is a JSON string.
#[derive(Debug, Clone, PartialEq)]
pub struct Json {
    text: String,
    string: Option<String>,
}

impl View for Json {
    type V = JsonView;

    closed spec fn view(&self) -> JsonView {
        JsonView {
            text: self.text@,
            string: match self.string {
                Some(s) => Some(s@),
                None => None,
            },
        }
    }
}

/// Views of the members of an object, in order.
pub open spec fn members_view(members: Seq<(String, Json)>) -> Seq<(Seq<char>, JsonView)> {
    Seq::new(members.len(), |i: int| (members[i].0@, members[i].1@))
}

/// `serde_json::to_value` on a 128-bit integer. With the crate's feature
/// `arbitrary_precision` off, as it is here, the call succeeds exactly on the
/// integers that fit in 64 bits, signed or unsigned; the value is then a JSON
/// number, which `Display` writes as the integer in decimal and of which
/// `Value::as_str` gives nothing.
#[verifier::external_body]
fn integer_value(n: i128) -> (r: Option<Json>)
    ensures
        r.is_some() == (i64::MIN <= n <= u64::MAX),
        r.is_some() ==> r.unwrap()@ == integer_view(n as int),
{
    match serde_json::to_value(n) {
        Ok(v) => Some(Json { text: v.to_string(), string: v.as_str().map(|s| s.to_string()) }),
        Err(_) => None,
    }
}

/// `serde_json::from_str` at the type `serde_json::Value`: the value that the
/// text parses to, or the parser's error. The value is kept as the text that
/// `Display` writes of it and the string that `Value::as_str` gives of it. The
/// same text always parses to the same value.
#[verifier::external_body]
fn parse_value(text: &str) -> (r: Result<Json, serde_json::Error>)
    ensures
        match r {
            Ok(j) => parsed_value(text@) == Some(j@),
            Err(_) => parsed_value(text@).is_none(),
        },
{
    let v: serde_json::Value = serde_json::from_str(text)?;
    Ok(Json { text: v.to_string(), string: v.as_str().map(|s| s.to_string()) })
}

/// `serde_json::from_str` at the type `serde_json::Map<String, Value>`: the
/// members of the object that the text parses to, in the map's order, or the
/// parser's error where the text is not a JSON object. Each value is kept as
/// the text that `Display` writes of it and the string that `Value::as_str`
/// gives of it. The same text always parses to the same members.
#[verifier::external_body]
fn parse_members(text: &str) -> (r: Result<Vec<(String, Json)>, serde_json::Error>)
    ensures
        match r {
            Ok(members) => parsed_object(text@) == Some(members_view(members@)),
            Err(_) => parsed_object(text@).is_none(),
        },
{
    let m: serde_json::Map<String, serde_json::Value> = serde_json::from_str(text)?;
    Ok(
        m.into_iter().map(
            |(k, v)| (k, Json { text: v.to_string(), string: v.as_str().map(|s| s.to_string()) }),
        ).collect(),
    )
}

impl Json {
    /// JSON `null`.
    pub fn null() -> (r: Json)
        ensures
            r@ == null_view(),
    {
        Json { text: "null".to_owned(), string: None }
    }

    /// A JSON boolean.
    pub fn from_bool(b: bool) -> (r: Json)
        ensures
            r@ == bool_view(b),
    {
        if b {
            Json { text: "true".to_owned(), string: None }
        } else {
            Json { text: "false".to_owned(), string: None }
        }
    }

    /// A JSON string.
    pub fn from_string(s: String) -> (r: Json)
        ensures
            r@ == string_view(s@),
    {
        let text = json_string_text(s.as_str());
        Json { text, string: Some(s) }
    }

    /// A JSON number from an integer. JSON numbers hold the integers that fit in
    /// 64 bits, signed or unsigned: on any other the result is `None`.
    pub fn from_integer(n: i128) -> (r: Option<Json>)
        ensures
            r.is_some() == (i64::MIN <= n <= u64::MAX),
            r.is_some() ==> r.unwrap()@ == integer_view(n as int),
    {
        integer_value(n)
    }

    /// Parses a text as one JSON value.
    pub fn parse(text: &str) -> (r: Result<Json, serde_json::Error>)
        ensures
            match r {
                Ok(j) => parsed_value(text@) == Some(j@),
                Err(_) => parsed_value(text@).is_none(),
            },
    {
        parse_value(text)
    }

    /// Parses a text as one JSON object and gives its members.
    pub fn parse_object(text: &str) -> (r: Result<Vec<(String, Json)>, serde_json::Error>)
        ensures
            match r {
                Ok(members) => parsed_object(text@) == Some(members_view(members@)),
                Err(_) => parsed_object(text@).is_none(),
            },
    {
        parse_members(text)
    }

    /// The compact JSON text of the value.
    pub fn text(&self) -> (r: &str)
        ensures
            r@ == self@.text,
    {
        self.text.as_str()
    }

    /// The string, where the value is a JSON string.
    pub fn as_str(&self) -> (r: Option<&str>)
        ensures
            match r {
                Some(s) => self@.string == Some(s@),
                None => self@.string.is_none(),
            },
    {
        match &self.string {
            Some(s) => Some(s.as_str()),
            None => None,
        }
    }

    /// A copy of the value.
    pub fn duplicate(&self) -> (r: Json)
        ensures
            r@ == self@,
    {
        let string = match &self.string {
            Some(s) => Some(s.clone()),
            None => None,
        };
        Json { text: self.text.clone(), string }
    }
}

} // verus!
