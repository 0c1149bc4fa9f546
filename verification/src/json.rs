//! The JSON and base64 primitives the service relies on. They are computed by
//! `base64` and `serde_json`; what is said of them here is taken on trust.

use vstd::prelude::*;

verus! {

#[verifier::external_type_specification]
#[verifier::external_body]
pub struct ExDecodeError(base64::DecodeError);

#[verifier::external_type_specification]
#[verifier::external_body]
pub struct ExJsonError(serde_json::Error);

#[verifier::external_type_specification]
#[verifier::external_body]
pub struct ExJsonValue(serde_json::Value);

/// The bytes that padded URL-safe base64 text stands for, if it is well formed.
pub uninterp spec fn base64_url_decoded(input: Seq<u8>) -> Option<Seq<u8>>;

/// What a JSON value holds as text: for an object, its members whose value
/// is a JSON string, each key with that string; for any other value, nothing.
pub uninterp spec fn json_string_members(value: serde_json::Value) -> Map<Seq<char>, Seq<char>>;

/// The string members of the JSON value that a text denotes, if the text is
/// valid JSON.
pub uninterp spec fn json_parsed(text: Seq<u8>) -> Option<Map<Seq<char>, Seq<char>>>;

/// What padded base64 text looks like at its end: four divides its length,
/// and `=` stands in its last two places at most.
pub open spec fn canonically_padded(input: Seq<u8>) -> bool {
    input.len() % 4 == 0 && (input.len() >= 4 ==> input[input.len() - 3] != 61u8
        && input[input.len() - 4] != 61u8)
}

/// The digit of a number below sixteen, in lower-case hexadecimal.
pub open spec fn hex_digit(n: int) -> char
    recommends
        0 <= n < 16,
{
    seq!['0', '1', '2', '3', '4', '5', '6', '7', '8', '9', 'a', 'b', 'c', 'd', 'e', 'f'][n]
}

/// How one character stands inside a JSON string literal: quote, backslash
/// and the control characters are escaped, every other character stands for
/// itself.
pub open spec fn json_escaped_char(c: char) -> Seq<char> {
    if c == '"' {
        seq!['\\', '"']
    } else if c == '\\' {
        seq!['\\', '\\']
    } else if c == '\u{8}' {
        seq!['\\', 'b']
    } else if c == '\u{9}' {
        seq!['\\', 't']
    } else if c == '\u{a}' {
        seq!['\\', 'n']
    } else if c == '\u{c}' {
        seq!['\\', 'f']
    } else if c == '\u{d}' {
        seq!['\\', 'r']
    } else if (c as int) < 32 {
        seq!['\\', 'u', '0', '0', hex_digit((c as int) / 16), hex_digit((c as int) % 16)]
    } else {
        seq![c]
    }
}

/// The characters of a text, each as it stands inside a JSON string literal.
pub open spec fn json_escaped(text: Seq<char>) -> Seq<char>
    decreases text.len(),
{
    if text.len() == 0 {
        Seq::<char>::empty()
    } else {
        json_escaped(text.drop_last()) + json_escaped_char(text.last())
    }
}

/// The JSON string literal for a text: the escaped text between two quotes.
pub open spec fn json_quoted(text: Seq<char>) -> Seq<char> {
    seq!['"'] + json_escaped(text) + seq!['"']
}

/// `Engine::decode` of `base64`, on the engine `URL_SAFE` (URL-safe alphabet,
/// canonical padding required). Trusted: the outcome depends on the input
/// bytes alone, and input that is not canonically padded is refused.
#[verifier::external_body]
pub(crate) fn decode_url_safe(input: &[u8]) -> (r: Result<Vec<u8>, base64::DecodeError>)
    ensures
        match r {
            Ok(bytes) => base64_url_decoded(input@) == Some(bytes@) && canonically_padded(
                input@,
            ),
            Err(_) => base64_url_decoded(input@).is_none(),
        },
{
    base64::Engine::decode(&base64::engine::general_purpose::URL_SAFE, input)
}

/// `serde_json::from_slice` at type `Value`. Trusted: the outcome depends on
/// the text alone, and is `Ok` exactly when the text is valid JSON.
#[verifier::external_body]
pub(crate) fn parse_value(text: &[u8]) -> (r: Result<serde_json::Value, serde_json::Error>)
    ensures
        match r {
            Ok(value) => json_parsed(text@) == Some(json_string_members(value)),
            Err(_) => json_parsed(text@).is_none(),
        },
{
    serde_json::from_slice::<serde_json::Value>(text)
}

/// `Value::get` of `serde_json` with a string key, the member found handed
/// out as text by `Value::as_str`. Trusted: there is a result exactly when
/// the value is an object that has the key with a JSON string under it, and
/// the result is that string.
#[verifier::external_body]
pub(crate) fn string_member(value: &serde_json::Value, key: &str) -> (r: Option<String>)
    ensures
        match r {
            Some(text) => json_string_members(*value).dom().contains(key@)
                && json_string_members(*value)[key@] == text@,
            None => !json_string_members(*value).dom().contains(key@),
        },
{
    value.get(key).and_then(|found| found.as_str()).map(|text| text.to_string())
}

/// `serde_json::to_string` at type `str`. Trusted: writing a text never
/// fails, and the result is the text's JSON string literal: between quotes,
/// with `\"`, `\\`, `\b`, `\t`, `\n`, `\f`, `\r` and `\u00XX` for the
/// characters that must be escaped and every other character as it is.
#[verifier::external_body]
pub(crate) fn quote(text: &str) -> (r: Result<String, serde_json::Error>)
    ensures
        r.is_ok(),
        r matches Ok(quoted) ==> quoted@ == json_quoted(text@),
{
    serde_json::to_string(text)
}

} // verus!
