//! What the library takes on trust: the functions of the standard library, of
//! `serde_json` and of `chrono` that it calls, and what is claimed of each.
use vstd::prelude::*;
use vstd::utf8::{decode_utf8, is_ascii_chars, valid_utf8};
use crate::text::{ascii_letter, ascii_lower_case, is_ascii_char};

verus! {

// ---------------------------------------------------------------------------
// Characters and strings
// ---------------------------------------------------------------------------
/// `String::push`: the character is appended and nothing else changes.
pub assume_specification[ String::push ](s: &mut String, c: char)
    ensures
        final(s)@ == old(s)@.push(c),
;

/// The characters with the Unicode property `White_Space`.
pub open spec fn white_space(c: char) -> bool {
    let n = c as u32;
    ||| 0x9 <= n <= 0xd
    ||| n == 0x20
    ||| n == 0x85
    ||| n == 0xa0
    ||| n == 0x1680
    ||| 0x2000 <= n <= 0x200a
    ||| n == 0x2028
    ||| n == 0x2029
    ||| n == 0x202f
    ||| n == 0x205f
    ||| n == 0x3000
}

/// `char::is_whitespace`: true of exactly the characters that have the Unicode
/// property `White_Space`, which [`white_space`] lists.
pub assume_specification[ char::is_whitespace ](c: char) -> (b: bool)
    ensures
        b == white_space(c),
;

/// The characters that have the Unicode property `Alphabetic`.
pub uninterp spec fn alphabetic(c: char) -> bool;

/// `char::is_alphabetic`: of the ASCII characters it is true of the letters. Which
/// other characters it is true of is named by [`alphabetic`], and not said.
pub assume_specification[ char::is_alphabetic ](c: char) -> (b: bool)
    ensures
        b == alphabetic(c),
        is_ascii_char(c) ==> b == ascii_letter(c),
;

/// A text with every character in lower case, as Unicode maps it.
pub uninterp spec fn lower_case(s: Seq<char>) -> Seq<char>;

/// `str::to_lowercase`: in a text of ASCII characters each capital letter becomes
/// its small one and nothing else changes. Any other text in lower case is named
/// by [`lower_case`]; the mapping of its characters is not said.
pub assume_specification[ str::to_lowercase ](s: &str) -> (r: String)
    ensures
        r@ == lower_case(s@),
        is_ascii_chars(s@) ==> r@ == ascii_lower_case(s@),
;

/// The text that a row of bytes holds, with a replacement character for what is
/// not UTF-8.
pub uninterp spec fn lossy_text(bytes: Seq<u8>) -> Seq<char>;

/// `String::from_utf8_lossy`: bytes that are UTF-8 are decoded. For other bytes
/// the text is named by [`lossy_text`]; where the replacement characters stand
/// is not said.
#[verifier::external_body]
pub(crate) fn text_of_bytes(bytes: &Vec<u8>) -> (s: String)
    ensures
        s@ == lossy_text(bytes@),
        valid_utf8(bytes@) ==> s@ == decode_utf8(bytes@),
{
    String::from_utf8_lossy(bytes).into_owned()
}

// ---------------------------------------------------------------------------
// JSON
// ---------------------------------------------------------------------------
/// What the library reads of a JSON value: a string, the members of an object,
/// or something else.
pub enum Json {
    Text(Seq<char>),
    Object(Map<Seq<char>, Json>),
    Other,
}

/// A JSON value, as `serde_json` holds it.
#[verifier::external_type_specification]
#[verifier::external_body]
pub struct ExValue(serde_json::Value);

/// What `serde_json` reports of a text that it could not read.
#[verifier::external_type_specification]
#[verifier::external_body]
pub struct ExError(serde_json::Error);

/// What a JSON value holds.
pub uninterp spec fn json_of(v: serde_json::Value) -> Json;

/// The JSON value that a text denotes, if it is JSON.
pub uninterp spec fn json_in(text: Seq<char>) -> Option<Json>;

/// `serde_json::from_str` for a `serde_json::Value`: whether the text is read,
/// and as which value, depends on the text alone and is named by [`json_in`].
#[verifier::external_body]
pub(crate) fn read_json(text: &str) -> (r: Result<serde_json::Value, serde_json::Error>)
    ensures
        match r {
            Ok(v) => json_in(text@) == Some(json_of(v)),
            Err(_) => json_in(text@) is None,
        },
{
    serde_json::from_str::<serde_json::Value>(text)
}

/// The member of a JSON value under a key; something other than text or an
/// object where the value is no object or has no such member.
pub open spec fn json_member(j: Json, key: Seq<char>) -> Json {
    match j {
        Json::Object(members) => if members.contains_key(key) {
            members[key]
        } else {
            Json::Other
        },
        _ => Json::Other,
    }
}

/// `serde_json::Value`'s index operator with a string: the member under that
/// key, and the JSON `null` where the value is no object or has no such member.
#[verifier::external_body]
pub(crate) fn json_member_of<'a>(v: &'a serde_json::Value, key: &str) -> (r: &'a serde_json::Value)
    ensures
        json_of(*r) == json_member(json_of(*v), key@),
{
    &v[key]
}

/// `serde_json::Value::as_str`: the text of a JSON string, nothing of any other
/// value.
pub assume_specification<'a>[ serde_json::Value::as_str ](v: &'a serde_json::Value) -> (r: Option<
    &'a str,
>)
    ensures
        match json_of(*v) {
            Json::Text(s) => r matches Some(t) && t@ == s,
            _ => r is None,
        },
;

// ---------------------------------------------------------------------------
// Dates
// ---------------------------------------------------------------------------
/// The first second, counted from the start of 1970, that has a date.
pub const FIRST_SECOND: i64 = -8334601228800;

/// The last second, counted from the start of 1970, that has a date.
pub const LAST_SECOND: i64 = 8210266876799;

/// The way a date is written in EXIF: year, month, day, hour, minute, second.
pub open spec fn exif_pattern() -> Seq<char> {
    "%Y:%m:%d %H:%M:%S"@
}

/// The date and time in UTC that lies a number of seconds after the start of
/// 1970, written as a pattern says.
pub uninterp spec fn utc_text(seconds: int, pattern: Seq<char>) -> Seq<char>;

/// `chrono`'s `Utc.timestamp_opt(seconds, 0)`, with `DateTime::format` and
/// `to_string` on its result: there is a date for the seconds of the years
/// -262143 to 262142. Its text is named by [`utc_text`]; the calendar is not
/// said, only that no field is shorter than the pattern's four or two digits.
#[verifier::external_body]
pub(crate) fn utc_date(seconds: i64, pattern: &str) -> (r: Option<String>)
    requires
        pattern@ == exif_pattern(),
    ensures
        r is Some <==> FIRST_SECOND <= seconds <= LAST_SECOND,
        match r {
            Some(s) => s@ == utc_text(seconds as int, pattern@) && s@.len() >= 19,
            None => true,
        },
{
    match chrono::TimeZone::timestamp_opt(&chrono::Utc, seconds, 0).single() {
        Some(date) => Some(date.format(pattern).to_string()),
        None => None,
    }
}

} // verus!
