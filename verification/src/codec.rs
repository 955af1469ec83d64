use base64::Engine;
use vstd::prelude::*;

verus! {

/// What decoding a base64 text yields: the decoded bytes, or nothing when
/// the text is not valid base64 under the standard alphabet with padding.
pub uninterp spec fn b64_of(s: Seq<char>) -> Option<Seq<u8>>;

/// Relies on base64's standard-alphabet engine: `decode` succeeds exactly
/// on valid base64 text and its result is a function of the input
/// characters alone.
#[verifier::external_body]
pub(crate) fn b64_decode(s: &str) -> (r: Option<Vec<u8>>)
    ensures
        r is Some <==> b64_of(s@) is Some,
        r is Some ==> r.unwrap()@ == b64_of(s@).unwrap(),
{
    base64::engine::general_purpose::STANDARD.decode(s).ok()
}

/// What reading bytes as UTF-8 text yields, or nothing when the bytes are
/// not valid UTF-8.
pub uninterp spec fn utf8_of(b: Seq<u8>) -> Option<Seq<char>>;

/// Relies on String::from_utf8: returns Ok exactly when the bytes are
/// valid UTF-8, and then the string made of them; a function of the bytes
/// alone.
#[verifier::external_body]
pub(crate) fn utf8_to_string(b: Vec<u8>) -> (r: Option<String>)
    ensures
        r is Some <==> utf8_of(b@) is Some,
        r is Some ==> r.unwrap()@ == utf8_of(b@).unwrap(),
{
    String::from_utf8(b).ok()
}

/// What percent-decoding a text yields: each %XX hex escape replaced by its
/// byte and the bytes re-read as UTF-8, or nothing when that re-read fails.
pub uninterp spec fn percent_of(s: Seq<char>) -> Option<Seq<char>>;

/// Relies on urlencoding::decode: a function of the input characters
/// alone, failing only when the decoded bytes are not valid UTF-8. Its
/// source returns the input unchanged when no '%' occurs in it.
#[verifier::external_body]
pub(crate) fn percent_decode(s: &str) -> (r: Option<String>)
    ensures
        r is Some <==> percent_of(s@) is Some,
        r is Some ==> r.unwrap()@ == percent_of(s@).unwrap(),
        !s@.contains('%') ==> r is Some && r.unwrap()@ == s@,
{
    match urlencoding::decode(s) {
        Ok(c) => Some(c.into_owned()),
        Err(_) => None,
    }
}

/// What reading a text as a vmess wire object yields: the "v", "ps",
/// "add", "port", "id" and "aid" members of a JSON object, in that order,
/// or nothing when the text is not a JSON object with all six members
/// present as JSON strings.
pub uninterp spec fn vmess_json_of(s: Seq<char>) -> Option<
    (Seq<char>, Seq<char>, Seq<char>, Seq<char>, Seq<char>, Seq<char>),
>;

/// Relies on serde_json::from_str, Value::get and Value::as_str: parses
/// the text as JSON and hands out the six vmess members, each required to
/// be a JSON string; a function of the input characters alone.
#[verifier::external_body]
pub(crate) fn vmess_json_fields(s: &str) -> (r: Option<
    (String, String, String, String, String, String),
>)
    ensures
        r is Some <==> vmess_json_of(s@) is Some,
        r is Some ==> (
            r.unwrap().0@,
            r.unwrap().1@,
            r.unwrap().2@,
            r.unwrap().3@,
            r.unwrap().4@,
            r.unwrap().5@,
        ) == vmess_json_of(s@).unwrap(),
{
    let v: serde_json::Value = serde_json::from_str(s).ok()?;
    Some((
        v.get("v")?.as_str()?.to_owned(),
        v.get("ps")?.as_str()?.to_owned(),
        v.get("add")?.as_str()?.to_owned(),
        v.get("port")?.as_str()?.to_owned(),
        v.get("id")?.as_str()?.to_owned(),
        v.get("aid")?.as_str()?.to_owned(),
    ))
}

} // verus!
