//! The calls this library makes into the crates it builds on. Each item here
//! is trusted: Verus believes its contract and does not read its body.
use vstd::prelude::*;
use sha2::Digest;
use chrono::Datelike;
use jsonschema::error::ValidationErrorKind;
use crate::methods::anki::import::{deck_schema_bytes, violation_parts, SchemaViolation};
use crate::session::checksum::hex_digit;

verus! {

/// A JSON document, carried through the library without being inspected.
#[verifier::external_type_specification]
#[verifier::external_body]
pub struct ExJsonValue(serde_json::Value);

/// Whether `serde_json` reads a JSON document from a byte sequence.
pub uninterp spec fn json_bytes_parse(bytes: Seq<u8>) -> bool;

/// The JSON document that `serde_json` reads from a byte sequence, where it
/// reads one.
pub uninterp spec fn json_bytes_document(bytes: Seq<u8>) -> serde_json::Value;

/// The JSON text that `serde_json` writes for a document.
pub uninterp spec fn json_document_text(doc: serde_json::Value) -> Seq<char>;

/// The text of member `key` of a JSON document, where the document is an
/// object with that member and the member is a string.
pub uninterp spec fn json_member_text(doc: serde_json::Value, key: Seq<char>) -> Option<Seq<char>>;

/// What `jsonschema` reports of checking the document `doc` against the
/// schema document `schema`: `None` where the schema does not compile;
/// otherwise the first violation that the check reports, if any, as (for a
/// missing required property, its name where that is a string; the
/// instance path; the error's text).
pub uninterp spec fn schema_check(schema: serde_json::Value, doc: serde_json::Value) -> Option<
    Option<(Option<Option<Seq<char>>>, Seq<char>, Seq<char>)>,
>;

/// The SHA-256 digest of a byte sequence.
pub uninterp spec fn sha256_digest(data: Seq<u8>) -> Seq<u8>;

/// How `serde_json` writes one character inside a string literal (its
/// escape table, ser.rs): a quote and a backslash behind a backslash; the
/// control characters below U+0020 as `\b`, `\t`, `\n`, `\f`, `\r` or
/// `\u00` and two lower-case hex digits; every other character as itself.
pub open spec fn json_escaped_char(c: char) -> Seq<char> {
    if c == '"' {
        seq!['\\', '"']
    } else if c == '\\' {
        seq!['\\', '\\']
    } else if c == '\x08' {
        seq!['\\', 'b']
    } else if c == '\t' {
        seq!['\\', 't']
    } else if c == '\n' {
        seq!['\\', 'n']
    } else if c == '\x0c' {
        seq!['\\', 'f']
    } else if c == '\r' {
        seq!['\\', 'r']
    } else if (c as int) < 0x20 {
        seq!['\\', 'u', '0', '0', hex_digit((c as int) / 16), hex_digit((c as int) % 16)]
    } else {
        seq![c]
    }
}

/// The characters of a string, each written as `json_escaped_char` writes it.
pub open spec fn json_escaped(s: Seq<char>) -> Seq<char>
    decreases s.len(),
{
    if s.len() == 0 {
        Seq::empty()
    } else {
        json_escaped(s.drop_last()) + json_escaped_char(s.last())
    }
}

/// The JSON text that `serde_json` writes for a string: the escaped
/// characters between quotes.
pub open spec fn json_quoted(s: Seq<char>) -> Seq<char> {
    seq!['"'] + json_escaped(s) + seq!['"']
}

/// The quoted strings of a list, separated by commas.
pub open spec fn json_quoted_list(items: Seq<Seq<char>>) -> Seq<char>
    decreases items.len(),
{
    if items.len() == 0 {
        Seq::empty()
    } else if items.len() == 1 {
        json_quoted(items[0])
    } else {
        json_quoted_list(items.drop_last()) + seq![','] + json_quoted(items.last())
    }
}

/// The JSON text that `serde_json` writes for a list of strings, without
/// white space: the quoted strings, separated by commas, in brackets.
pub open spec fn json_string_array_text(items: Seq<Seq<char>>) -> Seq<char> {
    seq!['['] + json_quoted_list(items) + seq![']']
}

/// The list of strings that `serde_json` reads from a JSON text, or `None`
/// where the text is not a JSON array of strings.
pub uninterp spec fn json_string_array_parse(text: Seq<char>) -> Option<Seq<Seq<char>>>;

/// The instant that `chrono` reads from an RFC 3339 date-time text, as its
/// UNIX timestamp in whole seconds and the nanoseconds past that second
/// (beyond 999 999 999 inside a leap second), or `None` where the text is
/// not such a date-time.
pub uninterp spec fn rfc3339_instant(s: Seq<char>) -> Option<(i64, u32)>;

/// The calendar date that `chrono` reads from `s` in the strftime format
/// `fmt`, as its day number counted from 0001-01-01 (day 1), or `None` where
/// `s` does not match.
pub uninterp spec fn naive_date_day_number(s: Seq<char>, fmt: Seq<char>) -> Option<i32>;

/// `sha2::Sha256::digest`: the 32-byte SHA-256 digest of `data`. Stated: the
/// result is the named digest of the input, and it is 32 bytes long.
#[verifier::external_body]
pub(crate) fn sha256(data: &[u8]) -> (r: Vec<u8>)
    ensures
        r@ == sha256_digest(data@),
        r@.len() == 32,
{
    sha2::Sha256::digest(data).to_vec()
}

/// `serde_json::to_string` on a string slice. Stated: the result is the
/// string's JSON text, written by the crate's escape table; writing a string
/// into memory does not fail (the crate documents failure only for a
/// `Serialize` impl that fails or a map with keys that are not strings).
#[verifier::external_body]
pub(crate) fn json_quote(s: &str) -> (r: Result<String, String>)
    ensures
        r matches Ok(t) ==> t@ == json_quoted(s@),
        r is Ok,
{
    serde_json::to_string(s).map_err(|e| e.to_string())
}

/// `serde_json::to_string` on a list of strings. Stated: the result is the
/// list's JSON text, written by the crate's escape table with no white
/// space; writing strings into memory does not fail
/// (the crate documents failure only for a `Serialize` impl that fails or a
/// map with keys that are not strings); and `serde_json::from_str` reads the
/// same list back from that text, as its string escaping and unescaping are
/// inverse to each other.
#[verifier::external_body]
pub(crate) fn json_string_array(items: &Vec<String>) -> (r: Option<String>)
    ensures
        r matches Some(t) ==> t@ == json_string_array_text(items.deep_view()),
        r is Some,
        r matches Some(t) ==> json_string_array_parse(t@) == Some(items.deep_view()),
{
    serde_json::to_string(items).ok()
}

/// `serde_json::from_str` into a list of strings. Stated: the result is the
/// named reading of the text.
#[verifier::external_body]
pub(crate) fn json_parse_string_array(text: &str) -> (r: Option<Vec<String>>)
    ensures
        match r {
            Some(v) => json_string_array_parse(text@) == Some(v.deep_view()),
            None => json_string_array_parse(text@) is None,
        },
{
    serde_json::from_str::<Vec<String>>(text).ok()
}

/// `chrono::DateTime::parse_from_rfc3339`, read back by `timestamp` and
/// `timestamp_subsec_nanos`. Stated: the result is the named instant, and
/// the nanoseconds stay below two seconds' worth (chrono keeps a leap second
/// within one extra second).
#[verifier::external_body]
pub(crate) fn parse_rfc3339(s: &str) -> (r: Option<(i64, u32)>)
    ensures
        r == rfc3339_instant(s@),
        r matches Some(p) ==> p.1 < 2_000_000_000,
{
    chrono::DateTime::parse_from_rfc3339(s).ok().map(|d| (d.timestamp(), d.timestamp_subsec_nanos()))
}

/// `chrono::NaiveDate::parse_from_str`, read back by `num_days_from_ce`.
/// Stated: the result is the named day number.
#[verifier::external_body]
pub(crate) fn parse_naive_date(s: &str, fmt: &str) -> (r: Option<i32>)
    ensures
        r == naive_date_day_number(s@, fmt@),
{
    chrono::NaiveDate::parse_from_str(s, fmt).ok().map(|d| d.num_days_from_ce())
}

/// `serde_json::to_string` on a JSON document. Stated: the result is the
/// named text of the document, which is not empty; writing a document into
/// memory does not fail (the crate documents failure only for a `Serialize`
/// impl that fails or a map with keys that are not strings, and a
/// document's object keys are strings).
#[verifier::external_body]
pub(crate) fn json_value_text(v: &serde_json::Value) -> (r: Option<String>)
    ensures
        r matches Some(t) ==> t@ == json_document_text(*v) && t@.len() > 0,
        r is Some,
{
    serde_json::to_string(v).ok()
}

/// `serde_json::from_slice` into a JSON document, with the error written
/// by `to_string`. Stated: whether a document comes out, and the document
/// that comes out, are the named reading of the bytes; the error text is
/// left unstated.
#[verifier::external_body]
pub(crate) fn json_document_from_bytes(bytes: &[u8]) -> (r: Result<serde_json::Value, String>)
    ensures
        r is Ok <==> json_bytes_parse(bytes@),
        r matches Ok(v) ==> v == json_bytes_document(bytes@),
{
    serde_json::from_slice(bytes).map_err(|e| e.to_string())
}

/// `jsonschema::JSONSchema::compile` of the deck schema's document, then
/// `JSONSchema::validate` of `doc` against the compiled schema; the compiled
/// schema never leaves this item. Of the first error that `validate`
/// reports it hands on, for a missing required property, the property's
/// name (`Value::as_str`), then the instance path and the error's own text,
/// both written by `to_string`. A schema that does not compile gives its
/// error's text. Required: the schema document is the one read from the
/// deck schema's text, which refers to no other schema (a schema that
/// refers to itself makes `validate` recurse without end). Stated: the
/// outcome is the named check of the document against that schema.
#[verifier::external_body]
pub(crate) fn check_against_schema(schema: &serde_json::Value, doc: &serde_json::Value) -> (r: Result<
    Option<SchemaViolation>,
    String,
>)
    requires
        json_bytes_parse(deck_schema_bytes()),
        *schema == json_bytes_document(deck_schema_bytes()),
    ensures
        match r {
            Ok(found) => schema_check(*schema, *doc) == Some(violation_parts(found)),
            Err(_) => schema_check(*schema, *doc) is None,
        },
{
    let compiled = jsonschema::JSONSchema::compile(schema).map_err(|e| e.to_string())?;
    let first = compiled.validate(doc).err().and_then(|mut errors| errors.next());
    Ok(first.map(|e| SchemaViolation {
        missing_property: match &e.kind {
            ValidationErrorKind::Required { property } => Some(property.as_str().map(String::from)),
            _ => None,
        },
        instance_path: e.instance_path.to_string(),
        message: e.to_string(),
    }))
}

/// `serde_json::Value::get` of a member, read by `Value::as_str`. Stated:
/// the result is the named text of the member.
#[verifier::external_body]
pub(crate) fn json_str_member(doc: &serde_json::Value, key: &str) -> (r: Option<String>)
    ensures
        match r {
            Some(t) => json_member_text(*doc, key@) == Some(t@),
            None => json_member_text(*doc, key@) is None,
        },
{
    doc.get(key).and_then(serde_json::Value::as_str).map(String::from)
}

/// `uuid::Uuid::now_v7`, written in its hyphenated text form. Stated: the
/// text is 36 characters long; which identifier comes out depends on the
/// clock and on chance and is left unstated.
#[verifier::external_body]
pub(crate) fn new_uuid_v7() -> (r: String)
    ensures
        r@.len() == 36,
{
    uuid::Uuid::now_v7().to_string()
}

/// `chrono::Utc::now`, written by `to_rfc3339`. Stated: the text is not
/// empty; the instant depends on the clock and is left unstated.
#[verifier::external_body]
pub(crate) fn now_rfc3339() -> (r: String)
    ensures
        r@.len() > 0,
{
    chrono::Utc::now().to_rfc3339()
}

/// `String::push`: appends one character.
#[verifier::external_body]
pub(crate) fn push_char(s: &mut String, c: char)
    ensures
        final(s)@ == old(s)@.push(c),
{
    s.push(c)
}

} // verus!
