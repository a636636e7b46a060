//! Requests to Firecracker's HTTP API and the reading of its answers.
//!
//! Firecracker answers `204 No Content` where a request succeeds, and another status with a JSON
//! body that holds a `fault_message` where it does not.

use vstd::prelude::*;
use vstd::utf8;

use crate::text;
use crate::text::decimal_of;

verus! {

/// The HTTP methods that the API uses.
#[derive(Clone, Copy, Debug, PartialEq, Eq, Structural)]
pub enum ApiMethod {
    /// `PUT`.
    Put,
    /// `PATCH`.
    Patch,
}

/// One request.
#[derive(Debug, PartialEq, Eq)]
pub struct ApiRequest {
    /// The method.
    pub method: ApiMethod,
    /// The path.
    pub path: String,
    /// The body, JSON.
    pub body: String,
}

impl ApiRequest {
    /// Whether the request has this method, path and body.
    pub open spec fn is(&self, method: ApiMethod, path: Seq<char>, body: Seq<char>) -> bool {
        self.method == method && self.path@ == path && self.body@ == body
    }
}

/// The status of a request that succeeded.
pub const NO_CONTENT: u16 = 204;

// ---------------------------------------------------------------------------
// Answers
// ---------------------------------------------------------------------------

/// What `serde_json` finds under `key` in the JSON object that `body` writes: its text, or `None`
/// where the body is no JSON, is no object, or has no text under that key.
pub uninterp spec fn json_member_text(body: Seq<u8>, key: Seq<char>) -> Option<Seq<char>>;

/// `serde_json::from_slice`, `Value::get` and `Value::as_str`: the text under `key` in the object
/// that `body` writes. An empty body is no JSON.
#[verifier::external_body]
fn member_text(body: &[u8], key: &str) -> (out: Option<String>)
    ensures
        match out {
            Some(s) => json_member_text(body@, key@) == Some(s@),
            None => json_member_text(body@, key@) is None,
        },
        body@.len() == 0 ==> out is None,
{
    let value: serde_json::Value = serde_json::from_slice(body).ok()?;
    value.get(key)?.as_str().map(str::to_owned)
}

/// What `String::from_utf8_lossy` makes of bytes.
pub uninterp spec fn lossy_utf8(body: Seq<u8>) -> Seq<char>;

/// `String::from_utf8_lossy`: the text that bytes encode, with replacement characters where they
/// encode none.
#[verifier::external_body]
pub(crate) fn lossy_text(body: &[u8]) -> (out: String)
    ensures
        out@ == lossy_utf8(body@),
        utf8::valid_utf8(body@) ==> out@ == utf8::decode_utf8(body@),
{
    String::from_utf8_lossy(body).into_owned()
}

/// The reason for a refusal, where `member` is the body's fault message, if it has one: that
/// message, or else the status and the body, or the status alone where there is no body.
pub open spec fn fault_text(
    member: Option<Seq<char>>,
    body: Seq<char>,
    body_is_empty: bool,
    status: u16,
) -> Seq<char> {
    match member {
        Some(message) => message,
        None => if body_is_empty {
            "HTTP "@ + text::decimal(status as nat)
        } else {
            "HTTP "@ + text::decimal(status as nat) + ": "@ + body
        },
    }
}

/// The reason for a refusal, from the body's fault message, if it has one, and the body as text.
pub fn describe_fault(
    member: Option<String>,
    body: &str,
    body_is_empty: bool,
    status: u16,
) -> (detail: String)
    ensures
        detail@ == fault_text(
            match member {
                Some(message) => Some(message@),
                None => None,
            },
            body@,
            body_is_empty,
            status,
        ),
{
    match member {
        Some(message) => message,
        None => {
            let mut detail = "HTTP ".to_owned();
            detail.append(&decimal_of(status as u64));
            if !body_is_empty {
                detail.append(": ");
                detail.append(body);
            }
            detail
        },
    }
}

/// The reason for a refusal, from the answer's body and status.
pub fn fault_message(body: &[u8], status: u16) -> (detail: String)
    ensures
        detail@ == fault_text(
            json_member_text(body@, "fault_message"@),
            lossy_utf8(body@),
            body@.len() == 0,
            status,
        ),
        body@.len() == 0 ==> detail@ == "HTTP "@ + text::decimal(status as nat),
{
    let member = member_text(body, "fault_message");
    let lossy = lossy_text(body);
    describe_fault(member, &lossy, body.len() == 0, status)
}

// ---------------------------------------------------------------------------
// JSON bodies
// ---------------------------------------------------------------------------

/// `serde_json`'s error type.
#[verifier::external_type_specification]
#[verifier::external_body]
pub struct ExJsonError(serde_json::Error);

/// What stands for a character in a JSON string: an escape for a quote, a backslash and the control
/// characters below the space, and the character itself for every other.
pub open spec fn json_escape(c: char) -> Seq<char> {
    if c == '"' {
        "\\\""@
    } else if c == '\\' {
        "\\\\"@
    } else if c == '\u{8}' {
        "\\b"@
    } else if c == '\u{c}' {
        "\\f"@
    } else if c == '\n' {
        "\\n"@
    } else if c == '\r' {
        "\\r"@
    } else if c == '\t' {
        "\\t"@
    } else if (c as nat) < 0x20 {
        "\\u"@ + text::padded(c as nat, 16, 4)
    } else {
        seq![c]
    }
}

/// The characters of a text, each as it stands in a JSON string.
pub open spec fn json_escapes(s: Seq<char>) -> Seq<char>
    decreases s.len(),
{
    if s.len() == 0 {
        Seq::empty()
    } else {
        json_escapes(s.drop_last()) + json_escape(s.last())
    }
}

/// A text as a JSON string.
pub open spec fn json_string(s: Seq<char>) -> Seq<char> {
    "\""@ + json_escapes(s) + "\""@
}

/// `serde_json::to_string` of a string slice: the text in quotes, with the escapes of its table.
/// Writing to memory does not fail, and there is nothing else that could.
#[verifier::external_body]
fn to_json_string(s: &str) -> (r: Result<String, serde_json::Error>)
    ensures
        r is Ok,
        r->Ok_0@ == json_string(s@),
{
    serde_json::to_string(s)
}

/// `serde_json::Error`'s `Display`: some words about what went wrong, of which nothing is claimed.
#[verifier::external_body]
fn json_error_text(e: &serde_json::Error) -> (out: String)
{
    e.to_string()
}

/// A text as a JSON string, or the reason why it cannot be one.
pub fn quoted(s: &str) -> (r: Result<String, String>)
    ensures
        r matches Ok(out) && out@ == json_string(s@),
{
    match to_json_string(s) {
        Ok(out) => Ok(out),
        Err(e) => {
            let mut detail = "serialize body: ".to_owned();
            detail.append(&json_error_text(&e));
            Err(detail)
        },
    }
}

/// A truth value as JSON.
pub open spec fn json_bool(b: bool) -> Seq<char> {
    if b {
        "true"@
    } else {
        "false"@
    }
}

/// A truth value as JSON.
pub fn bool_text(b: bool) -> (out: &'static str)
    ensures
        out@ == json_bool(b),
{
    if b {
        "true"
    } else {
        "false"
    }
}

} // verus!
