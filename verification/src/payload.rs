//! Request bodies: a bounded prefix of the bytes, read as UTF-8 text, parsed
//! as JSON, and the string form of the members a payload needs.
use vstd::prelude::*;
use vstd::utf8::*;

use crate::status::Status;
use crate::store::opt_text;
use crate::text::{owned, same_text, utf8_decode};

verus! {

/// How many bytes of a body the small payloads read.
pub const SMALL_BODY_LIMIT: usize = 256;

/// How many bytes of a body a picture payload reads.
pub const PICTURE_BODY_LIMIT: usize = 32768;

/// The first `limit` bytes of a body (all of it when it is shorter).
pub open spec fn body_prefix(body: Seq<u8>, limit: nat) -> Seq<u8> {
    if body.len() <= limit {
        body
    } else {
        body.take(limit as int)
    }
}

/// The text of the bounded prefix, when it is well-formed UTF-8.
pub open spec fn body_text(body: Seq<u8>, limit: nat) -> Option<Seq<char>> {
    if valid_utf8(body_prefix(body, limit)) {
        Some(decode_utf8(body_prefix(body, limit)))
    } else {
        None
    }
}

/// Reads at most `limit` bytes of a body as UTF-8 text; a prefix that is
/// not UTF-8 (including one that cuts a character in two) is an internal
/// server error.
pub fn read_body(body: &[u8], limit: usize) -> (r: Result<String, Status>)
    ensures
        match body_text(body@, limit as nat) {
            Some(t) => r matches Ok(s) && s@ == t,
            None => r == Err::<String, Status>(Status::InternalServerError),
        },
{
    let n = if body.len() <= limit {
        body.len()
    } else {
        limit
    };
    let prefix = &body[0..n];
    proof {
        assert(prefix@ =~= body_prefix(body@, limit as nat));
    }
    match utf8_decode(prefix) {
        Some(s) => Ok(owned(s)),
        None => Err(Status::InternalServerError),
    }
}

/// The string form of member `key` of the JSON document `text`: `None`
/// when `text` is not JSON. A missing member, and any member of a document
/// that is not an object, reads as `null`.
pub uninterp spec fn json_member_text(text: Seq<char>, key: Seq<char>) -> Option<Seq<char>>;

/// Trusted: wraps `json::parse`, indexing the parsed value by `key` and
/// `to_string` on the member. The claim is only that the result is a
/// function of the text and the key, named `json_member_text`, and that a
/// parse error gives `None`.
#[verifier::external_body]
pub(crate) fn json_member(text: &str, key: &str) -> (r: Option<String>)
    ensures
        opt_text(r) == json_member_text(text@, key@),
{
    match json::parse(text) {
        Ok(value) => Some(value[key].to_string()),
        Err(_) => None,
    }
}

/// A member counts as present when the document parsed and the member's
/// string form is not `null`.
pub open spec fn present(member: Option<Seq<char>>) -> Option<Seq<char>> {
    match member {
        Some(v) => if v == "null"@ {
            None
        } else {
            Some(v)
        },
        None => None,
    }
}

/// Keeps a member's string form only when it is present.
pub fn present_member(member: Option<String>) -> (r: Option<String>)
    ensures
        opt_text(r) == present(opt_text(member)),
{
    match member {
        Some(v) => if same_text(v.as_str(), "null") {
            None
        } else {
            Some(v)
        },
        None => None,
    }
}

/// One required member of a payload read from a body.
pub open spec fn member_of(body: Seq<u8>, limit: nat, key: Seq<char>) -> Result<Seq<char>, Status> {
    match body_text(body, limit) {
        None => Err(Status::InternalServerError),
        Some(t) => match present(json_member_text(t, key)) {
            Some(v) => Ok(v),
            None => Err(Status::UnprocessableEntity),
        },
    }
}

/// Two required members of a payload read from a body.
pub open spec fn members_of(body: Seq<u8>, limit: nat, k1: Seq<char>, k2: Seq<char>) -> Result<
    (Seq<char>, Seq<char>),
    Status,
> {
    match body_text(body, limit) {
        None => Err(Status::InternalServerError),
        Some(t) => match (present(json_member_text(t, k1)), present(json_member_text(t, k2))) {
            (Some(a), Some(b)) => Ok((a, b)),
            _ => Err(Status::UnprocessableEntity),
        },
    }
}

/// Decides on one member's string form: present, or an unprocessable entity.
pub fn required_member(member: Option<String>) -> (r: Result<String, Status>)
    ensures
        match present(opt_text(member)) {
            Some(v) => r matches Ok(s) && s@ == v,
            None => r == Err::<String, Status>(Status::UnprocessableEntity),
        },
{
    match present_member(member) {
        Some(v) => Ok(v),
        None => Err(Status::UnprocessableEntity),
    }
}

/// Decides on two members' string forms: both present, or an unprocessable
/// entity.
pub fn required_members(m1: Option<String>, m2: Option<String>) -> (r: Result<(String, String), Status>)
    ensures
        match (present(opt_text(m1)), present(opt_text(m2))) {
            (Some(a), Some(b)) => r matches Ok((x, y)) && x@ == a && y@ == b,
            _ => r == Err::<(String, String), Status>(Status::UnprocessableEntity),
        },
{
    let a = present_member(m1);
    let b = present_member(m2);
    match (a, b) {
        (Some(x), Some(y)) => Ok((x, y)),
        _ => Err(Status::UnprocessableEntity),
    }
}

/// Reads one required member from a body.
pub fn read_member(body: &[u8], limit: usize, key: &str) -> (r: Result<String, Status>)
    ensures
        match member_of(body@, limit as nat, key@) {
            Ok(v) => r matches Ok(s) && s@ == v,
            Err(e) => r == Err::<String, Status>(e),
        },
{
    match read_body(body, limit) {
        Err(e) => Err(e),
        Ok(text) => required_member(json_member(text.as_str(), key)),
    }
}

/// Reads two required members from a body.
pub fn read_members(body: &[u8], limit: usize, k1: &str, k2: &str) -> (r: Result<
    (String, String),
    Status,
>)
    ensures
        match members_of(body@, limit as nat, k1@, k2@) {
            Ok((a, b)) => r matches Ok((x, y)) && x@ == a && y@ == b,
            Err(e) => r == Err::<(String, String), Status>(e),
        },
{
    match read_body(body, limit) {
        Err(e) => Err(e),
        Ok(text) => {
            let m1 = json_member(text.as_str(), k1);
            let m2 = json_member(text.as_str(), k2);
            required_members(m1, m2)
        },
    }
}

} // verus!
