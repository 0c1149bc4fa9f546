//! The response to a request that found its profile: status 200 and the
//! profile as a JSON object of two members.

use vstd::prelude::*;
use vstd::string::StringExecFns;
use vstd::pervasive::unreached;
use crate::json::{json_quoted, quote};
use crate::service::{UserProfile, UserProfileView};

verus! {

/// The status of a response that carries a profile.
pub const STATUS_OK: u16 = 200;

/// A response: its status and its body.
#[derive(Debug)]
pub struct Response {
    pub status: u16,
    pub body: String,
}

/// The JSON object with the members `first_name` and `last_name`, in that
/// order and without white space, given the two values as JSON literals.
pub open spec fn framed_body(first_name: Seq<char>, last_name: Seq<char>) -> Seq<char> {
    "{\"first_name\":"@ + first_name + ",\"last_name\":"@ + last_name + "}"@
}

/// The body that stands for a profile: both names as JSON string literals,
/// framed as an object.
pub open spec fn body_of(profile: UserProfileView) -> Seq<char> {
    framed_body(json_quoted(profile.first_name), json_quoted(profile.last_name))
}

/// Puts two JSON literals into the object that a profile is sent as.
pub fn frame_profile_body(first_name: &str, last_name: &str) -> (r: String)
    ensures
        r@ == framed_body(first_name@, last_name@),
{
    let mut body = "{\"first_name\":".to_owned();
    body.append(first_name);
    body.append(",\"last_name\":");
    body.append(last_name);
    body.append("}");
    body
}

/// A text as a JSON string literal.
pub fn json_string(text: &str) -> (r: String)
    ensures
        r@ == json_quoted(text@),
{
    match quote(text) {
        Ok(quoted) => quoted,
        Err(_) => unreached(),
    }
}

/// The response that carries a profile: status 200 and the profile as JSON.
pub fn write_response(profile: &UserProfile) -> (r: Response)
    ensures
        r.status == STATUS_OK,
        r.body@ == body_of(profile@),
{
    let first_name = json_string(profile.first_name.as_str());
    let last_name = json_string(profile.last_name.as_str());
    Response {
        status: STATUS_OK,
        body: frame_profile_body(first_name.as_str(), last_name.as_str()),
    }
}

} // verus!
