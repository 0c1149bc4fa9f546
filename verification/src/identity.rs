//! Who the caller is: the subject identifier of a request, taken either from
//! claims that the platform has verified or from the bearer token itself.
//!
//! Reading the token performs no signature check. It is meant for local runs
//! and must not be reachable in production.

use vstd::prelude::*;
use vstd::string::StringSliceAdditionalSpecFns;
use crate::claims::ClaimSet;
use crate::error::ServiceError;
use crate::json::{
    base64_url_decoded, canonically_padded, decode_url_safe, json_parsed, parse_value,
    string_member,
};
use crate::token::{
    bearer_payload, bearer_prefix, dot_free, lemma_split_three, lemma_three_pads, padded,
    payload_segment, split_dots, strip_bearer, token_payload, DOT,
};

verus! {

/// Where the service runs.
#[derive(Clone, Copy, Debug, PartialEq, Eq, Structural)]
pub enum RunMode {
    /// Deployed: behind a gateway that verifies tokens.
    Production,
    /// Local or test: nothing upstream verifies anything.
    Local,
}

/// How the subject identifier is taken from a request.
#[derive(Clone, Copy, Debug, PartialEq, Eq, Structural)]
pub enum IdentityExtractor {
    /// Read the `sub` claim that the platform attached.
    TrustedContext,
    /// Decode the bearer token, signature unchecked.
    UnverifiedDecode,
}

/// A text as a subject identifier: an identifier is never empty.
pub open spec fn usable(text: Option<Seq<char>>) -> Option<Seq<char>> {
    match text {
        Some(t) => if t.len() > 0 {
            Some(t)
        } else {
            None
        },
        None => None,
    }
}

/// The `sub` claim of the claim set attached to a request, if one is
/// attached and holds that claim with a text that is not empty.
pub open spec fn sub_of_context(context: Option<&ClaimSet>) -> Option<Seq<char>> {
    match context {
        None => None,
        Some(set) => if set@.dom().contains("sub"@) {
            usable(Some(set@["sub"@]))
        } else {
            None
        },
    }
}

/// The `sub` member, as text, of the JSON object that a claim text denotes,
/// if it is there and not empty.
pub open spec fn sub_of_claims(claims: Seq<u8>) -> Option<Seq<char>> {
    match json_parsed(claims) {
        None => None,
        Some(members) => if members.dom().contains("sub"@) {
            usable(Some(members["sub"@]))
        } else {
            None
        },
    }
}

/// The subject that a padded base64url payload carries.
pub open spec fn sub_of_payload(payload: Seq<u8>) -> Option<Seq<char>> {
    match base64_url_decoded(payload) {
        None => None,
        Some(claims) => sub_of_claims(claims),
    }
}

/// The length of the token's middle segment, before padding; 0 where the
/// header holds no token of three segments.
pub open spec fn payload_len(header: Option<Seq<u8>>) -> nat {
    match header {
        None => 0,
        Some(bytes) => match strip_bearer(bytes) {
            None => 0,
            Some(_) => payload_segment(bytes).len(),
        },
    }
}

/// The subject that an authorization header carries, if there is a header
/// and every step of reading it succeeds.
pub open spec fn sub_of_header(header: Option<Seq<u8>>) -> Option<Seq<char>> {
    match header {
        None => None,
        Some(bytes) => match token_payload(bytes) {
            None => None,
            Some(payload) => sub_of_payload(payload),
        },
    }
}

/// The bytes of a header, where there is one.
pub open spec fn header_bytes(authorization: Option<&str>) -> Option<Seq<u8>> {
    match authorization {
        None => None,
        Some(text) => Some(text.spec_bytes()),
    }
}

/// The subject that a request carries under the given way of extracting it.
pub open spec fn sub_of_request(
    extractor: IdentityExtractor,
    authorization: Option<&str>,
    context: Option<&ClaimSet>,
) -> Option<Seq<char>> {
    match extractor {
        IdentityExtractor::TrustedContext => sub_of_context(context),
        IdentityExtractor::UnverifiedDecode => sub_of_header(header_bytes(authorization)),
    }
}

/// The extractor that a run mode calls for.
pub fn extractor_for(mode: RunMode) -> (r: IdentityExtractor)
    ensures
        r == (match mode {
            RunMode::Production => IdentityExtractor::TrustedContext,
            RunMode::Local => IdentityExtractor::UnverifiedDecode,
        }),
{
    match mode {
        RunMode::Production => IdentityExtractor::TrustedContext,
        RunMode::Local => IdentityExtractor::UnverifiedDecode,
    }
}

/// Turns the text found under `sub`, if any, into the subject identifier.
/// An empty text is no identifier.
pub fn subject_from_text(text: Option<String>) -> (r: Result<String, ServiceError>)
    ensures
        match r {
            Ok(sub) => text == Some(sub) && sub@.len() > 0 && usable(Some(sub@)) == Some(sub@),
            Err(e) => e == ServiceError::IdentityMissing && (match text {
                Some(t) => t@.len() == 0 && usable(Some(t@)).is_none(),
                None => true,
            }),
        },
{
    match text {
        Some(sub) => if sub.as_str().is_empty() {
            Err(ServiceError::IdentityMissing)
        } else {
            Ok(sub)
        },
        None => Err(ServiceError::IdentityMissing),
    }
}

/// Reads the `sub` member of a claim text.
pub fn sub_from_claims(claims: &[u8]) -> (r: Result<String, ServiceError>)
    ensures
        match r {
            Ok(sub) => sub_of_claims(claims@) == Some(sub@) && sub@.len() > 0,
            Err(e) => e == ServiceError::IdentityMissing && sub_of_claims(claims@).is_none(),
        },
{
    match parse_value(claims) {
        Err(_) => Err(ServiceError::IdentityMissing),
        Ok(value) => subject_from_text(string_member(&value, "sub")),
    }
}

/// Decodes a padded base64url payload and reads the `sub` member of the
/// claims in it.
pub fn sub_from_payload(payload: &[u8]) -> (r: Result<String, ServiceError>)
    ensures
        match r {
            Ok(sub) => sub_of_payload(payload@) == Some(sub@) && sub@.len() > 0,
            Err(e) => e == ServiceError::IdentityMissing && sub_of_payload(payload@).is_none(),
        },
        !canonically_padded(payload@) ==> r.is_err(),
{
    match decode_url_safe(payload) {
        Err(_) => Err(ServiceError::IdentityMissing),
        Ok(claims) => sub_from_claims(claims.as_slice()),
    }
}

/// The subject identifier in the bearer token of an authorization header,
/// signature unchecked. Every way of failing gives `IdentityMissing`, an
/// empty `sub` among them.
pub fn get_sub(authorization: Option<&str>) -> (r: Result<String, ServiceError>)
    ensures
        match r {
            Ok(sub) => sub_of_header(header_bytes(authorization)) == Some(sub@) && sub@.len()
                > 0,
            Err(e) => e == ServiceError::IdentityMissing && sub_of_header(
                header_bytes(authorization),
            ).is_none(),
        },
        payload_len(header_bytes(authorization)) % 4 == 1 ==> r.is_err(),
{
    match authorization {
        None => Err(ServiceError::IdentityMissing),
        Some(header) => match bearer_payload(header) {
            None => Err(ServiceError::IdentityMissing),
            Some(payload) => {
                proof {
                    lemma_three_pads(payload_segment(header.spec_bytes()));
                }
                sub_from_payload(payload.as_slice())
            },
        },
    }
}

/// The subject identifier that the platform verified: the `sub` claim of the
/// attached claim set. `IdentityMissing` where no claim set is attached, it
/// holds no such claim, or the claim is empty. No signature is checked here:
/// the platform did.
pub fn get_verified_sub(context: Option<&ClaimSet>) -> (r: Result<String, ServiceError>)
    ensures
        match r {
            Ok(sub) => sub_of_context(context) == Some(sub@) && sub@.len() > 0,
            Err(e) => e == ServiceError::IdentityMissing && sub_of_context(context).is_none(),
        },
{
    match context {
        None => Err(ServiceError::IdentityMissing),
        Some(set) => subject_from_text(set.claim("sub")),
    }
}

/// The subject identifier of a request. Only the source that belongs to the
/// extractor is looked at.
pub fn extract_sub(
    extractor: IdentityExtractor,
    authorization: Option<&str>,
    context: Option<&ClaimSet>,
) -> (r: Result<String, ServiceError>)
    ensures
        match r {
            Ok(sub) => sub_of_request(extractor, authorization, context) == Some(sub@)
                && sub@.len() > 0,
            Err(e) => e == ServiceError::IdentityMissing && sub_of_request(
                extractor,
                authorization,
                context,
            ).is_none(),
        },
{
    match extractor {
        IdentityExtractor::TrustedContext => get_verified_sub(context),
        IdentityExtractor::UnverifiedDecode => get_sub(authorization),
    }
}

/// A header made of `Bearer ` and three dot-free segments, whose padded
/// middle segment decodes to JSON with a string under `sub`, carries exactly
/// that string, whatever padding the segment needs.
pub proof fn lemma_well_formed_token_carries_sub(
    head: Seq<u8>,
    payload: Seq<u8>,
    signature: Seq<u8>,
    claims: Seq<u8>,
    sub: Seq<char>,
)
    requires
        dot_free(head),
        dot_free(payload),
        dot_free(signature),
        base64_url_decoded(padded(payload)) == Some(claims),
        sub_of_claims(claims) == Some(sub),
    ensures
        sub_of_header(
            Some(bearer_prefix() + (head.push(DOT) + payload.push(DOT) + signature)),
        ) == Some(sub),
{
    let token = head.push(DOT) + payload.push(DOT) + signature;
    let header = bearer_prefix() + token;
    lemma_split_three(head, payload, signature);
    assert(header.subrange(0, 7) =~= bearer_prefix());
    assert(header.subrange(7, header.len() as int) =~= token);
    assert(strip_bearer(header) == Some(token));
}

/// A header that lacks the `Bearer ` prefix, whose token has not exactly
/// three segments, whose payload is no base64url or whose claims are no JSON
/// with a string under `sub` carries no subject; neither does a missing
/// header.
pub proof fn lemma_malformed_token_carries_no_sub(header: Seq<u8>)
    requires
        !bearer_prefix().is_prefix_of(header) || split_dots(
            header.subrange(7, header.len() as int),
        ).len() != 3 || base64_url_decoded(
            padded(split_dots(header.subrange(7, header.len() as int))[1]),
        ).is_none() || sub_of_claims(
            base64_url_decoded(
                padded(split_dots(header.subrange(7, header.len() as int))[1]),
            ).unwrap(),
        ).is_none(),
    ensures
        sub_of_header(Some(header)).is_none(),
        sub_of_header(None).is_none(),
{
}

} // verus!
