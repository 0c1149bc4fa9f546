use base64::Engine;
use user_profile::error::ServiceError;
use user_profile::identity::{
    extract_sub, extractor_for, get_sub, get_verified_sub, sub_from_claims, sub_from_payload,
    subject_from_text, IdentityExtractor, RunMode,
};
use user_profile::claims::ClaimSet;
use user_profile::token::{bearer_payload, has_bearer_prefix, pad_payload};

fn header_for(claims: &str) -> String {
    let encoded = base64::engine::general_purpose::URL_SAFE_NO_PAD.encode(claims);
    format!("Bearer header.{}.signature", encoded)
}

#[test]
fn bearer_prefix_is_recognised() {
    assert!(has_bearer_prefix(b"Bearer abc"));
    assert!(has_bearer_prefix(b"Bearer "));
    assert!(!has_bearer_prefix(b"Bearer"));
    assert!(!has_bearer_prefix(b"bearer abc"));
    assert!(!has_bearer_prefix(b"Basic abc"));
    assert!(!has_bearer_prefix(b""));
}

#[test]
fn padding_fills_up_to_a_multiple_of_four() {
    assert_eq!(pad_payload(b"".to_vec()), b"".to_vec());
    assert_eq!(pad_payload(b"abcd".to_vec()), b"abcd".to_vec());
    assert_eq!(pad_payload(b"abcde".to_vec()), b"abcde===".to_vec());
    assert_eq!(pad_payload(b"abcdef".to_vec()), b"abcdef==".to_vec());
    assert_eq!(pad_payload(b"abcdefg".to_vec()), b"abcdefg=".to_vec());
}

#[test]
fn payload_is_the_middle_of_three_segments() {
    assert_eq!(bearer_payload("Bearer a.bc.d"), Some(b"bc==".to_vec()));
    assert_eq!(bearer_payload("Bearer a.b.c"), Some(b"b===".to_vec()));
    assert_eq!(bearer_payload("Bearer a.bcdef.g"), Some(b"bcdef===".to_vec()));
    assert_eq!(bearer_payload("Bearer a.bcd."), Some(b"bcd=".to_vec()));
    assert_eq!(bearer_payload("Bearer a..c"), Some(b"".to_vec()));
    assert_eq!(bearer_payload("Bearer .."), Some(b"".to_vec()));
}

#[test]
fn payload_needs_prefix_and_three_segments() {
    assert_eq!(bearer_payload(""), None);
    assert_eq!(bearer_payload("Bearer "), None);
    assert_eq!(bearer_payload("Bearer a"), None);
    assert_eq!(bearer_payload("Bearer a.b"), None);
    assert_eq!(bearer_payload("Bearer a.b.c.d"), None);
    assert_eq!(bearer_payload("a.b.c"), None);
    assert_eq!(bearer_payload("bearer a.b.c"), None);
    assert_eq!(bearer_payload("Bearera.b.c"), None);
}

#[test]
fn sub_is_extracted_whatever_padding_is_needed() {
    // Claim texts of 13, 14 and 15 bytes encode to 18, 19 and 20 symbols,
    // which need two, one and no `=`.
    for sub in ["abc", "abcd", "abcde", "test-sub", "x", "a b\u{e9}"] {
        let claims = format!("{{\"sub\":\"{}\"}}", sub);
        let header = header_for(&claims);
        assert_eq!(get_sub(Some(&header)), Ok(sub.to_string()));
    }
}

#[test]
fn padded_payload_is_accepted_as_it_is() {
    let encoded = base64::engine::general_purpose::URL_SAFE.encode("{\"sub\":\"abcd\"}");
    assert!(encoded.ends_with('='));
    let header = format!("Bearer h.{}.s", encoded);
    assert_eq!(get_sub(Some(&header)), Ok("abcd".to_string()));
}

#[test]
fn payload_one_over_a_multiple_of_four_is_rejected() {
    // Three `=` are added, which no base64 text ends in.
    assert_eq!(bearer_payload("Bearer h.eyJzd.s"), Some(b"eyJzd===".to_vec()));
    assert_eq!(get_sub(Some("Bearer h.eyJzd.s")), Err(ServiceError::IdentityMissing));
}

#[test]
fn url_safe_alphabet_is_used() {
    let claims = "{\"sub\":\"a~~~\"}";
    let header = header_for(claims);
    assert!(header.contains('-'));
    assert_eq!(get_sub(Some(&header)), Ok("a~~~".to_string()));
    let standard = base64::engine::general_purpose::STANDARD_NO_PAD.encode(claims);
    assert!(standard.contains('+'));
    let header = format!("Bearer h.{}.s", standard);
    assert_eq!(get_sub(Some(&header)), Err(ServiceError::IdentityMissing));
}

#[test]
fn missing_header_is_identity_missing() {
    assert_eq!(get_sub(None), Err(ServiceError::IdentityMissing));
}

#[test]
fn missing_prefix_is_identity_missing() {
    let header = header_for("{\"sub\":\"test-sub\"}");
    let bare = header.strip_prefix("Bearer ").unwrap();
    assert_eq!(get_sub(Some(bare)), Err(ServiceError::IdentityMissing));
    let basic = format!("Basic {}", bare);
    assert_eq!(get_sub(Some(&basic)), Err(ServiceError::IdentityMissing));
}

#[test]
fn wrong_segment_count_is_identity_missing() {
    let encoded = base64::engine::general_purpose::URL_SAFE_NO_PAD.encode("{\"sub\":\"x\"}");
    let two = format!("Bearer {}.signature", encoded);
    let four = format!("Bearer header.{}.signature.more", encoded);
    let one = format!("Bearer {}", encoded);
    assert_eq!(get_sub(Some(&two)), Err(ServiceError::IdentityMissing));
    assert_eq!(get_sub(Some(&four)), Err(ServiceError::IdentityMissing));
    assert_eq!(get_sub(Some(&one)), Err(ServiceError::IdentityMissing));
}

#[test]
fn bad_base64_is_identity_missing() {
    assert_eq!(get_sub(Some("Bearer h.!!!!.s")), Err(ServiceError::IdentityMissing));
    assert_eq!(get_sub(Some("Bearer h.ab=c.s")), Err(ServiceError::IdentityMissing));
    assert_eq!(sub_from_payload(b"{\"sub\":\"x\"}"), Err(ServiceError::IdentityMissing));
}

#[test]
fn bad_json_is_identity_missing() {
    assert_eq!(get_sub(Some(&header_for("not json"))), Err(ServiceError::IdentityMissing));
    assert_eq!(get_sub(Some(&header_for("{\"sub\":"))), Err(ServiceError::IdentityMissing));
    assert_eq!(get_sub(Some(&header_for(""))), Err(ServiceError::IdentityMissing));
    assert_eq!(sub_from_claims(b"{\"sub\":\"x\"} trailing"), Err(ServiceError::IdentityMissing));
}

#[test]
fn missing_or_non_string_sub_is_identity_missing() {
    assert_eq!(sub_from_claims(b"{}"), Err(ServiceError::IdentityMissing));
    assert_eq!(sub_from_claims(b"{\"name\":\"x\"}"), Err(ServiceError::IdentityMissing));
    assert_eq!(sub_from_claims(b"{\"sub\":42}"), Err(ServiceError::IdentityMissing));
    assert_eq!(sub_from_claims(b"{\"sub\":null}"), Err(ServiceError::IdentityMissing));
    assert_eq!(sub_from_claims(b"{\"sub\":[\"x\"]}"), Err(ServiceError::IdentityMissing));
    assert_eq!(sub_from_claims(b"[\"sub\"]"), Err(ServiceError::IdentityMissing));
    assert_eq!(sub_from_claims(b"\"sub\""), Err(ServiceError::IdentityMissing));
}

#[test]
fn claims_give_their_sub() {
    assert_eq!(sub_from_claims(b"{\"sub\":\"test-sub\"}"), Ok("test-sub".to_string()));
    assert_eq!(
        sub_from_claims(b" { \"iss\" : \"x\", \"sub\" : \"a\\\"b\" } "),
        Ok("a\"b".to_string())
    );
    assert_eq!(sub_from_payload(b"eyJzdWIiOiJ4In0="), Ok("x".to_string()));
}

#[test]
fn text_becomes_subject() {
    assert_eq!(subject_from_text(Some("abc".to_string())), Ok("abc".to_string()));
    assert_eq!(subject_from_text(None), Err(ServiceError::IdentityMissing));
}

#[test]
fn extractor_follows_the_run_mode() {
    assert_eq!(extractor_for(RunMode::Production), IdentityExtractor::TrustedContext);
    assert_eq!(extractor_for(RunMode::Local), IdentityExtractor::UnverifiedDecode);
}

fn claims(pairs: &[(&str, &str)]) -> ClaimSet {
    let mut set = ClaimSet::new();
    for (k, v) in pairs {
        assert!(set.insert(k.to_string(), v.to_string()));
    }
    set
}

#[test]
fn claim_set_holds_each_name_once() {
    let mut set = ClaimSet::new();
    assert!(set.insert("sub".to_string(), "first".to_string()));
    assert!(!set.insert("sub".to_string(), "second".to_string()));
    assert!(set.insert("iss".to_string(), "issuer".to_string()));
    assert_eq!(set.claim("sub"), Some("first".to_string()));
    assert_eq!(set.claim("iss"), Some("issuer".to_string()));
}

#[test]
fn empty_sub_is_identity_missing() {
    assert_eq!(subject_from_text(Some(String::new())), Err(ServiceError::IdentityMissing));
    assert_eq!(sub_from_claims(b"{\"sub\":\"\"}"), Err(ServiceError::IdentityMissing));
    assert_eq!(get_sub(Some(&header_for("{\"sub\":\"\"}"))), Err(ServiceError::IdentityMissing));
    let set = claims(&[("sub", "")]);
    assert_eq!(set.claim("sub"), Some(String::new()));
    assert_eq!(get_verified_sub(Some(&set)), Err(ServiceError::IdentityMissing));
    assert_eq!(
        extract_sub(IdentityExtractor::TrustedContext, None, Some(&set)),
        Err(ServiceError::IdentityMissing)
    );
}

#[test]
fn claim_is_looked_up_by_name() {
    let set = claims(&[("iss", "issuer"), ("sub", "user-1"), ("aud", "app")]);
    assert_eq!(set.claim("sub"), Some("user-1".to_string()));
    assert_eq!(set.claim("iss"), Some("issuer".to_string()));
    assert_eq!(set.claim("aud"), Some("app".to_string()));
    assert_eq!(set.claim("Sub"), None);
    assert_eq!(set.claim(""), None);
    assert_eq!(claims(&[]).claim("sub"), None);
}

#[test]
fn verified_sub_is_the_sub_claim() {
    let set = claims(&[("iss", "issuer"), ("sub", "user-1")]);
    assert_eq!(get_verified_sub(Some(&set)), Ok("user-1".to_string()));
}

#[test]
fn missing_context_or_claim_is_identity_missing() {
    assert_eq!(get_verified_sub(None), Err(ServiceError::IdentityMissing));
    let set = claims(&[("iss", "issuer")]);
    assert_eq!(get_verified_sub(Some(&set)), Err(ServiceError::IdentityMissing));
    assert_eq!(get_verified_sub(Some(&claims(&[]))), Err(ServiceError::IdentityMissing));
}

#[test]
fn each_extractor_reads_its_own_source() {
    let header = header_for("{\"sub\":\"from-token\"}");
    let set = claims(&[("sub", "from-claims")]);
    assert_eq!(
        extract_sub(IdentityExtractor::TrustedContext, Some(&header), Some(&set)),
        Ok("from-claims".to_string())
    );
    assert_eq!(
        extract_sub(IdentityExtractor::TrustedContext, Some(&header), None),
        Err(ServiceError::IdentityMissing)
    );
    assert_eq!(
        extract_sub(IdentityExtractor::UnverifiedDecode, Some(&header), Some(&set)),
        Ok("from-token".to_string())
    );
    assert_eq!(
        extract_sub(IdentityExtractor::UnverifiedDecode, None, Some(&set)),
        Err(ServiceError::IdentityMissing)
    );
}

#[test]
fn errors_have_their_messages() {
    assert_eq!(ServiceError::IdentityMissing.message(), "Missing sub in claims");
    assert_eq!(ServiceError::NotFound.message(), "User not found");
    assert_eq!(ServiceError::RepositoryFailure.message(), "Failed to read user");
}
