//! Credential extraction: well-formed headers yield exactly the encoded
//! pair; every malformed shape yields nothing.

use rustaceans::auth::BasicAuth;

#[test]
fn well_formed_header_extracts_pair() {
    // "dXNlcjpwYXNz" is base64 of "user:pass".
    let auth = BasicAuth::from_authorization_header("BASIC dXNlcjpwYXNz").unwrap();
    assert_eq!(auth.username, "user");
    assert_eq!(auth.password, "pass");
}

#[test]
fn round_trip_through_encoder() {
    let header = format!("BASIC {}", base64::encode("alice:wonderland"));
    let auth = BasicAuth::from_authorization_header(&header).unwrap();
    assert_eq!(auth.username, "alice");
    assert_eq!(auth.password, "wonderland");
}

#[test]
fn surrounding_whitespace_is_ignored() {
    let auth = BasicAuth::from_authorization_header("  BASIC\tdXNlcjpwYXNz  ").unwrap();
    assert_eq!(auth.username, "user");
    assert_eq!(auth.password, "pass");
}

#[test]
fn empty_parts_are_still_a_pair() {
    // "Og==" is base64 of ":".
    let auth = BasicAuth::from_authorization_header("BASIC Og==").unwrap();
    assert_eq!(auth.username, "");
    assert_eq!(auth.password, "");
}

#[test]
fn scheme_is_case_sensitive() {
    assert!(BasicAuth::from_authorization_header("Basic dXNlcjpwYXNz").is_none());
    assert!(BasicAuth::from_authorization_header("basic dXNlcjpwYXNz").is_none());
}

#[test]
fn wrong_token_count_is_rejected() {
    assert!(BasicAuth::from_authorization_header("BASIC").is_none());
    assert!(BasicAuth::from_authorization_header("BASIC dXNlcjpwYXNz extra").is_none());
    assert!(BasicAuth::from_authorization_header("").is_none());
    assert!(BasicAuth::from_authorization_header("   ").is_none());
}

#[test]
fn invalid_base64_is_rejected() {
    assert!(BasicAuth::from_authorization_header("BASIC %%%%").is_none());
    assert!(BasicAuth::from_authorization_header("BASIC dXNlcjpwYXNz!").is_none());
}

#[test]
fn colon_count_must_be_exactly_one() {
    let none = format!("BASIC {}", base64::encode("nocolonhere"));
    assert!(BasicAuth::from_authorization_header(&none).is_none());
    let two = format!("BASIC {}", base64::encode("a:b:c"));
    assert!(BasicAuth::from_authorization_header(&two).is_none());
}

#[test]
fn bytes_that_are_not_utf8_are_rejected() {
    let header = format!("BASIC {}", base64::encode([0xffu8, 0xfe, 0x3a, 0x80]));
    assert!(BasicAuth::from_authorization_header(&header).is_none());
}

#[test]
fn absent_header_is_unauthorized() {
    assert!(BasicAuth::from_request(None).is_none());
}

#[test]
fn present_header_goes_through_the_extractor() {
    let auth = BasicAuth::from_request(Some("BASIC dXNlcjpwYXNz")).unwrap();
    assert_eq!(auth.username, "user");
    assert_eq!(auth.password, "pass");
    assert!(BasicAuth::from_request(Some("BEARER dXNlcjpwYXNz")).is_none());
}
