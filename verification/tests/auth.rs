use email_relay::auth::{validate_api_key, AuthResult};

#[test]
fn absent_credential_is_missing() {
    assert_eq!(validate_api_key(None, "s3cret"), AuthResult::MissingCredential);
}

#[test]
fn mismatched_credential_is_invalid() {
    assert_eq!(validate_api_key(Some("wrong"), "s3cret"), AuthResult::InvalidCredential);
    assert_eq!(validate_api_key(Some("s3cret "), "s3cret"), AuthResult::InvalidCredential);
    assert_eq!(validate_api_key(Some("S3CRET"), "s3cret"), AuthResult::InvalidCredential);
    assert_eq!(validate_api_key(Some(""), "s3cret"), AuthResult::InvalidCredential);
}

#[test]
fn exact_match_is_accepted() {
    assert_eq!(validate_api_key(Some("s3cret"), "s3cret"), AuthResult::Accepted);
    assert_eq!(validate_api_key(Some(""), ""), AuthResult::Accepted);
}
