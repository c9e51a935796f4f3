use fitness_progress_tracker::api::middleware::{extract_bearer, JwtAuth};
use fitness_progress_tracker::error::{AuthRejection, ServiceError, TokenError};
use fitness_progress_tracker::utils::auth::{generate_token_at, validate_token_at};
use fitness_progress_tracker::utils::{generate_token, hash_password, validate_token, verify_password};

#[test]
fn test_password_hashing_and_verification() {
    let password = "test_password123";

    let hash = hash_password(password).expect("Failed to hash password");

    let is_valid = verify_password(password, &hash).expect("Failed to verify password");

    assert!(is_valid, "Password verification should succeed with correct password");

    let wrong_password = "wrong_password";
    let is_invalid = verify_password(wrong_password, &hash).expect("Failed to verify password");

    assert!(!is_invalid, "Password verification should fail with wrong password");
}

#[test]
fn hashing_twice_gives_distinct_digests_that_both_verify() {
    let first = hash_password("same secret").unwrap();
    let second = hash_password("same secret").unwrap();
    assert_ne!(first, second);
    assert_ne!(first, "same secret");
    assert!(first.starts_with("$2b$12$"));
    assert_eq!(verify_password("same secret", &first), Ok(true));
    assert_eq!(verify_password("same secret", &second), Ok(true));
}

#[test]
fn malformed_digest_is_a_hashing_error() {
    assert_eq!(verify_password("whatever", "not a digest"), Err(ServiceError::Hashing));
}

#[test]
fn issued_token_validates_to_its_claims() {
    let id: u128 = 42;
    let token = generate_token_at(id, "s3cret", 60, 1_000).unwrap();
    let claims = validate_token_at(&token, "s3cret", 1_059).unwrap();
    assert_eq!(claims.sub, "00000000-0000-0000-0000-00000000002a");
    assert_eq!(claims.iat, 1_000);
    assert_eq!(claims.exp, 1_060);
    assert_eq!(token.split('.').count(), 3);
}

#[test]
fn token_is_expired_at_its_expiry() {
    let token = generate_token_at(7, "s3cret", 60, 1_000).unwrap();
    assert_eq!(validate_token_at(&token, "s3cret", 1_060).unwrap_err(), TokenError::Expired);
    assert_eq!(validate_token_at(&token, "s3cret", 5_000).unwrap_err(), TokenError::Expired);
}

#[test]
fn token_under_another_secret_has_a_bad_signature() {
    let token = generate_token_at(7, "s3cret", 60, 1_000).unwrap();
    assert_eq!(validate_token_at(&token, "other", 1_001).unwrap_err(), TokenError::BadSignature);
}

#[test]
fn garbage_token_is_malformed() {
    assert_eq!(validate_token_at("abc.def", "s3cret", 0).unwrap_err(), TokenError::Malformed);
    assert_eq!(validate_token_at("", "s3cret", 0).unwrap_err(), TokenError::Malformed);
}

#[test]
fn token_cannot_be_issued_before_the_epoch_or_past_the_range() {
    assert_eq!(generate_token_at(1, "k", 60, -5), Err(TokenError::Issue));
    assert_eq!(generate_token_at(1, "k", u64::MAX, 10), Err(TokenError::Issue));
    assert_eq!(generate_token_at(1, "k", 0, 10), Err(TokenError::Issue));
}

#[test]
fn fresh_token_validates_now() {
    let id = uuid::Uuid::new_v4().as_u128();
    let token = generate_token(id, "s3cret", 3600).unwrap();
    let claims = validate_token(&token, "s3cret").unwrap();
    assert_eq!(claims.sub, uuid::Uuid::from_u128(id).to_string());
    assert_eq!(claims.exp - claims.iat, 3600);
    assert_eq!(validate_token(&token, "other").unwrap_err(), TokenError::BadSignature);
}

#[test]
fn bearer_token_is_taken_from_the_header() {
    assert_eq!(extract_bearer("Bearer abc.def"), Some("abc.def".to_string()));
    assert_eq!(extract_bearer("Bearer "), Some(String::new()));
    assert_eq!(extract_bearer("Bearer"), None);
    assert_eq!(extract_bearer("Basic abc"), None);
    assert_eq!(extract_bearer("bearer abc"), None);
}

#[test]
fn middleware_resolves_the_token_subject() {
    let auth = JwtAuth::new("s3cret".to_string());
    let mw = auth.new_transform();
    let token = generate_token_at(99, "s3cret", 60, 1_000).unwrap();
    let header = format!("Bearer {}", token);
    assert_eq!(mw.call_at(Some(&header), 1_030), Ok(99));
    assert_eq!(mw.call_at(Some(&header), 1_060), Err(AuthRejection::InvalidToken));
    assert_eq!(mw.call_at(None, 1_030), Err(AuthRejection::MissingToken));
    assert_eq!(mw.call_at(Some(token.as_str()), 1_030), Err(AuthRejection::MissingToken));
    assert_eq!(mw.call_at(Some("Bearer nonsense"), 1_030), Err(AuthRejection::InvalidToken));
    let foreign = generate_token_at(99, "other", 60, 1_000).unwrap();
    let header = format!("Bearer {}", foreign);
    assert_eq!(mw.call_at(Some(&header), 1_030), Err(AuthRejection::InvalidToken));
}

#[test]
fn middleware_accepts_a_fresh_token_now() {
    let mw = JwtAuth::new("k".to_string()).new_transform();
    let token = generate_token(5, "k", 600).unwrap();
    assert_eq!(mw.call(Some(&format!("Bearer {}", token))), Ok(5));
    assert_eq!(mw.call(Some("Token x")), Err(AuthRejection::MissingToken));
}

#[test]
fn token_is_issued_whenever_clock_and_lifetime_are_in_range() {
    let token = generate_token_at(1, "k", 1, 0).unwrap();
    assert_eq!(validate_token_at(&token, "k", 0).unwrap().exp, 1);
    assert_eq!(validate_token_at(&token, "k", 1).unwrap_err(), TokenError::Expired);
    let token = generate_token_at(1, "k", u64::MAX - 10, 10).unwrap();
    let claims = validate_token_at(&token, "k", 11).unwrap();
    assert_eq!(claims.exp, u64::MAX);
    assert_eq!(claims.iat, 10);
}

#[test]
fn subject_is_the_hyphenated_lower_case_id() {
    let token = generate_token_at(u128::MAX, "k", 60, 0).unwrap();
    assert_eq!(validate_token_at(&token, "k", 1).unwrap().sub, "ffffffff-ffff-ffff-ffff-ffffffffffff");
    let id: u128 = 0x0123_4567_89ab_cdef_fedc_ba98_7654_3210;
    let token = generate_token_at(id, "k", 60, 0).unwrap();
    assert_eq!(validate_token_at(&token, "k", 1).unwrap().sub, "01234567-89ab-cdef-fedc-ba9876543210");
}

#[test]
fn secrets_equal_after_hmac_key_padding_share_signatures() {
    // HMAC pads a short key with zero bytes, so these two secrets are one key.
    let token = generate_token_at(3, "k", 60, 0).unwrap();
    assert_eq!(validate_token_at(&token, "k\u{0}", 1).unwrap().iat, 0);
    assert_eq!(validate_token_at(&token, "k\u{0}x", 1).unwrap_err(), TokenError::BadSignature);
}
