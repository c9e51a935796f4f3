use vstd::prelude::*;

use crate::error::{ServiceError, TokenError};
use crate::models::Claims;
use crate::utils::clock::{now_seconds, now_unsigned};
use crate::utils::ids::{uuid_parsed, uuid_text, uuid_to_text};

verus! {

/// What bcrypt's verification says of a password and a digest: whether they
/// match, or `None` where the digest is malformed.
pub uninterp spec fn bcrypt_verdict(password: Seq<char>, digest: Seq<char>) -> Option<bool>;

/// The claims (subject, issue time, expiry) that an HS256 token carries
/// under a secret, or why it is refused. Expiry is not judged here.
pub uninterp spec fn jwt_decoded(token: Seq<char>, secret: Seq<char>) -> Result<(Seq<char>, u64, u64), TokenError>;

/// The HS256 token that signs the claims (subject, issue time, expiry)
/// with a secret.
pub uninterp spec fn jwt_encoded(sub: Seq<char>, iat: u64, exp: u64, secret: Seq<char>) -> Seq<char>;

/// Relies on bcrypt::hash at bcrypt::DEFAULT_COST, with a fresh random salt:
/// whatever digest comes back is well formed, so bcrypt::verify gives a
/// verdict for every password on it, and accepts the same password.
#[verifier::external_body]
fn bcrypt_hash(password: &str) -> (r: Option<String>)
    ensures
        r matches Some(d) ==> bcrypt_verdict(password@, d@) == Some(true),
        r matches Some(d) ==> forall|q: Seq<char>| #[trigger] bcrypt_verdict(q, d@) is Some,
{
    bcrypt::hash(password, bcrypt::DEFAULT_COST).ok()
}

/// Relies on bcrypt::verify: a constant-time comparison of the password with
/// the digest, or an error where the digest is malformed.
#[verifier::external_body]
fn bcrypt_verify(password: &str, digest: &str) -> (r: Option<bool>)
    ensures
        r == bcrypt_verdict(password@, digest@),
{
    bcrypt::verify(password, digest).ok()
}

/// Relies on jsonwebtoken::encode with the default (HS256) header: the claims
/// `{sub, exp, iat}` signed with the secret, which jsonwebtoken::decode under
/// the same secret reads back unchanged. Encoding never fails here: the key is
/// an HMAC key as the header asks, a JSON object always serializes, and HMAC
/// signing always succeeds.
#[verifier::external_body]
fn jwt_encode(sub: &str, iat: u64, exp: u64, secret: &str) -> (r: Option<String>)
    ensures
        r is Some,
        r matches Some(t) ==> t@ == jwt_encoded(sub@, iat, exp, secret@),
        r matches Some(t) ==> jwt_decoded(t@, secret@) is Ok,
        r matches Some(t) ==> jwt_decoded(t@, secret@)->Ok_0 == (sub@, iat, exp),
{
    let mut claims = serde_json::Map::new();
    claims.insert("sub".to_string(), serde_json::Value::from(sub));
    claims.insert("exp".to_string(), serde_json::Value::from(exp));
    claims.insert("iat".to_string(), serde_json::Value::from(iat));
    let key = jsonwebtoken::EncodingKey::from_secret(secret.as_bytes());
    let header = jsonwebtoken::Header::default();
    jsonwebtoken::encode(&header, &serde_json::Value::Object(claims), &key).ok()
}

/// A decoding result as plain values.
pub open spec fn decoded_outcome(r: Result<(String, u64, u64), TokenError>) -> Result<(Seq<char>, u64, u64), TokenError> {
    match r {
        Ok(c) => Ok((c.0@, c.1, c.2)),
        Err(e) => Err(e),
    }
}

/// Relies on jsonwebtoken::decode for HS256 with the expiry left unchecked:
/// the claims of a token whose signature verifies under the secret. A bad
/// signature is told apart from every other refusal.
#[verifier::external_body]
fn jwt_decode(token: &str, secret: &str) -> (r: Result<(String, u64, u64), TokenError>)
    ensures
        decoded_outcome(r) == jwt_decoded(token@, secret@),
{
    let mut validation = jsonwebtoken::Validation::new(jsonwebtoken::Algorithm::HS256);
    validation.validate_exp = false;
    let key = jsonwebtoken::DecodingKey::from_secret(secret.as_bytes());
    match jsonwebtoken::decode::<serde_json::Value>(token, &key, &validation) {
        Ok(d) => match (d.claims["sub"].as_str(), d.claims["iat"].as_u64(), d.claims["exp"].as_u64()) {
            (Some(sub), Some(iat), Some(exp)) => Ok((sub.to_string(), iat, exp)),
            _ => Err(TokenError::Malformed),
        },
        Err(e) => match e.kind() {
            jsonwebtoken::errors::ErrorKind::InvalidSignature => Err(TokenError::BadSignature),
            _ => Err(TokenError::Malformed),
        },
    }
}

/// Hashes a password with a fresh salt. Any digest returned is one that
/// password verification accepts for this password, and checks every other
/// password against without error.
pub fn hash_password(password: &str) -> (r: Result<String, ServiceError>)
    ensures
        r matches Ok(d) ==> bcrypt_verdict(password@, d@) == Some(true),
        r matches Ok(d) ==> forall|q: Seq<char>| #[trigger] password_check(q, d@) is Ok,
        r matches Err(e) ==> e == ServiceError::Hashing,
{
    match bcrypt_hash(password) {
        Some(d) => Ok(d),
        None => Err(ServiceError::Hashing),
    }
}

/// The outcome of checking a password against a digest.
pub open spec fn password_check(password: Seq<char>, digest: Seq<char>) -> Result<bool, ServiceError> {
    match bcrypt_verdict(password, digest) {
        Some(b) => Ok(b),
        None => Err(ServiceError::Hashing),
    }
}

/// Checks a password against a digest: whether they match, or `Hashing`
/// where the digest is malformed.
pub fn verify_password(password: &str, hash: &str) -> (r: Result<bool, ServiceError>)
    ensures
        r == password_check(password@, hash@),
{
    match bcrypt_verify(password, hash) {
        Some(b) => Ok(b),
        None => Err(ServiceError::Hashing),
    }
}

/// Whether a token with this lifetime can be issued at this time: the clock
/// is not before the epoch, the lifetime is positive (the expiry comes
/// strictly after the issue time) and the expiry fits in 64 bits.
pub open spec fn issuable(now: i64, ttl: u64) -> bool {
    0 <= now && 0 < ttl && now + ttl <= u64::MAX
}

/// What a token issued for `id` at `now` with lifetime `ttl` under `secret`
/// is known to be: the encoding of the claims, and decoded back to them
/// under the same secret, with a subject that parses back to `id`.
pub open spec fn issued_token(token: Seq<char>, id: u128, secret: Seq<char>, ttl: u64, now: i64) -> bool {
    &&& issuable(now, ttl)
    &&& token == jwt_encoded(uuid_text(id), now as u64, (now + ttl) as u64, secret)
    &&& jwt_decoded(token, secret) is Ok
    &&& jwt_decoded(token, secret)->Ok_0 == (uuid_text(id), now as u64, (now + ttl) as u64)
    &&& uuid_parsed(uuid_text(id)) == Some(id)
}

/// The outcome of issuing a token at time `now`: a token exactly when the
/// clock and the lifetime are in range.
pub open spec fn issue_outcome(r: Result<String, TokenError>, id: u128, secret: Seq<char>, ttl: u64, now: i64) -> bool {
    &&& r is Ok <==> issuable(now, ttl)
    &&& r matches Ok(t) ==> issued_token(t@, id, secret, ttl, now)
    &&& r matches Err(e) ==> e == TokenError::Issue
}

/// Issues a token for the account `user_id` at time `now` (seconds since the
/// epoch), valid for `expiration_seconds`: it is issued exactly when the clock
/// is not before the epoch, the lifetime is positive and the expiry fits in
/// 64 bits.
pub fn generate_token_at(user_id: u128, secret: &str, expiration_seconds: u64, now: i64) -> (r: Result<String, TokenError>)
    ensures
        issue_outcome(r, user_id, secret@, expiration_seconds, now),
{
    if now < 0 || expiration_seconds == 0 || expiration_seconds > u64::MAX - (now as u64) {
        return Err(TokenError::Issue);
    }
    let iat = now as u64;
    let exp = iat + expiration_seconds;
    let sub = uuid_to_text(user_id);
    match jwt_encode(sub.as_str(), iat, exp, secret) {
        Some(t) => Ok(t),
        None => Err(TokenError::Issue),
    }
}

/// Issues a token for the account `user_id`, valid for `expiration_seconds`
/// from now: the outcome is that of issuing at the time the clock reads.
pub fn generate_token(user_id: u128, secret: &str, expiration_seconds: u64) -> (r: Result<String, TokenError>)
    ensures
        exists|now: i64| issue_outcome(r, user_id, secret@, expiration_seconds, now),
{
    let now = now_seconds();
    generate_token_at(user_id, secret, expiration_seconds, now)
}

/// The outcome of validating a token at time `now`: its claims (subject,
/// issue time, expiry) while `now` is before the expiry.
pub open spec fn token_verdict(token: Seq<char>, secret: Seq<char>, now: u64) -> Result<(Seq<char>, u64, u64), TokenError> {
    match jwt_decoded(token, secret) {
        Err(e) => Err(e),
        Ok(c) => if now >= c.2 { Err(TokenError::Expired) } else { Ok(c) },
    }
}

/// The claims of a validation result, as plain values.
pub open spec fn claims_outcome(r: Result<Claims, TokenError>) -> Result<(Seq<char>, u64, u64), TokenError> {
    match r {
        Ok(c) => Ok((c.sub@, c.iat, c.exp)),
        Err(e) => Err(e),
    }
}

/// Validates a token at time `now`: the signature under `secret`, then the expiry.
pub fn validate_token_at(token: &str, secret: &str, now: u64) -> (r: Result<Claims, TokenError>)
    ensures
        claims_outcome(r) == token_verdict(token@, secret@, now),
{
    match jwt_decode(token, secret) {
        Err(e) => Err(e),
        Ok((sub, iat, exp)) => {
            if now >= exp {
                Err(TokenError::Expired)
            } else {
                Ok(Claims { sub, exp, iat })
            }
        },
    }
}

/// Validates a token now: the signature under `secret`, then the expiry.
pub fn validate_token(token: &str, secret: &str) -> (r: Result<Claims, TokenError>)
    ensures
        exists|now: u64| claims_outcome(r) == token_verdict(token@, secret@, now),
{
    let now = now_unsigned();
    validate_token_at(token, secret, now)
}

/// An issued token expires strictly after it was issued. Validating it under
/// the same secret gives back its subject,
/// the account id's text, which parses back to that id, at every time before
/// the issue time plus the lifetime; from then on it fails as expired.
pub proof fn lemma_issued_token_validates(token: Seq<char>, id: u128, secret: Seq<char>, ttl: u64, now: i64, at: u64)
    requires
        issued_token(token, id, secret, ttl, now),
    ensures
        at < now + ttl ==> token_verdict(token, secret, at) is Ok,
        at < now + ttl ==> token_verdict(token, secret, at)->Ok_0 == (uuid_text(id), now as u64, (now + ttl) as u64),
        at < now + ttl ==> uuid_parsed(uuid_text(id)) == Some(id),
        at >= now + ttl ==> token_verdict(token, secret, at) matches Err(TokenError::Expired),
        (now as u64) < (now + ttl) as u64,
{
}

/// A digest that password hashing returned for a password verifies against
/// that password.
pub proof fn lemma_hashed_password_verifies(password: Seq<char>, digest: Seq<char>)
    requires
        bcrypt_verdict(password, digest) == Some(true),
    ensures
        password_check(password, digest) matches Ok(true),
{
}

} // verus!
