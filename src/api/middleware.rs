use vstd::prelude::*;
use vstd::string::*;

use crate::error::AuthRejection;
use crate::utils::auth::{issued_token, lemma_issued_token_validates, token_verdict, validate_token_at};
use crate::utils::clock::now_unsigned;
use crate::utils::ids::{parse_uuid, uuid_parsed};

verus! {

/// The scheme word that opens a bearer credential, with its trailing space.
pub open spec fn bearer_prefix() -> Seq<char> {
    seq!['B', 'e', 'a', 'r', 'e', 'r', ' ']
}

/// The token of an authorization header value of the form `Bearer <token>`.
pub open spec fn bearer_token(header: Seq<char>) -> Option<Seq<char>> {
    if header.len() >= 7 && header.take(7) == bearer_prefix() {
        Some(header.skip(7))
    } else {
        None
    }
}

/// The identity that a request's authorization header resolves to at time
/// `now`, or why the request is rejected. The cause of a token's refusal is
/// not passed on.
pub open spec fn resolution(header: Option<Seq<char>>, secret: Seq<char>, now: u64) -> Result<u128, AuthRejection> {
    match header {
        None => Err(AuthRejection::MissingToken),
        Some(h) => match bearer_token(h) {
            None => Err(AuthRejection::MissingToken),
            Some(t) => match token_verdict(t, secret, now) {
                Err(_) => Err(AuthRejection::InvalidToken),
                Ok(c) => match uuid_parsed(c.0) {
                    None => Err(AuthRejection::InvalidToken),
                    Some(id) => Ok(id),
                },
            },
        },
    }
}

/// A request carrying `Bearer <token>`, for a token issued to the account
/// `id` under the resolver's secret, resolves to `id` at every time before
/// the token's expiry, and is rejected as carrying an invalid token from then on.
pub proof fn lemma_issued_bearer_resolves(token: Seq<char>, id: u128, secret: Seq<char>, ttl: u64, now: i64, at: u64)
    requires
        issued_token(token, id, secret, ttl, now),
    ensures
        at < now + ttl ==> resolution(Some(bearer_prefix() + token), secret, at) is Ok,
        at < now + ttl ==> resolution(Some(bearer_prefix() + token), secret, at)->Ok_0 == id,
        at >= now + ttl ==> resolution(Some(bearer_prefix() + token), secret, at) matches Err(AuthRejection::InvalidToken),
{
    let h = bearer_prefix() + token;
    assert(h.take(7) =~= bearer_prefix());
    assert(h.skip(7) =~= token);
    lemma_issued_token_validates(token, id, secret, ttl, now, at);
}

/// The text of an optional header value.
pub open spec fn header_text(header: Option<&str>) -> Option<Seq<char>> {
    match header {
        Some(h) => Some(h@),
        None => None,
    }
}

/// Takes the token out of an authorization header value `Bearer <token>`.
pub fn extract_bearer(header: &str) -> (r: Option<String>)
    ensures
        r is None <==> bearer_token(header@) is None,
        r matches Some(t) ==> bearer_token(header@) == Some(t@),
{
    let len = header.unicode_len();
    if len < 7 {
        return None;
    }
    let ghost p = bearer_prefix();
    let matched = header.get_char(0) == 'B' && header.get_char(1) == 'e' && header.get_char(2) == 'a'
        && header.get_char(3) == 'r' && header.get_char(4) == 'e' && header.get_char(5) == 'r'
        && header.get_char(6) == ' ';
    if !matched {
        proof {
            if header@.take(7) == p {
                assert(header@.take(7)[0] == 'B');
                assert(header@.take(7)[1] == 'e');
                assert(header@.take(7)[2] == 'a');
                assert(header@.take(7)[3] == 'r');
                assert(header@.take(7)[4] == 'e');
                assert(header@.take(7)[5] == 'r');
                assert(header@.take(7)[6] == ' ');
            }
        }
        return None;
    }
    assert(header@.take(7) =~= p);
    let rest = header.substring_char(7, len);
    let token = rest.to_owned();
    assert(token@ =~= header@.skip(7));
    Some(token)
}

/// The middleware factory: holds the shared signing secret.
pub struct JwtAuth {
    jwt_secret: String,
}

impl JwtAuth {
    /// The secret that tokens are checked against.
    pub closed spec fn secret(&self) -> Seq<char> {
        self.jwt_secret@
    }

    pub fn new(jwt_secret: String) -> (r: Self)
        ensures
            r.secret() == jwt_secret@,
    {
        JwtAuth { jwt_secret }
    }

    /// The per-request resolver, with the same secret.
    pub fn new_transform(&self) -> (r: JwtAuthMiddleware)
        ensures
            r.secret() == self.secret(),
    {
        JwtAuthMiddleware { jwt_secret: self.jwt_secret.clone() }
    }
}

/// Resolves the identity behind a request's bearer token.
pub struct JwtAuthMiddleware {
    jwt_secret: String,
}

impl JwtAuthMiddleware {
    /// The secret that tokens are checked against.
    pub closed spec fn secret(&self) -> Seq<char> {
        self.jwt_secret@
    }

    /// Resolves the account id behind the authorization header at time `now`.
    pub fn call_at(&self, authorization: Option<&str>, now: u64) -> (r: Result<u128, AuthRejection>)
        ensures
            r == resolution(header_text(authorization), self.secret(), now),
    {
        let header = match authorization {
            None => {
                return Err(AuthRejection::MissingToken);
            },
            Some(h) => h,
        };
        let token = match extract_bearer(header) {
            None => {
                return Err(AuthRejection::MissingToken);
            },
            Some(t) => t,
        };
        match validate_token_at(token.as_str(), self.jwt_secret.as_str(), now) {
            Err(_) => Err(AuthRejection::InvalidToken),
            Ok(claims) => match parse_uuid(claims.sub.as_str()) {
                None => Err(AuthRejection::InvalidToken),
                Some(id) => Ok(id),
            },
        }
    }

    /// Resolves the account id behind the authorization header now.
    pub fn call(&self, authorization: Option<&str>) -> (r: Result<u128, AuthRejection>)
        ensures
            exists|now: u64| r == resolution(header_text(authorization), self.secret(), now),
    {
        let now = now_unsigned();
        self.call_at(authorization, now)
    }
}

} // verus!
