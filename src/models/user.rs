use vstd::prelude::*;
use vstd::string::*;

use crate::models::workout::copy_text;

verus! {

/// A stored account. The password digest never leaves the library in a response.
#[derive(Debug, Clone)]
pub struct User {
    pub id: u128,
    pub email: String,
    pub username: String,
    pub password_hash: String,
    pub first_name: Option<String>,
    pub last_name: Option<String>,
    /// Seconds since the Unix epoch.
    pub created_at: i64,
    /// Seconds since the Unix epoch.
    pub updated_at: i64,
}

/// The fields of a registration.
#[derive(Debug, Clone)]
pub struct UserRegisterRequest {
    pub email: String,
    pub username: String,
    pub password: String,
    pub first_name: Option<String>,
    pub last_name: Option<String>,
}

/// The credentials of a login.
#[derive(Debug, Clone)]
pub struct UserLoginRequest {
    pub email: String,
    pub password: String,
}

/// The public projection of an account: everything but the password digest.
#[derive(Debug, Clone)]
pub struct UserProfileResponse {
    pub id: u128,
    pub email: String,
    pub username: String,
    pub first_name: Option<String>,
    pub last_name: Option<String>,
    pub created_at: i64,
}

/// The identity claims carried by a token: the account id as text, the
/// expiry and the issue time, both in seconds since the Unix epoch.
#[derive(Debug, Clone)]
pub struct Claims {
    pub sub: String,
    pub exp: u64,
    pub iat: u64,
}

/// A request field that failed validation.
#[derive(Debug, Clone, Copy, PartialEq, Eq, Structural)]
pub enum RequestField {
    Email,
    Username,
    Password,
    Name,
}

impl User {
    /// A field-for-field copy.
    pub fn duplicate(&self) -> (r: Self)
        ensures
            r == *self,
    {
        User {
            id: self.id,
            email: self.email.clone(),
            username: self.username.clone(),
            password_hash: self.password_hash.clone(),
            first_name: copy_text(&self.first_name),
            last_name: copy_text(&self.last_name),
            created_at: self.created_at,
            updated_at: self.updated_at,
        }
    }
}

/// The profile that an account shows: its fields without the digest.
pub open spec fn profile_of(user: User) -> UserProfileResponse {
    UserProfileResponse {
        id: user.id,
        email: user.email,
        username: user.username,
        first_name: user.first_name,
        last_name: user.last_name,
        created_at: user.created_at,
    }
}

impl From<User> for UserProfileResponse {
    fn from(user: User) -> Self {
        UserProfileResponse {
            id: user.id,
            email: user.email,
            username: user.username,
            first_name: user.first_name,
            last_name: user.last_name,
            created_at: user.created_at,
        }
    }
}

impl vstd::std_specs::convert::FromSpecImpl<User> for UserProfileResponse {
    open spec fn obeys_from_spec() -> bool {
        true
    }

    open spec fn from_spec(user: User) -> Self {
        profile_of(user)
    }
}

/// Whether the validator accepts the text as an email address.
pub uninterp spec fn email_accepted(s: Seq<char>) -> bool;

/// Relies on validator::validate_email: the verdict on an email address,
/// which depends on the text alone.
#[verifier::external_body]
pub(crate) fn is_valid_email(s: &str) -> (r: bool)
    ensures
        r == email_accepted(s@),
{
    validator::validate_email(s)
}

/// Whether a text's length in characters lies in `min..=max`.
pub open spec fn length_within(s: Seq<char>, min: nat, max: nat) -> bool {
    min <= s.len() <= max
}

/// The fields of a registration that fail validation, in field order:
/// the email must be an address, the username 3 to 50 characters long,
/// the password at least 8 characters long.
pub open spec fn register_violations(req: UserRegisterRequest) -> Seq<RequestField> {
    (if email_accepted(req.email@) { seq![] } else { seq![RequestField::Email] })
        + (if 3 <= req.username@.len() <= 50 { seq![] } else { seq![RequestField::Username] })
        + (if 8 <= req.password@.len() { seq![] } else { seq![RequestField::Password] })
}

impl UserRegisterRequest {
    /// Checks the request's fields; on failure lists every failing field.
    pub fn validate(&self) -> (r: Result<(), Vec<RequestField>>)
        ensures
            r is Ok <==> register_violations(*self).len() == 0,
            r matches Err(v) ==> v@ == register_violations(*self),
    {
        let mut bad: Vec<RequestField> = Vec::new();
        if !is_valid_email(self.email.as_str()) {
            bad.push(RequestField::Email);
        }
        let ulen = self.username.as_str().unicode_len();
        if ulen < 3 || ulen > 50 {
            bad.push(RequestField::Username);
        }
        let plen = self.password.as_str().unicode_len();
        if plen < 8 {
            bad.push(RequestField::Password);
        }
        assert(bad@ =~= register_violations(*self));
        if bad.len() == 0 {
            Ok(())
        } else {
            Err(bad)
        }
    }
}

} // verus!
