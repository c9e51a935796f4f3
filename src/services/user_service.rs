use vstd::prelude::*;

use crate::db::{email_taken, has_user, username_taken, users_unique, Database};
use crate::error::{ConflictField, ServiceError, TokenError};
use crate::models::user::profile_of;
use crate::models::workout::copy_text;
use crate::models::{User, UserLoginRequest, UserProfileResponse, UserRegisterRequest};
use crate::utils::auth::{bcrypt_verdict, generate_token_at, issuable, issued_token, password_check};
use crate::utils::clock::now_seconds;
use crate::utils::ids::new_id;
use crate::utils::{hash_password, verify_password};

verus! {

/// Whether a stored account carries the fields of a registration, whatever
/// its id, digest and timestamps.
pub open spec fn account_from_request(u: User, req: UserRegisterRequest) -> bool {
    &&& u.email == req.email
    &&& u.username == req.username
    &&& u.first_name == req.first_name
    &&& u.last_name == req.last_name
    &&& u.created_at == u.updated_at
}

/// The account row that a registration makes with a digest, an id and a time.
pub open spec fn account_row(req: UserRegisterRequest, password_hash: String, id: u128, now: i64) -> User {
    User {
        id,
        email: req.email,
        username: req.username,
        password_hash,
        first_name: req.first_name,
        last_name: req.last_name,
        created_at: now,
        updated_at: now,
    }
}

/// Whether a login result at time `now` is the one owed for the account `u`
/// found by the email: the password is checked against its digest, and on a
/// match a token is issued for its id with the service's secret and lifetime,
/// which succeeds exactly when the clock and the lifetime are in range.
pub open spec fn login_outcome(r: Result<(UserProfileResponse, String), ServiceError>, u: User, password: Seq<char>, secret: Seq<char>, ttl: u64, now: i64) -> bool {
    match password_check(password, u.password_hash@) {
        Err(e) => r matches Err(f) && f == e,
        Ok(false) => r matches Err(ServiceError::InvalidCredentials),
        Ok(true) => if issuable(now, ttl) {
            &&& r is Ok
            &&& r->Ok_0.0 == profile_of(u)
            &&& issued_token(r->Ok_0.1@, u.id, secret, ttl, now)
        } else {
            r matches Err(ServiceError::Token(TokenError::Issue))
        },
    }
}

/// Whether a login result at time `now` is the one owed: an unknown email
/// gives the same error as a wrong password.
pub open spec fn login_result(r: Result<(UserProfileResponse, String), ServiceError>, db: Database, req: UserLoginRequest, secret: Seq<char>, ttl: u64, now: i64) -> bool {
    &&& (!email_taken(db.users@, req.email@) ==> r matches Err(ServiceError::InvalidCredentials))
    &&& forall|i: int| 0 <= i < db.users@.len() && #[trigger] db.users@[i].email@ == req.email@
        ==> login_outcome(r, db.users@[i], req.password@, secret, ttl, now)
}

/// Account registration, login and profile lookup.
pub struct UserService {
    jwt_secret: String,
    jwt_expiration: u64,
}

impl UserService {
    /// The secret that tokens are signed with.
    pub closed spec fn secret(&self) -> Seq<char> {
        self.jwt_secret@
    }

    /// The lifetime of issued tokens, in seconds.
    pub closed spec fn expiration(&self) -> u64 {
        self.jwt_expiration
    }

    pub fn new(jwt_secret: String, jwt_expiration: u64) -> (r: Self)
        ensures
            r.secret() == jwt_secret@,
            r.expiration() == jwt_expiration,
    {
        UserService { jwt_secret, jwt_expiration }
    }

    /// Registers an account: the email is checked first, then the username;
    /// then the password is hashed and the account stored under a fresh id
    /// at the current time. Returns the public profile, never the digest.
    pub fn register(&self, db: &mut Database, req: UserRegisterRequest) -> (r: Result<UserProfileResponse, ServiceError>)
        requires
            old(db).wf(),
        ensures
            final(db).wf(),
            email_taken(old(db).users@, req.email@) ==> r matches Err(ServiceError::Conflict(ConflictField::Email)),
            !email_taken(old(db).users@, req.email@) && username_taken(old(db).users@, req.username@)
                ==> r matches Err(ServiceError::Conflict(ConflictField::Username)),
            r matches Err(ServiceError::Conflict(ConflictField::Email)) ==> email_taken(old(db).users@, req.email@),
            r matches Err(ServiceError::Conflict(ConflictField::Username))
                ==> !email_taken(old(db).users@, req.email@) && username_taken(old(db).users@, req.username@),
            r matches Err(e) ==> e is Conflict || e == ServiceError::Hashing || e == ServiceError::Constraint,
            r is Err ==> *final(db) == *old(db),
            r matches Ok(p) ==> {
                &&& !email_taken(old(db).users@, req.email@)
                &&& !username_taken(old(db).users@, req.username@)
                &&& final(db).users@.len() == old(db).users@.len() + 1
                &&& final(db).users@.drop_last() == old(db).users@
                &&& account_from_request(final(db).users@.last(), req)
                &&& bcrypt_verdict(req.password@, final(db).users@.last().password_hash@) == Some(true)
                &&& p == profile_of(final(db).users@.last())
            },
            final(db).exercises@ == old(db).exercises@,
            final(db).workouts@ == old(db).workouts@,
            final(db).workout_exercises@ == old(db).workout_exercises@,
    {
        if db.find_user_by_email(&req.email).is_some() {
            return Err(ServiceError::Conflict(ConflictField::Email));
        }
        if db.find_user_by_username(&req.username).is_some() {
            return Err(ServiceError::Conflict(ConflictField::Username));
        }
        let password_hash = match hash_password(req.password.as_str()) {
            Ok(h) => h,
            Err(e) => {
                return Err(e);
            },
        };
        let id = new_id();
        let now = now_seconds();
        let ghost digest = password_hash;
        let r = self.register_with(db, req, password_hash, id, now);
        proof {
            if r is Ok {
                assert(db.users@.last() == account_row(req, digest, id, now));
            }
        }
        r
    }

    /// Stores the account that a registration makes with the given digest,
    /// id and time, under the store's unique constraints: a taken email or
    /// username is a conflict (checked in that order), a taken id a key
    /// violation. Returns the public profile of the stored account.
    pub fn register_with(
        &self,
        db: &mut Database,
        req: UserRegisterRequest,
        password_hash: String,
        id: u128,
        now: i64,
    ) -> (r: Result<UserProfileResponse, ServiceError>)
        requires
            old(db).wf(),
        ensures
            final(db).wf(),
            email_taken(old(db).users@, req.email@) ==> r matches Err(ServiceError::Conflict(ConflictField::Email)),
            !email_taken(old(db).users@, req.email@) && username_taken(old(db).users@, req.username@)
                ==> r matches Err(ServiceError::Conflict(ConflictField::Username)),
            r matches Err(ServiceError::Conflict(ConflictField::Email)) ==> email_taken(old(db).users@, req.email@),
            r matches Err(ServiceError::Conflict(ConflictField::Username))
                ==> !email_taken(old(db).users@, req.email@) && username_taken(old(db).users@, req.username@),
            !email_taken(old(db).users@, req.email@) && !username_taken(old(db).users@, req.username@)
                && has_user(old(db).users@, id) ==> r matches Err(ServiceError::Constraint),
            r is Ok <==> !email_taken(old(db).users@, req.email@) && !username_taken(old(db).users@, req.username@)
                && !has_user(old(db).users@, id),
            r matches Ok(p) ==> p == profile_of(account_row(req, password_hash, id, now)),
            r is Ok ==> final(db).users@ == old(db).users@.push(account_row(req, password_hash, id, now)),
            r is Err ==> *final(db) == *old(db),
            final(db).exercises@ == old(db).exercises@,
            final(db).workouts@ == old(db).workouts@,
            final(db).workout_exercises@ == old(db).workout_exercises@,
    {
        let user = User {
            id,
            email: req.email.clone(),
            username: req.username.clone(),
            password_hash,
            first_name: copy_text(&req.first_name),
            last_name: copy_text(&req.last_name),
            created_at: now,
            updated_at: now,
        };
        let profile = UserProfileResponse {
            id,
            email: req.email,
            username: req.username,
            first_name: req.first_name,
            last_name: req.last_name,
            created_at: now,
        };
        match db.insert_user(user) {
            Ok(()) => Ok(profile),
            Err(e) => Err(e),
        }
    }

    /// Logs in at time `now`: looks the account up by email and checks the
    /// password; an unknown email and a wrong password give the same error.
    /// On a match returns the profile and a token for the account.
    pub fn login_at(&self, db: &Database, req: UserLoginRequest, now: i64) -> (r: Result<(UserProfileResponse, String), ServiceError>)
        requires
            db.wf(),
        ensures
            login_result(r, *db, req, self.secret(), self.expiration(), now),
    {
        let i = match db.find_user_by_email(&req.email) {
            None => {
                return Err(ServiceError::InvalidCredentials);
            },
            Some(i) => i,
        };
        let user = db.users[i].duplicate();
        proof {
            assert forall|j: int| 0 <= j < db.users@.len() && #[trigger] db.users@[j].email@ == req.email@
                implies j == i by {
                if j != i {
                    assert(db.users@[j].id != db.users@[i as int].id);
                    assert(db.users@[j].email@ != db.users@[i as int].email@);
                }
            }
        }
        let valid = match verify_password(req.password.as_str(), user.password_hash.as_str()) {
            Ok(b) => b,
            Err(e) => {
                return Err(e);
            },
        };
        if !valid {
            return Err(ServiceError::InvalidCredentials);
        }
        match generate_token_at(user.id, self.jwt_secret.as_str(), self.jwt_expiration, now) {
            Ok(token) => Ok((UserProfileResponse::from(user), token)),
            Err(e) => Err(ServiceError::Token(e)),
        }
    }

    /// Logs in now: the outcome is that of logging in at the time the clock
    /// reads.
    pub fn login(&self, db: &Database, req: UserLoginRequest) -> (r: Result<(UserProfileResponse, String), ServiceError>)
        requires
            db.wf(),
        ensures
            exists|now: i64| login_result(r, *db, req, self.secret(), self.expiration(), now),
    {
        let now = now_seconds();
        self.login_at(db, req, now)
    }

    /// The public profile of the account `user_id`.
    pub fn get_profile(&self, db: &Database, user_id: u128) -> (r: Result<UserProfileResponse, ServiceError>)
        requires
            db.wf(),
        ensures
            r is Err <==> !has_user(db.users@, user_id),
            r matches Err(e) ==> e == ServiceError::NotFound,
            r matches Ok(p) ==> forall|i: int| 0 <= i < db.users@.len() && #[trigger] db.users@[i].id == user_id
                ==> p == profile_of(db.users@[i]),
    {
        match db.find_user_by_id(user_id) {
            None => Err(ServiceError::NotFound),
            Some(i) => {
                let user = db.users[i].duplicate();
                proof {
                    assert forall|j: int| 0 <= j < db.users@.len() && #[trigger] db.users@[j].id == user_id
                        implies j == i by {
                        if j != i {
                            assert(db.users@[j].id != db.users@[i as int].id);
                        }
                    }
                }
                Ok(UserProfileResponse::from(user))
            },
        }
    }
}

/// Once an account is registered under an email, that email is taken, so a
/// second registration with it is refused as a conflict; and exactly one
/// account holds it.
pub proof fn lemma_email_registered_once(users: Seq<User>, u: User)
    requires
        users_unique(users),
        !email_taken(users, u.email@),
    ensures
        email_taken(users.push(u), u.email@),
        forall|i: int| 0 <= i < users.push(u).len() && #[trigger] users.push(u)[i].email@ == u.email@
            ==> i == users.len(),
{
    let all = users.push(u);
    assert(all[users.len() as int] == u);
    assert forall|i: int| 0 <= i < all.len() && #[trigger] all[i].email@ == u.email@ implies i == users.len() by {
        if i < users.len() {
            assert(all[i] == users[i]);
        }
    }
}

/// Logging in with the email and password of the account that a
/// registration stored last gives that account's profile and a token for its
/// id, whenever the clock and the token lifetime are in range.
pub proof fn lemma_login_after_registration(
    r: Result<(UserProfileResponse, String), ServiceError>,
    db: Database,
    reg: UserRegisterRequest,
    req: UserLoginRequest,
    secret: Seq<char>,
    ttl: u64,
    now: i64,
)
    requires
        db.wf(),
        db.users@.len() > 0,
        account_from_request(db.users@.last(), reg),
        bcrypt_verdict(reg.password@, db.users@.last().password_hash@) == Some(true),
        req.email@ == reg.email@,
        req.password@ == reg.password@,
        issuable(now, ttl),
        login_result(r, db, req, secret, ttl, now),
    ensures
        r is Ok,
        r->Ok_0.0 == profile_of(db.users@.last()),
        issued_token(r->Ok_0.1@, db.users@.last().id, secret, ttl, now),
{
    let k = db.users@.len() - 1;
    assert(db.users@[k] == db.users@.last());
    assert(db.users@[k].email@ == req.email@);
}

} // verus!
