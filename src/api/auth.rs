use vstd::prelude::*;

use crate::models::UserProfileResponse;

verus! {

/// What a successful login hands back: the profile and a fresh token.
#[derive(Debug, Clone)]
pub struct LoginResponse {
    pub user: UserProfileResponse,
    pub token: String,
}

} // verus!
