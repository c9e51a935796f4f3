pub mod auth;
pub mod clock;
pub mod ids;

pub use auth::{generate_token, hash_password, validate_token, verify_password};
