//! Accounts, signed identity tokens and transactional workout records.
//!
//! The library keeps its relational data in [`db::Database`], hashes
//! credentials with bcrypt, signs identity tokens as HS256 JSON web tokens,
//! and resolves the identity behind a bearer token.
pub mod api;
pub mod config;
pub mod db;
pub mod error;
pub mod models;
pub mod services;
pub mod utils;
