pub mod auth;
pub mod middleware;
pub mod workout;
