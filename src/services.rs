
pub mod user_service;
pub mod workout_service;


pub use user_service::UserService;
pub use workout_service::WorkoutService;
