pub mod user;
pub mod workout;

pub use user::{Claims, User, UserLoginRequest, UserProfileResponse, UserRegisterRequest};
pub use workout::{
    CreateWorkoutRequest, Exercise, Workout, WorkoutDetailsResponse, WorkoutExercise,
    WorkoutExerciseDetails, WorkoutExerciseInput,
};
