use vstd::prelude::*;
use vstd::string::*;

use crate::models::user::RequestField;

verus! {

/// A stored workout, owned by one account.
#[derive(Debug, Clone)]
pub struct Workout {
    pub id: u128,
    pub user_id: u128,
    pub name: String,
    pub description: Option<String>,
    /// When the workout took place, in seconds since the Unix epoch.
    pub date: i64,
    /// In seconds.
    pub duration: Option<i32>,
    pub calories_burned: Option<i32>,
    pub created_at: i64,
    pub updated_at: i64,
}

/// An exercise of the shared catalog, owned by no account.
#[derive(Debug, Clone)]
pub struct Exercise {
    pub id: u128,
    pub name: String,
    pub description: Option<String>,
    pub category: Option<String>,
    pub created_at: i64,
    pub updated_at: i64,
}

/// One exercise entry of a workout, with its performance figures.
/// `weight_bits` (kilograms) and `distance_bits` (kilometres) hold the bit
/// patterns of IEEE-754 binary64 values, carried through unchanged.
#[derive(Debug, Clone)]
pub struct WorkoutExercise {
    pub id: u128,
    pub workout_id: u128,
    pub exercise_id: u128,
    pub sets: Option<i32>,
    pub reps: Option<i32>,
    pub weight_bits: Option<u64>,
    /// In seconds.
    pub duration: Option<i32>,
    pub distance_bits: Option<u64>,
    pub notes: Option<String>,
    pub created_at: i64,
    pub updated_at: i64,
}

/// The fields of a new workout and its exercise entries.
#[derive(Debug, Clone)]
pub struct CreateWorkoutRequest {
    pub name: String,
    pub description: Option<String>,
    pub date: i64,
    pub duration: Option<i32>,
    pub calories_burned: Option<i32>,
    pub exercises: Vec<WorkoutExerciseInput>,
}

/// One exercise entry of a new workout. The float fields are bit patterns,
/// as in [`WorkoutExercise`].
#[derive(Debug, Clone)]
pub struct WorkoutExerciseInput {
    pub exercise_id: u128,
    pub sets: Option<i32>,
    pub reps: Option<i32>,
    pub weight_bits: Option<u64>,
    pub duration: Option<i32>,
    pub distance_bits: Option<u64>,
    pub notes: Option<String>,
}

/// A workout with its entries, each joined with its catalog exercise.
#[derive(Debug, Clone)]
pub struct WorkoutDetailsResponse {
    pub id: u128,
    pub name: String,
    pub description: Option<String>,
    pub date: i64,
    pub duration: Option<i32>,
    pub calories_burned: Option<i32>,
    pub exercises: Vec<WorkoutExerciseDetails>,
}

/// An entry of a workout joined with its catalog exercise.
#[derive(Debug, Clone)]
pub struct WorkoutExerciseDetails {
    pub id: u128,
    pub exercise: Exercise,
    pub sets: Option<i32>,
    pub reps: Option<i32>,
    pub weight_bits: Option<u64>,
    pub duration: Option<i32>,
    pub distance_bits: Option<u64>,
    pub notes: Option<String>,
}

/// A copy of an optional text.
pub fn copy_text(t: &Option<String>) -> (r: Option<String>)
    ensures
        r == *t,
{
    match t {
        Some(s) => Some(s.clone()),
        None => None,
    }
}

impl Workout {
    /// A field-for-field copy.
    pub fn duplicate(&self) -> (r: Self)
        ensures
            r == *self,
    {
        Workout {
            id: self.id,
            user_id: self.user_id,
            name: self.name.clone(),
            description: copy_text(&self.description),
            date: self.date,
            duration: self.duration,
            calories_burned: self.calories_burned,
            created_at: self.created_at,
            updated_at: self.updated_at,
        }
    }
}

impl Exercise {
    /// A field-for-field copy.
    pub fn duplicate(&self) -> (r: Self)
        ensures
            r == *self,
    {
        Exercise {
            id: self.id,
            name: self.name.clone(),
            description: copy_text(&self.description),
            category: copy_text(&self.category),
            created_at: self.created_at,
            updated_at: self.updated_at,
        }
    }
}

impl WorkoutExercise {
    /// A field-for-field copy.
    pub fn duplicate(&self) -> (r: Self)
        ensures
            r == *self,
    {
        WorkoutExercise {
            id: self.id,
            workout_id: self.workout_id,
            exercise_id: self.exercise_id,
            sets: self.sets,
            reps: self.reps,
            weight_bits: self.weight_bits,
            duration: self.duration,
            distance_bits: self.distance_bits,
            notes: copy_text(&self.notes),
            created_at: self.created_at,
            updated_at: self.updated_at,
        }
    }
}

/// The fields of a workout request that fail validation: the name must be
/// 1 to 100 characters long.
pub open spec fn workout_violations(req: CreateWorkoutRequest) -> Seq<RequestField> {
    if 1 <= req.name@.len() <= 100 { seq![] } else { seq![RequestField::Name] }
}

impl CreateWorkoutRequest {
    /// Checks the request's fields; on failure lists every failing field.
    pub fn validate(&self) -> (r: Result<(), Vec<RequestField>>)
        ensures
            r is Ok <==> workout_violations(*self).len() == 0,
            r matches Err(v) ==> v@ == workout_violations(*self),
    {
        let len = self.name.as_str().unicode_len();
        if len < 1 || len > 100 {
            let mut bad: Vec<RequestField> = Vec::new();
            bad.push(RequestField::Name);
            assert(bad@ =~= workout_violations(*self));
            Err(bad)
        } else {
            Ok(())
        }
    }
}

} // verus!
