use fitness_progress_tracker::db::Database;
use fitness_progress_tracker::error::{ConflictField, ServiceError};
use fitness_progress_tracker::models::user::RequestField;
use fitness_progress_tracker::models::{
    CreateWorkoutRequest, Exercise, User, UserLoginRequest, UserRegisterRequest, WorkoutExerciseInput,
};
use fitness_progress_tracker::services::{UserService, WorkoutService};
use fitness_progress_tracker::error::TokenError;
use fitness_progress_tracker::utils::validate_token;

const SQUAT: u128 = 1001;
const BENCH: u128 = 1002;

fn store_with_catalog() -> Database {
    let mut db = Database::new();
    for (id, name) in [(SQUAT, "squat"), (BENCH, "bench press")] {
        db.add_exercise(Exercise {
            id,
            name: name.to_string(),
            description: None,
            category: Some("strength".to_string()),
            created_at: 0,
            updated_at: 0,
        })
        .unwrap();
    }
    db
}

fn account(id: u128, email: &str, username: &str) -> User {
    User {
        id,
        email: email.to_string(),
        username: username.to_string(),
        password_hash: "$2b$04$unused".to_string(),
        first_name: None,
        last_name: None,
        created_at: 0,
        updated_at: 0,
    }
}

fn registration(email: &str, username: &str, password: &str) -> UserRegisterRequest {
    UserRegisterRequest {
        email: email.to_string(),
        username: username.to_string(),
        password: password.to_string(),
        first_name: Some("Alice".to_string()),
        last_name: None,
    }
}

fn entry(exercise_id: u128, sets: i32, reps: i32) -> WorkoutExerciseInput {
    WorkoutExerciseInput {
        exercise_id,
        sets: Some(sets),
        reps: Some(reps),
        weight_bits: Some(60.5f64.to_bits()),
        duration: None,
        distance_bits: None,
        notes: Some("felt good".to_string()),
    }
}

fn workout(name: &str, date: i64, exercises: Vec<WorkoutExerciseInput>) -> CreateWorkoutRequest {
    CreateWorkoutRequest {
        name: name.to_string(),
        description: None,
        date,
        duration: Some(1800),
        calories_burned: Some(350),
        exercises,
    }
}

#[test]
fn end_to_end_account_and_workout() {
    let mut db = store_with_catalog();
    let users = UserService::new("s3cret".to_string(), 3600);
    let workouts = WorkoutService::new();

    let req = registration("a@x.com", "alice", "longenough1");
    assert!(req.validate().is_ok());
    let profile = users.register(&mut db, req).unwrap();
    assert_eq!(profile.email, "a@x.com");
    assert_eq!(profile.username, "alice");
    assert_eq!(profile.first_name.as_deref(), Some("Alice"));
    assert_ne!(db.users[0].password_hash, "longenough1");

    let (logged_in, token) = users
        .login(&db, UserLoginRequest { email: "a@x.com".to_string(), password: "longenough1".to_string() })
        .unwrap();
    assert_eq!(logged_in.id, profile.id);
    let claims = validate_token(&token, "s3cret").unwrap();
    assert_eq!(claims.sub, uuid::Uuid::from_u128(profile.id).to_string());

    let wrong = users.login(&db, UserLoginRequest { email: "a@x.com".to_string(), password: "wrongpass".to_string() });
    assert_eq!(wrong.unwrap_err(), ServiceError::InvalidCredentials);

    let id = workouts.create_workout(&mut db, profile.id, workout("Leg Day", 100, vec![entry(SQUAT, 3, 5)])).unwrap();
    let details = workouts.get_workout(&db, profile.id, id).unwrap();
    assert_eq!(details.name, "Leg Day");
    assert_eq!(details.exercises.len(), 1);
    assert_eq!(details.exercises[0].sets, Some(3));
    assert_eq!(details.exercises[0].reps, Some(5));
    assert_eq!(details.exercises[0].exercise.name, "squat");
    assert_eq!(f64::from_bits(details.exercises[0].weight_bits.unwrap()), 60.5);

    assert_eq!(workouts.delete_workout(&mut db, profile.id, id), Ok(()));
    assert_eq!(workouts.get_workout(&db, profile.id, id).unwrap_err(), ServiceError::NotFound);
    assert!(db.workout_exercises.is_empty());
}

#[test]
fn registering_an_email_twice_conflicts_and_keeps_one_account() {
    let mut db = Database::new();
    let users = UserService::new("k".to_string(), 60);
    users.register(&mut db, registration("a@x.com", "alice", "longenough1")).unwrap();
    let again = users.register(&mut db, registration("a@x.com", "alice2", "longenough1"));
    assert_eq!(again.unwrap_err(), ServiceError::Conflict(ConflictField::Email));
    assert_eq!(db.users.len(), 1);
    assert_eq!(db.users[0].username, "alice");
}

#[test]
fn taken_username_conflicts_after_the_email_check() {
    let mut db = Database::new();
    let users = UserService::new("k".to_string(), 60);
    db.insert_user(account(1, "a@x.com", "alice")).unwrap();
    let r = users.register(&mut db, registration("b@x.com", "alice", "longenough1"));
    assert_eq!(r.unwrap_err(), ServiceError::Conflict(ConflictField::Username));
    let r = users.register(&mut db, registration("a@x.com", "alice", "longenough1"));
    assert_eq!(r.unwrap_err(), ServiceError::Conflict(ConflictField::Email));
    assert_eq!(db.users.len(), 1);
}

#[test]
fn store_unique_constraints() {
    let mut db = Database::new();
    db.insert_user(account(1, "a@x.com", "alice")).unwrap();
    assert_eq!(db.insert_user(account(2, "a@x.com", "bob")), Err(ServiceError::Conflict(ConflictField::Email)));
    assert_eq!(db.insert_user(account(2, "b@x.com", "alice")), Err(ServiceError::Conflict(ConflictField::Username)));
    assert_eq!(db.insert_user(account(1, "b@x.com", "bob")), Err(ServiceError::Constraint));
    assert_eq!(db.users.len(), 1);
    let mut db = store_with_catalog();
    let dup = Exercise { id: SQUAT, name: "again".to_string(), description: None, category: None, created_at: 0, updated_at: 0 };
    assert_eq!(db.add_exercise(dup), Err(ServiceError::Constraint));
    assert_eq!(db.exercises.len(), 2);
}

#[test]
fn login_with_unknown_email_is_invalid_credentials() {
    let db = Database::new();
    let users = UserService::new("k".to_string(), 60);
    let r = users.login(&db, UserLoginRequest { email: "nobody@x.com".to_string(), password: "longenough1".to_string() });
    assert_eq!(r.unwrap_err(), ServiceError::InvalidCredentials);
}

#[test]
fn login_against_a_malformed_digest_is_a_hashing_error() {
    let mut db = Database::new();
    db.insert_user(account(1, "a@x.com", "alice")).unwrap();
    let users = UserService::new("k".to_string(), 60);
    let r = users.login(&db, UserLoginRequest { email: "a@x.com".to_string(), password: "longenough1".to_string() });
    assert_eq!(r.unwrap_err(), ServiceError::Hashing);
}

#[test]
fn profile_lookup() {
    let mut db = Database::new();
    db.insert_user(account(7, "a@x.com", "alice")).unwrap();
    let users = UserService::new("k".to_string(), 60);
    let p = users.get_profile(&db, 7).unwrap();
    assert_eq!(p.id, 7);
    assert_eq!(p.email, "a@x.com");
    assert_eq!(users.get_profile(&db, 8).unwrap_err(), ServiceError::NotFound);
}

#[test]
fn request_validation_lists_failing_fields() {
    assert!(registration("a@x.com", "alice", "longenough1").validate().is_ok());
    assert_eq!(registration("not-an-email", "al", "short").validate().unwrap_err(), vec![RequestField::Email, RequestField::Username, RequestField::Password]);
    assert_eq!(registration("a@x.com", &"u".repeat(51), "longenough1").validate().unwrap_err(), vec![RequestField::Username]);
    assert!(registration("a@x.com", &"u".repeat(50), "12345678").validate().is_ok());
    assert!(workout("Leg Day", 0, vec![]).validate().is_ok());
    assert_eq!(workout("", 0, vec![]).validate().unwrap_err(), vec![RequestField::Name]);
    assert_eq!(workout(&"n".repeat(101), 0, vec![]).validate().unwrap_err(), vec![RequestField::Name]);
}

#[test]
fn failed_entry_insert_leaves_no_rows() {
    let mut db = store_with_catalog();
    db.insert_user(account(1, "a@x.com", "alice")).unwrap();
    let service = WorkoutService::new();
    let req = workout("Broken", 10, vec![entry(SQUAT, 3, 5), entry(BENCH, 3, 8), entry(9999, 1, 1)]);
    assert_eq!(service.create_workout(&mut db, 1, req), Err(ServiceError::Constraint));
    assert!(db.workouts.is_empty());
    assert!(db.workout_exercises.is_empty());
    assert!(service.get_workouts(&db, 1).is_empty());
}

#[test]
fn workout_of_an_unknown_owner_is_refused() {
    let mut db = store_with_catalog();
    let service = WorkoutService::new();
    assert_eq!(service.create_workout(&mut db, 5, workout("W", 0, vec![])), Err(ServiceError::Constraint));
    assert!(db.workouts.is_empty());
}

#[test]
fn duplicate_keys_in_one_creation_roll_back() {
    let mut db = store_with_catalog();
    db.insert_user(account(1, "a@x.com", "alice")).unwrap();
    let service = WorkoutService::new();
    let req = workout("W", 0, vec![entry(SQUAT, 1, 1), entry(BENCH, 1, 1)]);
    assert_eq!(service.create_workout_with(&mut db, 1, &req, 50, &vec![7, 7], 0), Err(ServiceError::Constraint));
    assert!(db.workouts.is_empty() && db.workout_exercises.is_empty());
    assert_eq!(service.create_workout_with(&mut db, 1, &req, 50, &vec![7, 8], 0), Ok(50));
    assert_eq!(db.workout_exercises.len(), 2);
    assert_eq!(db.workout_exercises[1].id, 8);
    assert_eq!(db.workout_exercises[1].workout_id, 50);
    assert_eq!(service.create_workout_with(&mut db, 1, &req, 50, &vec![9, 10], 0), Err(ServiceError::Constraint));
    assert_eq!(service.create_workout_with(&mut db, 1, &req, 51, &vec![8, 10], 0), Err(ServiceError::Constraint));
    assert_eq!(db.workouts.len(), 1);
    assert_eq!(db.workout_exercises.len(), 2);
}

#[test]
fn workout_of_another_owner_is_not_found() {
    let mut db = store_with_catalog();
    db.insert_user(account(1, "a@x.com", "alice")).unwrap();
    db.insert_user(account(2, "b@x.com", "bob")).unwrap();
    let service = WorkoutService::new();
    let bobs = service.create_workout(&mut db, 2, workout("Bob's", 0, vec![entry(SQUAT, 1, 1)])).unwrap();
    assert_eq!(service.get_workout(&db, 1, bobs).unwrap_err(), ServiceError::NotFound);
    assert_eq!(service.delete_workout(&mut db, 1, bobs), Err(ServiceError::NotFound));
    assert_eq!(db.workouts.len(), 1);
    assert!(service.get_workout(&db, 2, bobs).is_ok());
}

#[test]
fn workouts_are_listed_most_recent_first() {
    let mut db = store_with_catalog();
    db.insert_user(account(1, "a@x.com", "alice")).unwrap();
    db.insert_user(account(2, "b@x.com", "bob")).unwrap();
    let service = WorkoutService::new();
    for (owner, name, date) in [(1, "mid", 200), (2, "other", 999), (1, "old", 100), (1, "new", 300)] {
        service.create_workout(&mut db, owner, workout(name, date, vec![])).unwrap();
    }
    let names: Vec<String> = service.get_workouts(&db, 1).into_iter().map(|w| w.name).collect();
    assert_eq!(names, vec!["new", "mid", "old"]);
    assert_eq!(service.get_workouts(&db, 2).len(), 1);
    assert!(service.get_workouts(&db, 3).is_empty());
}

#[test]
fn deleting_a_workout_removes_only_its_entries() {
    let mut db = store_with_catalog();
    db.insert_user(account(1, "a@x.com", "alice")).unwrap();
    let service = WorkoutService::new();
    let a = service.create_workout(&mut db, 1, workout("A", 1, vec![entry(SQUAT, 3, 5), entry(BENCH, 5, 5)])).unwrap();
    let b = service.create_workout(&mut db, 1, workout("B", 2, vec![entry(BENCH, 4, 4)])).unwrap();
    assert_eq!(db.workout_exercises.len(), 3);
    assert_eq!(service.delete_workout(&mut db, 1, a), Ok(()));
    assert_eq!(db.workout_exercises.len(), 1);
    assert_eq!(db.workout_exercises[0].workout_id, b);
    let details = service.get_workout(&db, 1, b).unwrap();
    assert_eq!(details.exercises.len(), 1);
    assert_eq!(details.exercises[0].exercise.id, BENCH);
    assert_eq!(service.delete_workout(&mut db, 1, a), Err(ServiceError::NotFound));
}

#[test]
fn workout_details_keep_entry_order_and_figures() {
    let mut db = store_with_catalog();
    db.insert_user(account(1, "a@x.com", "alice")).unwrap();
    let service = WorkoutService::new();
    let id = service.create_workout(&mut db, 1, workout("Full", 5, vec![entry(BENCH, 5, 5), entry(SQUAT, 3, 8)])).unwrap();
    let d = service.get_workout(&db, 1, id).unwrap();
    assert_eq!(d.id, id);
    assert_eq!(d.duration, Some(1800));
    assert_eq!(d.calories_burned, Some(350));
    assert_eq!(d.exercises[0].exercise.id, BENCH);
    assert_eq!(d.exercises[1].exercise.id, SQUAT);
    assert_eq!(d.exercises[1].reps, Some(8));
    assert_eq!(d.exercises[1].notes.as_deref(), Some("felt good"));
}

#[test]
fn registration_stores_the_given_digest_id_and_time() {
    let mut db = Database::new();
    let users = UserService::new("k".to_string(), 60);
    let p = users.register_with(&mut db, registration("a@x.com", "alice", "longenough1"), "digest".to_string(), 5, 100).unwrap();
    assert_eq!(p.id, 5);
    assert_eq!(p.created_at, 100);
    assert_eq!(p.first_name.as_deref(), Some("Alice"));
    assert_eq!(db.users[0].password_hash, "digest");
    assert_eq!(db.users[0].updated_at, 100);
    let again = users.register_with(&mut db, registration("b@x.com", "bob", "longenough1"), "d".to_string(), 5, 100);
    assert_eq!(again.unwrap_err(), ServiceError::Constraint);
    let again = users.register_with(&mut db, registration("a@x.com", "bob", "longenough1"), "d".to_string(), 6, 100);
    assert_eq!(again.unwrap_err(), ServiceError::Conflict(ConflictField::Email));
    assert_eq!(db.users.len(), 1);
}

#[test]
fn login_at_issues_a_token_for_an_in_range_clock() {
    let mut db = Database::new();
    let users = UserService::new("s3cret".to_string(), 100);
    let profile = users.register(&mut db, registration("a@x.com", "alice", "longenough1")).unwrap();
    let creds = || UserLoginRequest { email: "a@x.com".to_string(), password: "longenough1".to_string() };
    let (p, token) = users.login_at(&db, creds(), 1_000).unwrap();
    assert_eq!(p.id, profile.id);
    assert_eq!(p.username, "alice");
    let claims = fitness_progress_tracker::utils::auth::validate_token_at(&token, "s3cret", 1_050).unwrap();
    assert_eq!((claims.iat, claims.exp), (1_000, 1_100));
    assert_eq!(users.login_at(&db, creds(), -1).unwrap_err(), ServiceError::Token(TokenError::Issue));
}

#[test]
fn equal_dates_keep_stored_order_and_failed_creation_keeps_the_listing() {
    let mut db = store_with_catalog();
    db.insert_user(account(1, "a@x.com", "alice")).unwrap();
    let service = WorkoutService::new();
    for name in ["first", "second", "third"] {
        service.create_workout(&mut db, 1, workout(name, 50, vec![])).unwrap();
    }
    let before: Vec<String> = service.get_workouts(&db, 1).into_iter().map(|w| w.name).collect();
    assert_eq!(before, vec!["first", "second", "third"]);
    let req = workout("Broken", 60, vec![entry(SQUAT, 1, 1), entry(4242, 1, 1)]);
    assert_eq!(service.create_workout(&mut db, 1, req), Err(ServiceError::Constraint));
    let after: Vec<String> = service.get_workouts(&db, 1).into_iter().map(|w| w.name).collect();
    assert_eq!(after, before);
}
