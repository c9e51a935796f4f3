use vstd::prelude::*;

use crate::error::{ConflictField, ServiceError};
use crate::models::{Exercise, User, Workout, WorkoutExercise};

verus! {

/// Whether some account has this id.
pub open spec fn has_user(users: Seq<User>, id: u128) -> bool {
    exists|i: int| 0 <= i < users.len() && #[trigger] users[i].id == id
}

/// Whether some account has this email.
pub open spec fn email_taken(users: Seq<User>, email: Seq<char>) -> bool {
    exists|i: int| 0 <= i < users.len() && #[trigger] users[i].email@ == email
}

/// Whether some account has this username.
pub open spec fn username_taken(users: Seq<User>, username: Seq<char>) -> bool {
    exists|i: int| 0 <= i < users.len() && #[trigger] users[i].username@ == username
}

/// Whether the catalog holds an exercise with this id.
pub open spec fn has_exercise(exercises: Seq<Exercise>, id: u128) -> bool {
    exists|i: int| 0 <= i < exercises.len() && #[trigger] exercises[i].id == id
}

/// Whether some workout has this id.
pub open spec fn has_workout(workouts: Seq<Workout>, id: u128) -> bool {
    exists|i: int| 0 <= i < workouts.len() && #[trigger] workouts[i].id == id
}

/// Whether the workout `id` exists and belongs to `owner`.
pub open spec fn owns(workouts: Seq<Workout>, owner: u128, id: u128) -> bool {
    exists|i: int| 0 <= i < workouts.len() && #[trigger] workouts[i].id == id && workouts[i].user_id == owner
}

/// Whether some exercise entry has this id.
pub open spec fn has_entry(entries: Seq<WorkoutExercise>, id: u128) -> bool {
    exists|i: int| 0 <= i < entries.len() && #[trigger] entries[i].id == id
}

/// The entries of the workout `workout_id`, in stored order.
pub open spec fn entries_of(entries: Seq<WorkoutExercise>, workout_id: u128) -> Seq<WorkoutExercise>
    decreases entries.len(),
{
    if entries.len() == 0 {
        entries
    } else {
        let rest = entries_of(entries.drop_last(), workout_id);
        if entries.last().workout_id == workout_id {
            rest.push(entries.last())
        } else {
            rest
        }
    }
}

/// The entries of every workout but `workout_id`, in stored order.
pub open spec fn entries_except(entries: Seq<WorkoutExercise>, workout_id: u128) -> Seq<WorkoutExercise>
    decreases entries.len(),
{
    if entries.len() == 0 {
        entries
    } else {
        let rest = entries_except(entries.drop_last(), workout_id);
        if entries.last().workout_id != workout_id {
            rest.push(entries.last())
        } else {
            rest
        }
    }
}

/// The workouts of `owner`, in stored order.
pub open spec fn workouts_of(workouts: Seq<Workout>, owner: u128) -> Seq<Workout>
    decreases workouts.len(),
{
    if workouts.len() == 0 {
        workouts
    } else {
        let rest = workouts_of(workouts.drop_last(), owner);
        if workouts.last().user_id == owner {
            rest.push(workouts.last())
        } else {
            rest
        }
    }
}

/// Ids, emails and usernames of accounts are each unique.
pub open spec fn users_unique(users: Seq<User>) -> bool {
    forall|i: int, j: int|
        0 <= i < users.len() && 0 <= j < users.len() && i != j ==> {
            &&& #[trigger] users[i].id != #[trigger] users[j].id
            &&& users[i].email@ != users[j].email@
            &&& users[i].username@ != users[j].username@
        }
}

/// Exercise ids are unique.
pub open spec fn exercises_unique(exercises: Seq<Exercise>) -> bool {
    forall|i: int, j: int|
        0 <= i < exercises.len() && 0 <= j < exercises.len() && i != j
            ==> #[trigger] exercises[i].id != #[trigger] exercises[j].id
}

/// Workout ids are unique.
pub open spec fn workouts_unique(workouts: Seq<Workout>) -> bool {
    forall|i: int, j: int|
        0 <= i < workouts.len() && 0 <= j < workouts.len() && i != j
            ==> #[trigger] workouts[i].id != #[trigger] workouts[j].id
}

/// Whether some entry in `entries` has this id.
pub fn entries_contain(entries: &Vec<WorkoutExercise>, id: u128) -> (r: bool)
    ensures
        r == has_entry(entries@, id),
{
    let mut i: usize = 0;
    while i < entries.len()
        invariant
            i <= entries@.len(),
            forall|j: int| 0 <= j < i ==> entries@[j].id != id,
        decreases entries@.len() - i,
    {
        if entries[i].id == id {
            return true;
        }
        i += 1;
    }
    false
}

/// The relational store: accounts, the exercise catalog, workouts and their
/// exercise entries, each table in insertion order.
pub struct Database {
    pub users: Vec<User>,
    pub exercises: Vec<Exercise>,
    pub workouts: Vec<Workout>,
    pub workout_exercises: Vec<WorkoutExercise>,
}

impl Database {
    /// The store's constraints: unique keys, unique emails and usernames,
    /// and every entry referring to a stored workout and catalog exercise.
    pub open spec fn wf(&self) -> bool {
        &&& users_unique(self.users@)
        &&& exercises_unique(self.exercises@)
        &&& workouts_unique(self.workouts@)
        &&& forall|i: int| 0 <= i < self.workout_exercises@.len() ==> {
            &&& has_workout(self.workouts@, #[trigger] self.workout_exercises@[i].workout_id)
            &&& has_exercise(self.exercises@, self.workout_exercises@[i].exercise_id)
        }
    }

    /// An empty store.
    pub fn new() -> (r: Self)
        ensures
            r.wf(),
            r.users@.len() == 0,
            r.exercises@.len() == 0,
            r.workouts@.len() == 0,
            r.workout_exercises@.len() == 0,
    {
        Database { users: Vec::new(), exercises: Vec::new(), workouts: Vec::new(), workout_exercises: Vec::new() }
    }

    /// The first account with this email, if any.
    pub fn find_user_by_email(&self, email: &String) -> (r: Option<usize>)
        ensures
            r is None <==> !email_taken(self.users@, email@),
            r matches Some(i) ==> i < self.users@.len() && self.users@[i as int].email@ == email@,
    {
        let mut i: usize = 0;
        while i < self.users.len()
            invariant
                i <= self.users@.len(),
                forall|j: int| 0 <= j < i ==> self.users@[j].email@ != email@,
            decreases self.users@.len() - i,
        {
            if self.users[i].email == *email {
                return Some(i);
            }
            i += 1;
        }
        None
    }
    /// The first account with this username, if any.
    pub fn find_user_by_username(&self, username: &String) -> (r: Option<usize>)
        ensures
            r is None <==> !username_taken(self.users@, username@),
            r matches Some(i) ==> i < self.users@.len() && self.users@[i as int].username@ == username@,
    {
        let mut i: usize = 0;
        while i < self.users.len()
            invariant
                i <= self.users@.len(),
                forall|j: int| 0 <= j < i ==> self.users@[j].username@ != username@,
            decreases self.users@.len() - i,
        {
            if self.users[i].username == *username {
                return Some(i);
            }
            i += 1;
        }
        None
    }

    /// The first account with this id, if any.
    pub fn find_user_by_id(&self, id: u128) -> (r: Option<usize>)
        ensures
            r is None <==> !has_user(self.users@, id),
            r matches Some(i) ==> i < self.users@.len() && self.users@[i as int].id == id,
    {
        let mut i: usize = 0;
        while i < self.users.len()
            invariant
                i <= self.users@.len(),
                forall|j: int| 0 <= j < i ==> self.users@[j].id != id,
            decreases self.users@.len() - i,
        {
            if self.users[i].id == id {
                return Some(i);
            }
            i += 1;
        }
        None
    }

    /// The catalog exercise with this id, if any.
    pub fn find_exercise(&self, id: u128) -> (r: Option<usize>)
        ensures
            r is None <==> !has_exercise(self.exercises@, id),
            r matches Some(i) ==> i < self.exercises@.len() && self.exercises@[i as int].id == id,
    {
        let mut i: usize = 0;
        while i < self.exercises.len()
            invariant
                i <= self.exercises@.len(),
                forall|j: int| 0 <= j < i ==> self.exercises@[j].id != id,
            decreases self.exercises@.len() - i,
        {
            if self.exercises[i].id == id {
                return Some(i);
            }
            i += 1;
        }
        None
    }

    /// The workout with this id, if any.
    pub fn find_workout(&self, id: u128) -> (r: Option<usize>)
        ensures
            r is None <==> !has_workout(self.workouts@, id),
            r matches Some(i) ==> i < self.workouts@.len() && self.workouts@[i as int].id == id,
    {
        let mut i: usize = 0;
        while i < self.workouts.len()
            invariant
                i <= self.workouts@.len(),
                forall|j: int| 0 <= j < i ==> self.workouts@[j].id != id,
            decreases self.workouts@.len() - i,
        {
            if self.workouts[i].id == id {
                return Some(i);
            }
            i += 1;
        }
        None
    }

    /// The workout with this id if it belongs to `owner`: the lookup is
    /// filtered by both keys at once.
    pub fn find_owned_workout(&self, owner: u128, id: u128) -> (r: Option<usize>)
        ensures
            r is None <==> !owns(self.workouts@, owner, id),
            r matches Some(i) ==> i < self.workouts@.len() && self.workouts@[i as int].id == id
                && self.workouts@[i as int].user_id == owner,
    {
        let mut i: usize = 0;
        while i < self.workouts.len()
            invariant
                i <= self.workouts@.len(),
                forall|j: int| 0 <= j < i ==> !(self.workouts@[j].id == id && self.workouts@[j].user_id == owner),
            decreases self.workouts@.len() - i,
        {
            if self.workouts[i].id == id && self.workouts[i].user_id == owner {
                return Some(i);
            }
            i += 1;
        }
        None
    }

    /// Stores a new account under the unique constraints: a taken email or
    /// username is a conflict, a taken id a key violation. Nothing is written
    /// on failure.
    pub fn insert_user(&mut self, user: User) -> (r: Result<(), ServiceError>)
        requires
            old(self).wf(),
        ensures
            final(self).wf(),
            email_taken(old(self).users@, user.email@) ==> r == Err::<(), ServiceError>(ServiceError::Conflict(ConflictField::Email)),
            !email_taken(old(self).users@, user.email@) && username_taken(old(self).users@, user.username@)
                ==> r == Err::<(), ServiceError>(ServiceError::Conflict(ConflictField::Username)),
            !email_taken(old(self).users@, user.email@) && !username_taken(old(self).users@, user.username@)
                && has_user(old(self).users@, user.id) ==> r == Err::<(), ServiceError>(ServiceError::Constraint),
            r is Ok <==> !email_taken(old(self).users@, user.email@) && !username_taken(old(self).users@, user.username@)
                && !has_user(old(self).users@, user.id),
            r is Ok ==> final(self).users@ == old(self).users@.push(user),
            r is Err ==> *final(self) == *old(self),
            final(self).exercises@ == old(self).exercises@,
            final(self).workouts@ == old(self).workouts@,
            final(self).workout_exercises@ == old(self).workout_exercises@,
    {
        if self.find_user_by_email(&user.email).is_some() {
            return Err(ServiceError::Conflict(ConflictField::Email));
        }
        if self.find_user_by_username(&user.username).is_some() {
            return Err(ServiceError::Conflict(ConflictField::Username));
        }
        if self.find_user_by_id(user.id).is_some() {
            return Err(ServiceError::Constraint);
        }
        self.users.push(user);
        proof {
            let us = self.users@;
            assert forall|i: int, j: int| 0 <= i < us.len() && 0 <= j < us.len() && i != j implies {
                &&& #[trigger] us[i].id != #[trigger] us[j].id
                &&& us[i].email@ != us[j].email@
                &&& us[i].username@ != us[j].username@
            } by {
                if i == us.len() - 1 {
                    assert(us[j] == old(self).users@[j]);
                } else if j == us.len() - 1 {
                    assert(us[i] == old(self).users@[i]);
                } else {
                    assert(us[i] == old(self).users@[i]);
                    assert(us[j] == old(self).users@[j]);
                }
            }
        }
        Ok(())
    }

    /// Adds an exercise to the catalog; a taken id is a key violation and
    /// leaves the catalog unchanged.
    pub fn add_exercise(&mut self, exercise: Exercise) -> (r: Result<(), ServiceError>)
        requires
            old(self).wf(),
        ensures
            final(self).wf(),
            r is Ok <==> !has_exercise(old(self).exercises@, exercise.id),
            r matches Err(e) ==> e == ServiceError::Constraint,
            r is Ok ==> final(self).exercises@ == old(self).exercises@.push(exercise),
            r is Err ==> final(self).exercises@ == old(self).exercises@,
            final(self).users@ == old(self).users@,
            final(self).workouts@ == old(self).workouts@,
            final(self).workout_exercises@ == old(self).workout_exercises@,
    {
        if self.find_exercise(exercise.id).is_some() {
            return Err(ServiceError::Constraint);
        }
        self.exercises.push(exercise);
        proof {
            let ex = self.exercises@;
            assert forall|i: int| 0 <= i < self.workout_exercises@.len() implies {
                &&& has_workout(self.workouts@, #[trigger] self.workout_exercises@[i].workout_id)
                &&& has_exercise(ex, self.workout_exercises@[i].exercise_id)
            } by {
                assert(has_workout(old(self).workouts@, old(self).workout_exercises@[i].workout_id));
                let k = choose|k: int| 0 <= k < old(self).exercises@.len()
                    && #[trigger] old(self).exercises@[k].id == self.workout_exercises@[i].exercise_id;
                assert(ex[k] == old(self).exercises@[k]);
            }
        }
        Ok(())
    }
}

} // verus!
