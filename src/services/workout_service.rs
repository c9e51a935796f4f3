use vstd::prelude::*;

use crate::db::{
    entries_contain, entries_except, entries_of, has_entry, has_exercise, has_user, has_workout,
    owns, workouts_of, workouts_unique, Database,
};
use crate::error::ServiceError;
use crate::models::workout::copy_text;
use crate::models::{
    CreateWorkoutRequest, Exercise, Workout, WorkoutDetailsResponse, WorkoutExercise,
    WorkoutExerciseDetails, WorkoutExerciseInput,
};
use crate::utils::clock::now_seconds;
use crate::utils::ids::new_id;

verus! {

/// The workout row that a request creates for `owner` under `id` at `now`.
pub open spec fn workout_row(owner: u128, req: CreateWorkoutRequest, id: u128, now: i64) -> Workout {
    Workout {
        id,
        user_id: owner,
        name: req.name,
        description: req.description,
        date: req.date,
        duration: req.duration,
        calories_burned: req.calories_burned,
        created_at: now,
        updated_at: now,
    }
}

/// The entry row that an input creates under `id` in workout `workout_id` at `now`.
pub open spec fn entry_row(input: WorkoutExerciseInput, id: u128, workout_id: u128, now: i64) -> WorkoutExercise {
    WorkoutExercise {
        id,
        workout_id,
        exercise_id: input.exercise_id,
        sets: input.sets,
        reps: input.reps,
        weight_bits: input.weight_bits,
        duration: input.duration,
        distance_bits: input.distance_bits,
        notes: input.notes,
        created_at: now,
        updated_at: now,
    }
}

/// The entry rows that a request's inputs create, in input order.
pub open spec fn entry_rows(inputs: Seq<WorkoutExerciseInput>, ids: Seq<u128>, workout_id: u128, now: i64) -> Seq<WorkoutExercise> {
    Seq::new(inputs.len(), |k: int| entry_row(inputs[k], ids[k], workout_id, now))
}

/// Whether every insert of a workout creation meets the store's constraints:
/// the owner exists, the workout id is new, every entry refers to a catalog
/// exercise and has an id that is new and distinct from the others.
pub open spec fn creation_allowed(db: Database, owner: u128, req: CreateWorkoutRequest, workout_id: u128, ids: Seq<u128>) -> bool {
    &&& has_user(db.users@, owner)
    &&& !has_workout(db.workouts@, workout_id)
    &&& forall|k: int| 0 <= k < req.exercises@.len() ==> {
        &&& has_exercise(db.exercises@, (#[trigger] req.exercises@[k]).exercise_id)
        &&& !has_entry(db.workout_exercises@, ids[k])
    }
    &&& forall|k1: int, k2: int| 0 <= k1 < k2 < req.exercises@.len() ==> #[trigger] ids[k1] != #[trigger] ids[k2]
}

/// Whether a request refers to an owner or an exercise that the store lacks.
pub open spec fn refers_to_missing(db: Database, owner: u128, req: CreateWorkoutRequest) -> bool {
    ||| !has_user(db.users@, owner)
    ||| exists|k: int| 0 <= k < req.exercises@.len() && !has_exercise(db.exercises@, (#[trigger] req.exercises@[k]).exercise_id)
}

/// Whether a workout row is the one a request makes for `owner` under `id`,
/// whatever its timestamps.
pub open spec fn workout_from_request(w: Workout, owner: u128, req: CreateWorkoutRequest, id: u128) -> bool {
    &&& w.id == id
    &&& w.user_id == owner
    &&& w.name == req.name
    &&& w.description == req.description
    &&& w.date == req.date
    &&& w.duration == req.duration
    &&& w.calories_burned == req.calories_burned
}

/// Whether an entry row is the one an input makes in workout `workout_id`,
/// whatever its id and timestamps.
pub open spec fn entry_from_input(e: WorkoutExercise, input: WorkoutExerciseInput, workout_id: u128) -> bool {
    &&& e.workout_id == workout_id
    &&& e.exercise_id == input.exercise_id
    &&& e.sets == input.sets
    &&& e.reps == input.reps
    &&& e.weight_bits == input.weight_bits
    &&& e.duration == input.duration
    &&& e.distance_bits == input.distance_bits
    &&& e.notes == input.notes
}

fn make_entry(input: &WorkoutExerciseInput, id: u128, workout_id: u128, now: i64) -> (r: WorkoutExercise)
    ensures
        r == entry_row(*input, id, workout_id, now),
{
    WorkoutExercise {
        id,
        workout_id,
        exercise_id: input.exercise_id,
        sets: input.sets,
        reps: input.reps,
        weight_bits: input.weight_bits,
        duration: input.duration,
        distance_bits: input.distance_bits,
        notes: copy_text(&input.notes),
        created_at: now,
        updated_at: now,
    }
}

/// Whether a details record carries an entry's figures and the catalog
/// exercise that the entry refers to.
pub open spec fn details_match(d: WorkoutExerciseDetails, e: WorkoutExercise, catalog: Seq<Exercise>) -> bool {
    &&& d.id == e.id
    &&& d.exercise.id == e.exercise_id
    &&& catalog.contains(d.exercise)
    &&& d.sets == e.sets
    &&& d.reps == e.reps
    &&& d.weight_bits == e.weight_bits
    &&& d.duration == e.duration
    &&& d.distance_bits == e.distance_bits
    &&& d.notes == e.notes
}

/// Whether `d` is the joined view of workout `w` in the store: its fields,
/// and one record per entry of the workout, in stored order.
pub open spec fn details_of(d: WorkoutDetailsResponse, w: Workout, db: Database) -> bool {
    let entries = entries_of(db.workout_exercises@, w.id);
    &&& d.id == w.id
    &&& d.name == w.name
    &&& d.description == w.description
    &&& d.date == w.date
    &&& d.duration == w.duration
    &&& d.calories_burned == w.calories_burned
    &&& d.exercises@.len() == entries.len()
    &&& forall|k: int| 0 <= k < entries.len() ==> details_match(#[trigger] d.exercises@[k], entries[k], db.exercises@)
}

/// Whether workouts are ordered by date, most recent first.
pub open spec fn sorted_by_date_desc(ws: Seq<Workout>) -> bool {
    forall|i: int, j: int| 0 <= i < j < ws.len() ==> #[trigger] ws[i].date >= #[trigger] ws[j].date
}

/// Whether workouts of equal date appear in `r` in the order in which they
/// are stored in `ws`.
pub open spec fn ties_in_stored_order(r: Seq<Workout>, ws: Seq<Workout>) -> bool {
    forall|a: int, b: int| 0 <= a < b < r.len() && (#[trigger] r[a]).date == (#[trigger] r[b]).date
        ==> exists|pa: int, pb: int| 0 <= pa < pb < ws.len() && #[trigger] ws[pa] == r[a] && #[trigger] ws[pb] == r[b]
}

/// Where a workout dated `date` goes in a list ordered most recent first:
/// after every workout at least as recent.
pub open spec fn insert_pos(l: Seq<Workout>, date: i64) -> int
    decreases l.len(),
{
    if l.len() == 0 {
        0
    } else if l[0].date < date {
        0
    } else {
        1 + insert_pos(l.skip(1), date)
    }
}

/// The listing of workouts, most recent first: each is placed in stored order
/// after every workout at least as recent, so equal dates keep stored order.
pub open spec fn listing(ws: Seq<Workout>) -> Seq<Workout>
    decreases ws.len(),
{
    if ws.len() == 0 {
        ws
    } else {
        let l = listing(ws.drop_last());
        l.insert(insert_pos(l, ws.last().date), ws.last())
    }
}

proof fn lemma_insert_pos(l: Seq<Workout>, date: i64, p: int)
    requires
        0 <= p <= l.len(),
        forall|q: int| 0 <= q < p ==> (#[trigger] l[q]).date >= date,
        p == l.len() || l[p].date < date,
    ensures
        insert_pos(l, date) == p,
    decreases p,
{
    if p > 0 {
        assert(l[0].date >= date);
        let t = l.skip(1);
        assert forall|q: int| 0 <= q < p - 1 implies (#[trigger] t[q]).date >= date by {
            assert(t[q] == l[q + 1]);
        }
        if p < l.len() {
            assert(t[p - 1] == l[p]);
        }
        lemma_insert_pos(t, date, p - 1);
    }
}

proof fn lemma_insert_to_multiset(s: Seq<Workout>, p: int, x: Workout)
    requires
        0 <= p <= s.len(),
    ensures
        s.insert(p, x).to_multiset() =~= s.to_multiset().insert(x),
{
    broadcast use vstd::seq_lib::group_to_multiset_ensures;
    let t = s.insert(p, x);
    assert(t.remove(p) =~= s);
    assert(t[p] == x);
    assert(t.contains(x));
}

proof fn lemma_except_members(es: Seq<WorkoutExercise>, workout_id: u128)
    ensures
        forall|k: int| 0 <= k < entries_except(es, workout_id).len() ==> {
            &&& (#[trigger] entries_except(es, workout_id)[k]).workout_id != workout_id
            &&& es.contains(entries_except(es, workout_id)[k])
        },
    decreases es.len(),
{
    if es.len() > 0 {
        let d = es.drop_last();
        lemma_except_members(d, workout_id);
        let f = entries_except(es, workout_id);
        assert forall|k: int| 0 <= k < f.len() implies {
            &&& (#[trigger] f[k]).workout_id != workout_id
            &&& es.contains(f[k])
        } by {
            if k < entries_except(d, workout_id).len() {
                let x = entries_except(d, workout_id)[k];
                assert(f[k] == x);
                let j = choose|j: int| 0 <= j < d.len() && d[j] == x;
                assert(es[j] == x);
            } else {
                assert(f[k] == es.last());
                assert(es[es.len() - 1] == es.last());
            }
        }
    }
}

/// A workout that a request with a missing owner or catalog exercise would
/// create is never written, nor any of its entries: the store is left as it
/// was, so neither the workout nor any entry of it can be read back.
pub proof fn lemma_failed_creation_leaves_nothing(db: Database, owner: u128, req: CreateWorkoutRequest, workout_id: u128, ids: Seq<u128>)
    requires
        db.wf(),
        refers_to_missing(db, owner, req),
        !has_workout(db.workouts@, workout_id),
    ensures
        !creation_allowed(db, owner, req, workout_id, ids),
        !owns(db.workouts@, owner, workout_id),
        entries_of(db.workout_exercises@, workout_id).len() == 0,
{
    lemma_no_entries_without_workout(db, workout_id);
}

/// In a well-formed store, a workout id that no workout has has no entries.
pub proof fn lemma_no_entries_without_workout(db: Database, workout_id: u128)
    requires
        db.wf(),
        !has_workout(db.workouts@, workout_id),
    ensures
        entries_of(db.workout_exercises@, workout_id).len() == 0,
{
    lemma_entries_of_members(db.workout_exercises@, workout_id);
    let f = entries_of(db.workout_exercises@, workout_id);
    if f.len() > 0 {
        let j = choose|j: int| 0 <= j < db.workout_exercises@.len() && db.workout_exercises@[j] == f[0];
        assert(has_workout(db.workouts@, db.workout_exercises@[j].workout_id));
    }
}

proof fn lemma_entries_of_members(es: Seq<WorkoutExercise>, workout_id: u128)
    ensures
        forall|k: int| 0 <= k < entries_of(es, workout_id).len() ==> {
            &&& (#[trigger] entries_of(es, workout_id)[k]).workout_id == workout_id
            &&& es.contains(entries_of(es, workout_id)[k])
        },
    decreases es.len(),
{
    if es.len() > 0 {
        let d = es.drop_last();
        lemma_entries_of_members(d, workout_id);
        let f = entries_of(es, workout_id);
        assert forall|k: int| 0 <= k < f.len() implies {
            &&& (#[trigger] f[k]).workout_id == workout_id
            &&& es.contains(f[k])
        } by {
            if k < entries_of(d, workout_id).len() {
                let x = entries_of(d, workout_id)[k];
                assert(f[k] == x);
                let j = choose|j: int| 0 <= j < d.len() && d[j] == x;
                assert(es[j] == x);
            } else {
                assert(f[k] == es.last());
                assert(es[es.len() - 1] == es.last());
            }
        }
    }
}

/// A workout is visible only to its owner: asked for by any other account,
/// even though the id exists, it is not found.
pub proof fn lemma_foreign_workout_hidden(workouts: Seq<Workout>, owner: u128, other: u128, i: int)
    requires
        workouts_unique(workouts),
        0 <= i < workouts.len(),
        workouts[i].user_id == owner,
        other != owner,
    ensures
        has_workout(workouts, workouts[i].id),
        !owns(workouts, other, workouts[i].id),
{
    assert(workouts[i].id == workouts[i].id);
}

/// After the owner deletes a workout, it can no longer be found, and no entry
/// of it is left.
pub proof fn lemma_deleted_workout_gone(workouts: Seq<Workout>, entries: Seq<WorkoutExercise>, i: int, owner: u128)
    requires
        workouts_unique(workouts),
        0 <= i < workouts.len(),
    ensures
        !owns(workouts.remove(i), owner, workouts[i].id),
        entries_of(entries_except(entries, workouts[i].id), workouts[i].id).len() == 0,
{
    let id = workouts[i].id;
    let rest = workouts.remove(i);
    if owns(rest, owner, id) {
        let m = choose|m: int| 0 <= m < rest.len() && #[trigger] rest[m].id == id && rest[m].user_id == owner;
        if m < i {
            assert(rest[m] == workouts[m]);
        } else {
            assert(rest[m] == workouts[m + 1]);
        }
    }
    lemma_except_members(entries, id);
    lemma_entries_of_members(entries_except(entries, id), id);
    let f = entries_of(entries_except(entries, id), id);
    if f.len() > 0 {
        let e = entries_except(entries, id);
        let j = choose|j: int| 0 <= j < e.len() && e[j] == f[0];
    }
}

/// Workout persistence, scoped by owner.
pub struct WorkoutService {}

impl WorkoutService {
    pub fn new() -> (r: Self) {
        WorkoutService {}
    }

    /// Creates a workout and its entries as one transaction, under the given
    /// ids and timestamp: either every row is written, or none is and the
    /// store is left as it was.
    pub fn create_workout_with(
        &self,
        db: &mut Database,
        user_id: u128,
        req: &CreateWorkoutRequest,
        workout_id: u128,
        entry_ids: &Vec<u128>,
        now: i64,
    ) -> (r: Result<u128, ServiceError>)
        requires
            old(db).wf(),
            entry_ids@.len() == req.exercises@.len(),
        ensures
            final(db).wf(),
            r is Ok <==> creation_allowed(*old(db), user_id, *req, workout_id, entry_ids@),
            r matches Ok(id) ==> id == workout_id,
            r matches Err(e) ==> e == ServiceError::Constraint,
            r is Ok ==> final(db).workouts@ == old(db).workouts@.push(workout_row(user_id, *req, workout_id, now)),
            r is Ok ==> final(db).workout_exercises@ == old(db).workout_exercises@
                + entry_rows(req.exercises@, entry_ids@, workout_id, now),
            r is Err ==> *final(db) == *old(db),
            final(db).users@ == old(db).users@,
            final(db).exercises@ == old(db).exercises@,
    {
        if db.find_user_by_id(user_id).is_none() || db.find_workout(workout_id).is_some() {
            return Err(ServiceError::Constraint);
        }
        let n = req.exercises.len();
        let mut pending: Vec<WorkoutExercise> = Vec::new();
        let mut k: usize = 0;
        while k < n
            invariant
                n == req.exercises@.len(),
                n == entry_ids@.len(),
                k <= n,
                db.wf(),
                has_user(db.users@, user_id),
                !has_workout(db.workouts@, workout_id),
                pending@ =~= entry_rows(req.exercises@.take(k as int), entry_ids@.take(k as int), workout_id, now),
                forall|j: int| 0 <= j < k ==> {
                    &&& has_exercise(db.exercises@, (#[trigger] req.exercises@[j]).exercise_id)
                    &&& !has_entry(db.workout_exercises@, entry_ids@[j])
                },
                forall|j1: int, j2: int| 0 <= j1 < j2 < k ==> #[trigger] entry_ids@[j1] != #[trigger] entry_ids@[j2],
            decreases n - k,
        {
            let input = &req.exercises[k];
            let id = entry_ids[k];
            if db.find_exercise(input.exercise_id).is_none() || entries_contain(&db.workout_exercises, id) {
                return Err(ServiceError::Constraint);
            }
            if entries_contain(&pending, id) {
                proof {
                    let j = choose|j: int| 0 <= j < pending@.len() && #[trigger] pending@[j].id == id;
                    assert(entry_ids@[j] == id);
                }
                return Err(ServiceError::Constraint);
            }
            let row = make_entry(input, id, workout_id, now);
            pending.push(row);
            k += 1;
            proof {
                assert forall|j1: int, j2: int| 0 <= j1 < j2 < k implies #[trigger] entry_ids@[j1] != #[trigger] entry_ids@[j2] by {
                    if j2 == k - 1 {
                        assert(pending@[j1].id == entry_ids@[j1]);
                    }
                }
            }
        }
        assert(req.exercises@.take(n as int) =~= req.exercises@);
        assert(entry_ids@.take(n as int) =~= entry_ids@);
        let ghost old_db = *db;
        let row = Workout {
            id: workout_id,
            user_id,
            name: req.name.clone(),
            description: copy_text(&req.description),
            date: req.date,
            duration: req.duration,
            calories_burned: req.calories_burned,
            created_at: now,
            updated_at: now,
        };
        db.workouts.push(row);
        db.workout_exercises.append(&mut pending);
        proof {
            let ws = db.workouts@;
            let es = db.workout_exercises@;
            let last = ws.len() - 1;
            assert(ws[last].id == workout_id);
            assert forall|i: int, j: int| 0 <= i < ws.len() && 0 <= j < ws.len() && i != j
                implies #[trigger] ws[i].id != #[trigger] ws[j].id by {
                if i != last && j != last {
                    assert(ws[i] == old_db.workouts@[i]);
                    assert(ws[j] == old_db.workouts@[j]);
                } else if i == last {
                    assert(ws[j] == old_db.workouts@[j]);
                } else {
                    assert(ws[i] == old_db.workouts@[i]);
                }
            }
            assert forall|i: int| 0 <= i < es.len() implies {
                &&& has_workout(ws, #[trigger] es[i].workout_id)
                &&& has_exercise(db.exercises@, es[i].exercise_id)
            } by {
                let base = old_db.workout_exercises@.len();
                if i < base {
                    assert(es[i] == old_db.workout_exercises@[i]);
                    assert(has_workout(old_db.workouts@, old_db.workout_exercises@[i].workout_id));
                    let m = choose|m: int| 0 <= m < old_db.workouts@.len()
                        && #[trigger] old_db.workouts@[m].id == old_db.workout_exercises@[i].workout_id;
                    assert(ws[m] == old_db.workouts@[m]);
                } else {
                    let k = i - base;
                    assert(es[i] == entry_row(req.exercises@[k], entry_ids@[k], workout_id, now));
                    assert(has_exercise(db.exercises@, req.exercises@[k].exercise_id));
                }
            }
        }
        Ok(workout_id)
    }

    /// Creates a workout and its entries as one transaction, with fresh
    /// random ids and the current time. Either every row is written or none
    /// is; a request that refers to a missing owner or catalog exercise
    /// always fails and writes nothing.
    pub fn create_workout(&self, db: &mut Database, user_id: u128, req: CreateWorkoutRequest) -> (r: Result<u128, ServiceError>)
        requires
            old(db).wf(),
        ensures
            final(db).wf(),
            refers_to_missing(*old(db), user_id, req) ==> r is Err,
            r matches Err(e) ==> e == ServiceError::Constraint,
            r is Err ==> *final(db) == *old(db),
            r matches Ok(id) ==> {
                &&& !has_workout(old(db).workouts@, id)
                &&& final(db).workouts@.len() == old(db).workouts@.len() + 1
                &&& final(db).workouts@.drop_last() == old(db).workouts@
                &&& workout_from_request(final(db).workouts@.last(), user_id, req, id)
                &&& final(db).workout_exercises@.len() == old(db).workout_exercises@.len() + req.exercises@.len()
                &&& final(db).workout_exercises@.take(old(db).workout_exercises@.len() as int) == old(db).workout_exercises@
                &&& forall|k: int| 0 <= k < req.exercises@.len() ==> entry_from_input(
                    #[trigger] final(db).workout_exercises@[old(db).workout_exercises@.len() + k],
                    req.exercises@[k],
                    id,
                )
            },
            final(db).users@ == old(db).users@,
            final(db).exercises@ == old(db).exercises@,
    {
        let workout_id = new_id();
        let mut entry_ids: Vec<u128> = Vec::new();
        let mut k: usize = 0;
        while k < req.exercises.len()
            invariant
                k <= req.exercises@.len(),
                entry_ids@.len() == k,
            decreases req.exercises@.len() - k,
        {
            entry_ids.push(new_id());
            k += 1;
        }
        let now = now_seconds();
        let ghost old_db = *db;
        let r = self.create_workout_with(db, user_id, &req, workout_id, &entry_ids, now);
        proof {
            if r is Ok {
                let base = old_db.workout_exercises@.len();
                let es = db.workout_exercises@;
                assert(es.take(base as int) =~= old_db.workout_exercises@);
                assert(db.workouts@.drop_last() =~= old_db.workouts@);
                assert forall|k: int| 0 <= k < req.exercises@.len() implies entry_from_input(
                    #[trigger] es[base + k],
                    req.exercises@[k],
                    workout_id,
                ) by {
                    assert(es[base + k] == entry_row(req.exercises@[k], entry_ids@[k], workout_id, now));
                }
            }
        }
        r
    }

    /// The workout `workout_id` of `user_id` with its entries, each joined with
    /// its catalog exercise. The lookup is filtered by id and owner together:
    /// a workout of another account is not found.
    pub fn get_workout(&self, db: &Database, user_id: u128, workout_id: u128) -> (r: Result<WorkoutDetailsResponse, ServiceError>)
        requires
            db.wf(),
        ensures
            r is Err <==> !owns(db.workouts@, user_id, workout_id),
            r matches Err(e) ==> e == ServiceError::NotFound,
            r matches Ok(d) ==> forall|i: int| 0 <= i < db.workouts@.len() && #[trigger] db.workouts@[i].id == workout_id
                ==> details_of(d, db.workouts@[i], *db),
    {
        let wi = match db.find_owned_workout(user_id, workout_id) {
            None => {
                return Err(ServiceError::NotFound);
            },
            Some(i) => i,
        };
        let ghost es = db.workout_exercises@;
        let mut out: Vec<WorkoutExerciseDetails> = Vec::new();
        let mut i: usize = 0;
        while i < db.workout_exercises.len()
            invariant
                i <= es.len(),
                es == db.workout_exercises@,
                db.wf(),
                out@.len() == entries_of(es.take(i as int), workout_id).len(),
                forall|k: int| 0 <= k < out@.len() ==> details_match(
                    #[trigger] out@[k],
                    entries_of(es.take(i as int), workout_id)[k],
                    db.exercises@,
                ),
            decreases es.len() - i,
        {
            let e = &db.workout_exercises[i];
            assert(es.take(i + 1).drop_last() =~= es.take(i as int));
            assert(es.take(i + 1).last() == es[i as int]);
            if e.workout_id == workout_id {
                assert(has_exercise(db.exercises@, es[i as int].exercise_id));
                let xi = match db.find_exercise(e.exercise_id) {
                    None => {
                        return Err(ServiceError::NotFound);
                    },
                    Some(x) => x,
                };
                let exercise = db.exercises[xi].duplicate();
                assert(db.exercises@[xi as int] == exercise);
                out.push(WorkoutExerciseDetails {
                    id: e.id,
                    exercise,
                    sets: e.sets,
                    reps: e.reps,
                    weight_bits: e.weight_bits,
                    duration: e.duration,
                    distance_bits: e.distance_bits,
                    notes: copy_text(&e.notes),
                });
            }
            i += 1;
        }
        assert(es.take(es.len() as int) =~= es);
        let w = &db.workouts[wi];
        let d = WorkoutDetailsResponse {
            id: w.id,
            name: w.name.clone(),
            description: copy_text(&w.description),
            date: w.date,
            duration: w.duration,
            calories_burned: w.calories_burned,
            exercises: out,
        };
        proof {
            assert forall|j: int| 0 <= j < db.workouts@.len() && #[trigger] db.workouts@[j].id == workout_id
                implies details_of(d, db.workouts@[j], *db) by {
                if j != wi {
                    assert(db.workouts@[j].id != db.workouts@[wi as int].id);
                }
            }
        }
        Ok(d)
    }

    /// Every workout of `user_id`, most recent first; workouts of the same
    /// date keep their stored order.
    pub fn get_workouts(&self, db: &Database, user_id: u128) -> (r: Vec<Workout>)
        ensures
            ties_in_stored_order(r@, db.workouts@),
            r@ == listing(workouts_of(db.workouts@, user_id)),
            sorted_by_date_desc(r@),
            r@.to_multiset() == workouts_of(db.workouts@, user_id).to_multiset(),
    {
        let ghost ws = db.workouts@;
        let mut out: Vec<Workout> = Vec::new();
        assert(out@ =~= workouts_of(ws.take(0), user_id));
        let mut i: usize = 0;
        while i < db.workouts.len()
            invariant
                i <= ws.len(),
                ws == db.workouts@,
                sorted_by_date_desc(out@),
                out@.to_multiset() == workouts_of(ws.take(i as int), user_id).to_multiset(),
                out@ == listing(workouts_of(ws.take(i as int), user_id)),
                forall|a: int| #![trigger out@[a]] 0 <= a < out@.len() ==> exists|k: int| 0 <= k < i && #[trigger] ws[k] == out@[a],
                ties_in_stored_order(out@, ws),
            decreases ws.len() - i,
        {
            assert(ws.take(i + 1).drop_last() =~= ws.take(i as int));
            assert(ws.take(i + 1).last() == ws[i as int]);
            if db.workouts[i].user_id == user_id {
                let w = db.workouts[i].duplicate();
                let mut p: usize = 0;
                while p < out.len() && out[p].date >= w.date
                    invariant
                        p <= out@.len(),
                        forall|q: int| 0 <= q < p ==> (#[trigger] out@[q]).date >= w.date,
                    decreases out@.len() - p,
                {
                    p += 1;
                }
                let ghost before = out@;
                proof {
                    lemma_insert_pos(before, w.date, p as int);
                    let prev = workouts_of(ws.take(i as int), user_id);
                    assert(prev.push(w).drop_last() =~= prev);
                    broadcast use vstd::seq_lib::group_to_multiset_ensures;
                    lemma_insert_to_multiset(before, p as int, w);
                    assert(workouts_of(ws.take(i + 1), user_id) == workouts_of(ws.take(i as int), user_id).push(w));
                }
                out.insert(p, w);
                proof {
                    let o = out@;
                    assert(o[p as int] == ws[i as int]);
                    assert forall|a: int| #![trigger o[a]] 0 <= a < o.len() implies exists|k: int| 0 <= k < i + 1 && #[trigger] ws[k] == o[a] by {
                        if a < p {
                            assert(o[a] == before[a]);
                        } else if a > p {
                            assert(o[a] == before[a - 1]);
                        }
                    }
                    assert forall|a: int, b: int| 0 <= a < b < o.len() && (#[trigger] o[a]).date == (#[trigger] o[b]).date
                        implies exists|pa: int, pb: int| 0 <= pa < pb < ws.len() && #[trigger] ws[pa] == o[a] && #[trigger] ws[pb] == o[b] by {
                        if b < p {
                            assert(o[a] == before[a] && o[b] == before[b]);
                        } else if b == p {
                            assert(o[a] == before[a]);
                            let k = choose|k: int| 0 <= k < i && #[trigger] ws[k] == before[a];
                            assert(ws[k] == o[a] && ws[i as int] == o[b]);
                        } else if a == p {
                            assert(o[b] == before[b - 1]);
                            assert(before[p as int].date < w.date);
                            assert(before[p as int].date >= before[b - 1].date || b - 1 == p);
                        } else if a < p {
                            assert(o[a] == before[a] && o[b] == before[b - 1]);
                        } else {
                            assert(o[a] == before[a - 1] && o[b] == before[b - 1]);
                        }
                    }
                    assert forall|a: int, b: int| 0 <= a < b < o.len() implies #[trigger] o[a].date >= #[trigger] o[b].date by {
                        if b < p {
                            assert(o[a] == before[a] && o[b] == before[b]);
                        } else if b == p {
                            assert(o[a] == before[a]);
                        } else if a == p {
                            assert(o[b] == before[b - 1]);
                            if p < before.len() {
                                assert(before[p as int].date < w.date);
                                assert(before[p as int].date >= before[b - 1].date || b - 1 == p);
                            }
                        } else if a < p {
                            assert(o[a] == before[a] && o[b] == before[b - 1]);
                        } else {
                            assert(o[a] == before[a - 1] && o[b] == before[b - 1]);
                        }
                    }
                }
            }
            i += 1;
        }
        assert(ws.take(ws.len() as int) =~= ws);
        out
    }

    /// Deletes the workout `workout_id` of `user_id` together with all of its
    /// entries, as one unit. The lookup is filtered by id and owner together:
    /// a workout of another account is not found and nothing is deleted.
    pub fn delete_workout(&self, db: &mut Database, user_id: u128, workout_id: u128) -> (r: Result<(), ServiceError>)
        requires
            old(db).wf(),
        ensures
            final(db).wf(),
            r is Err <==> !owns(old(db).workouts@, user_id, workout_id),
            r matches Err(e) ==> e == ServiceError::NotFound,
            r is Err ==> *final(db) == *old(db),
            r is Ok ==> exists|i: int| 0 <= i < old(db).workouts@.len()
                && #[trigger] old(db).workouts@[i].id == workout_id
                && old(db).workouts@[i].user_id == user_id
                && final(db).workouts@ == old(db).workouts@.remove(i),
            r is Ok ==> final(db).workout_exercises@ == entries_except(old(db).workout_exercises@, workout_id),
            final(db).users@ == old(db).users@,
            final(db).exercises@ == old(db).exercises@,
    {
        let wi = match db.find_owned_workout(user_id, workout_id) {
            None => {
                return Err(ServiceError::NotFound);
            },
            Some(i) => i,
        };
        let ghost old_db = *db;
        let ghost es = db.workout_exercises@;
        let mut kept: Vec<WorkoutExercise> = Vec::new();
        let mut i: usize = 0;
        while i < db.workout_exercises.len()
            invariant
                i <= es.len(),
                es == db.workout_exercises@,
                kept@ == entries_except(es.take(i as int), workout_id),
            decreases es.len() - i,
        {
            assert(es.take(i + 1).drop_last() =~= es.take(i as int));
            assert(es.take(i + 1).last() == es[i as int]);
            if db.workout_exercises[i].workout_id != workout_id {
                let e = db.workout_exercises[i].duplicate();
                kept.push(e);
            }
            i += 1;
        }
        assert(es.take(es.len() as int) =~= es);
        db.workout_exercises = kept;
        db.workouts.remove(wi);
        proof {
            let ws = old_db.workouts@;
            let nws = db.workouts@;
            assert(nws == ws.remove(wi as int));
            assert forall|a: int, b: int| 0 <= a < nws.len() && 0 <= b < nws.len() && a != b
                implies #[trigger] nws[a].id != #[trigger] nws[b].id by {
                let a0 = if a < wi { a } else { a + 1 };
                let b0 = if b < wi { b } else { b + 1 };
                assert(nws[a] == ws[a0]);
                assert(nws[b] == ws[b0]);
            }
            lemma_except_members(es, workout_id);
            let nes = db.workout_exercises@;
            assert forall|k: int| 0 <= k < nes.len() implies {
                &&& has_workout(nws, #[trigger] nes[k].workout_id)
                &&& has_exercise(db.exercises@, nes[k].exercise_id)
            } by {
                let j = choose|j: int| 0 <= j < es.len() && es[j] == nes[k];
                assert(has_workout(ws, es[j].workout_id));
                assert(has_exercise(db.exercises@, es[j].exercise_id));
                let m = choose|m: int| 0 <= m < ws.len() && #[trigger] ws[m].id == es[j].workout_id;
                assert(m != wi);
                if m < wi {
                    assert(nws[m] == ws[m]);
                } else {
                    assert(nws[m - 1] == ws[m]);
                }
            }
        }
        Ok(())
    }
}

} // verus!
