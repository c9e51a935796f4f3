use vstd::prelude::*;

verus! {

/// What a successful workout creation hands back: the new workout's id.
#[derive(Debug, Clone, Copy, PartialEq, Eq, Structural)]
pub struct CreateWorkoutResponse {
    pub id: u128,
}

} // verus!
