use vstd::prelude::*;

verus! {

/// The identity of a spawned task. The executor hands out each value once.
#[derive(Debug, Clone, Copy, PartialEq, Eq, Structural)]
pub struct TaskId(pub u64);

/// A unit of cooperative work: an identity and the suspended computation
/// that the executor advances.
pub struct Task<F> {
    pub id: TaskId,
    pub future: F,
}

impl<F> Task<F> {
    pub fn new(id: TaskId, future: F) -> (r: Task<F>)
        ensures
            r.id == id,
            r.future == future,
    {
        Task { id, future }
    }
}

} // verus!
