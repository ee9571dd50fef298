//! How a task gets its identity.

use crate::time::utc_now;
use crate::types::{drawn_at_random, random_id, random_uuid_bits, Task, TaskView};
use vstd::prelude::*;

verus! {

impl Task {
    /// A task with a random identity, created now.
    pub fn new(payload: Vec<u8>) -> (t: Task)
        ensures
            random_uuid_bits(t.id),
            drawn_at_random(t.id),
            t.created_at.clock_reading(),
            t@ == TaskView::fresh(t.id, t.created_at, payload@),
    {
        let id: u128 = random_id();
        Task::with_identity(id, utc_now(), payload)
    }
}

} // verus!
