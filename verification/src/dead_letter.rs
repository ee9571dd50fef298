//! The tasks that were given up.

use crate::time::{utc_now, Timestamp};
use crate::types::{DeadLetterEntry, DeadLetterEntryView, Task, TaskView};
use std::collections::VecDeque;
use vstd::prelude::*;

verus! {

/// What each entry holds.
pub open spec fn entry_views(entries: Seq<DeadLetterEntry>) -> Seq<DeadLetterEntryView> {
    entries.map_values(|e: DeadLetterEntry| e@)
}

/// What a `DeadLetterQueue` holds: its entries, oldest first, and the most it
/// is made to keep.
#[verifier::ext_equal]
pub struct DeadLetterView {
    pub entries: Seq<DeadLetterEntryView>,
    pub max_size: usize,
}

/// The entries after `entry` came in: a full queue gives up its oldest.
pub open spec fn pushed(
    entries: Seq<DeadLetterEntryView>,
    max_size: usize,
    entry: DeadLetterEntryView,
) -> Seq<DeadLetterEntryView> {
    if entries.len() >= max_size && entries.len() > 0 {
        entries.drop_first().push(entry)
    } else {
        entries.push(entry)
    }
}

/// The tasks of the entries, each with its attempts forgotten.
pub open spec fn restarted_tasks(entries: Seq<DeadLetterEntryView>) -> Seq<TaskView> {
    entries.map_values(|e: DeadLetterEntryView| e.task.restarted())
}

/// `place` is that of the first entry for the task `id`.
pub open spec fn first_entry_for(
    entries: Seq<DeadLetterEntryView>,
    id: u128,
    place: int,
) -> bool {
    &&& 0 <= place < entries.len()
    &&& entries[place].task.id == id
    &&& forall|j: int| 0 <= j < place ==> (#[trigger] entries[j]).task.id != id
}

/// The task that `requeue_by_id` hands back, and what it leaves.
pub open spec fn requeued_by_id(
    pre: DeadLetterView,
    id: u128,
    task: Option<TaskView>,
    post: DeadLetterView,
) -> bool {
    match task {
        Some(t) => exists|place: int|
            {
                &&& #[trigger] first_entry_for(pre.entries, id, place)
                &&& t == pre.entries[place].task.restarted()
                &&& post == (DeadLetterView { entries: pre.entries.remove(place), ..pre })
            },
        None => {
            &&& forall|j: int|
                0 <= j < pre.entries.len() ==> (#[trigger] pre.entries[j]).task.id != id
            &&& post == pre
        },
    }
}

/// The tasks that were given up, oldest first. A full queue gives up its
/// oldest entry for a new one.
pub struct DeadLetterQueue {
    entries: VecDeque<DeadLetterEntry>,
    max_size: usize,
}

impl View for DeadLetterQueue {
    type V = DeadLetterView;

    closed spec fn view(&self) -> DeadLetterView {
        DeadLetterView { entries: entry_views(self.entries@), max_size: self.max_size }
    }
}

impl DeadLetterQueue {
    pub fn new(max_size: usize) -> (q: DeadLetterQueue)
        ensures
            q@ == (DeadLetterView { entries: Seq::empty(), max_size }),
    {
        let q = DeadLetterQueue { entries: VecDeque::new(), max_size };
        assert(q@.entries =~= Seq::empty());
        q
    }

    /// Adds a task that failed at `failed_at`.
    pub fn push_at(&mut self, task: Task, last_error: String, attempts: u32, failed_at: Timestamp)
        ensures
            final(self)@ == (DeadLetterView {
                entries: pushed(
                    old(self)@.entries,
                    old(self)@.max_size,
                    DeadLetterEntryView { task: task@, last_error: last_error@, attempts, failed_at },
                ),
                ..old(self)@
            }),
    {
        if self.entries.len() >= self.max_size {
            self.entries.pop_front();
        }
        let ghost before = self.entries@;
        let entry = DeadLetterEntry { task, last_error, attempts, failed_at };
        self.entries.push_back(entry);
        proof {
            assert(entry_views(self.entries@) =~= entry_views(before).push(entry@));
            let all = old(self)@.entries;
            assert(all.len() >= self.max_size && all.len() > 0 ==> entry_views(before)
                =~= all.drop_first());
        }
    }

    /// Adds a task that failed now.
    pub fn push(&mut self, task: Task, last_error: String, attempts: u32)
        ensures
            exists|failed_at: Timestamp| #[trigger]
                failed_at.clock_reading() && final(self)@ == (DeadLetterView {
                    entries: pushed(
                        old(self)@.entries,
                        old(self)@.max_size,
                        DeadLetterEntryView {
                            task: task@,
                            last_error: last_error@,
                            attempts,
                            failed_at,
                        },
                    ),
                    ..old(self)@
                }),
    {
        let failed_at = utc_now();
        self.push_at(task, last_error, attempts, failed_at);
    }

    /// The entries, oldest first.
    pub fn list(&self) -> (entries: Vec<DeadLetterEntry>)
        ensures
            entry_views(entries@) == self@.entries,
    {
        let mut copies: Vec<DeadLetterEntry> = Vec::new();
        let mut i: usize = 0;
        while i < self.entries.len()
            invariant
                i <= self.entries@.len(),
                entry_views(copies@) =~= self@.entries.take(i as int),
            decreases self.entries@.len() - i,
        {
            let ghost before = entry_views(copies@);
            let copy = self.entries[i].clone();
            copies.push(copy);
            assert(entry_views(copies@) =~= before.push(copy@));
            i = i + 1;
        }
        copies
    }

    pub fn len(&self) -> (n: usize)
        ensures
            n == self@.entries.len(),
    {
        self.entries.len()
    }

    pub fn is_empty(&self) -> (b: bool)
        ensures
            b == (self@.entries.len() == 0),
    {
        self.entries.len() == 0
    }

    /// Takes out all tasks, oldest first, to be tried afresh.
    pub fn requeue_all(&mut self) -> (tasks: Vec<Task>)
        ensures
            crate::queue::views(tasks@) == restarted_tasks(old(self)@.entries),
            final(self)@ == (DeadLetterView { entries: Seq::empty(), ..old(self)@ }),
    {
        let ghost all = self@.entries;
        let mut tasks: Vec<Task> = Vec::new();
        assert(all.skip(0) =~= all);
        loop
            invariant
                self.max_size == old(self).max_size,
                tasks@.len() <= all.len(),
                crate::queue::views(tasks@) =~= restarted_tasks(all.take(tasks@.len() as int)),
                self@.entries =~= all.skip(tasks@.len() as int),
            ensures
                tasks@.len() == all.len(),
            decreases all.len() - tasks@.len(),
        {
            let ghost before = self.entries@;
            let ghost done = tasks@;
            assert(entry_views(before) == all.skip(done.len() as int));
            assert(entry_views(before).len() == before.len());
            match self.entries.pop_front() {
                Some(entry) => {
                    let mut task = entry.task;
                    task.attempt = 0;
                    tasks.push(task);
                    proof {
                        assert(entry_views(before)[0] == all[done.len() as int]);
                        assert(task@ =~= all[done.len() as int].task.restarted());
                        assert(crate::queue::views(tasks@) =~= crate::queue::views(done).push(
                            task@,
                        ));
                        assert(entry_views(self.entries@) =~= entry_views(before).skip(1));
                    }
                },
                None => {
                    break;
                },
            }
        }
        assert(all.take(all.len() as int) =~= all);
        assert(self@.entries =~= Seq::empty());
        tasks
    }

    /// Takes out the first entry for the task `task_id`, to be tried afresh.
    pub fn requeue_by_id(&mut self, task_id: u128) -> (task: Option<Task>)
        ensures
            requeued_by_id(
                old(self)@,
                task_id,
                match task {
                    Some(t) => Some(t@),
                    None => None,
                },
                final(self)@,
            ),
    {
        let ghost all = self@.entries;
        let mut i: usize = 0;
        while i < self.entries.len()
            invariant
                *self == *old(self),
                all == self@.entries,
                i <= self.entries@.len(),
                forall|j: int| 0 <= j < i ==> (#[trigger] all[j]).task.id != task_id,
            decreases self.entries@.len() - i,
        {
            assert(all[i as int] == self.entries@[i as int]@);
            if self.entries[i].task.id == task_id {
                assert(first_entry_for(all, task_id, i as int));
                let ghost before = self.entries@;
                match self.entries.remove(i) {
                    Some(entry) => {
                        let mut task = entry.task;
                        task.attempt = 0;
                        proof {
                            assert(entry_views(self.entries@) =~= all.remove(i as int));
                            assert(task@ =~= all[i as int].task.restarted());
                        }
                        return Some(task);
                    },
                    None => {
                        return None;
                    },
                }
            }
            i = i + 1;
        }
        None
    }

    /// Forgets all entries.
    pub fn clear(&mut self)
        ensures
            final(self)@ == (DeadLetterView { entries: Seq::empty(), ..old(self)@ }),
    {
        self.entries.clear();
        assert(self@.entries =~= Seq::empty());
    }
}

} // verus!
