//! Which worker gets which task.

use crate::channel::{channel_limit, free_slots, room_shown, slot_limit};
use crate::queue::{foremost, views, TaskQueue};
use crate::time::{lemma_clock_shows_a_moment, utc_now, Timestamp};
use crate::types::{ScheduleStrategy, Task, TaskView};
use tokio::sync::mpsc::Sender;
use vstd::multiset::Multiset;
use vstd::prelude::*;

verus! {

/// A worker, and the sending end of its channel.
pub struct WorkerSlot {
    pub id: usize,
    pub tx: Sender<Task>,
}

/// What to do next for a dispatch.
pub enum DispatchStep {
    /// Send `task` to the worker at place `worker`, and report the outcome
    /// with `after_send`.
    Send { worker: usize, task: Task },
    /// The dispatch is over. The flag says whether the task was accepted.
    Finished(bool),
}

/// What a `DispatchStep` holds.
pub enum DispatchStepView {
    Send { worker: usize, task: TaskView },
    Finished(bool),
}

impl View for DispatchStep {
    type V = DispatchStepView;

    open spec fn view(&self) -> DispatchStepView {
        match self {
            DispatchStep::Send { worker, task } => DispatchStepView::Send {
                worker: *worker,
                task: task@,
            },
            DispatchStep::Finished(accepted) => DispatchStepView::Finished(*accepted),
        }
    }
}

/// What a `Scheduler` holds.
#[verifier::ext_equal]
pub struct SchedulerView {
    pub strategy: ScheduleStrategy,
    pub workers: Seq<WorkerSlot>,
    /// How many tasks round robin has given out, modulo the word size.
    pub rr_index: usize,
    /// The tasks that are due and wait for a worker.
    pub queue: Multiset<TaskView>,
    /// The tasks that were not yet due when they came, in the order of coming.
    pub delayed: Seq<TaskView>,
    /// The tasks counted as accepted and not yet finished.
    pub pending: usize,
}

/// One more, as an atomic counter counts: from the greatest value to zero.
pub open spec fn one_more(n: usize) -> usize {
    if n == usize::MAX {
        0
    } else {
        (n + 1) as usize
    }
}

/// One less, as an atomic counter counts: from zero to the greatest value.
pub open spec fn one_less(n: usize) -> usize {
    if n == 0 {
        usize::MAX
    } else {
        (n - 1) as usize
    }
}

/// The workers whose id is not `id`, in their order.
pub open spec fn without_worker(workers: Seq<WorkerSlot>, id: usize) -> Seq<WorkerSlot> {
    workers.filter(|w: WorkerSlot| w.id != id)
}

/// The ids of the workers, in their order.
pub open spec fn ids_of(workers: Seq<WorkerSlot>) -> Seq<usize> {
    workers.map_values(|w: WorkerSlot| w.id)
}

/// `n` is the room that the channel of `worker` has shown.
pub open spec fn room_of(worker: WorkerSlot, n: usize) -> bool {
    room_shown(worker.tx, n) && n <= channel_limit(worker.tx)
}

/// `n` tasks wait in the channel of `worker`, by the room that it has shown.
pub open spec fn load_of(worker: WorkerSlot, n: usize) -> bool {
    exists|room: usize| #[trigger]
        room_of(worker, room) && n == channel_limit(worker.tx) - room
}

/// `rooms` was read off the channels of `workers`: for each how many more tasks
/// it takes.
pub open spec fn rooms_reading(workers: Seq<WorkerSlot>, rooms: Seq<usize>) -> bool {
    &&& rooms.len() == workers.len()
    &&& forall|i: int| 0 <= i < rooms.len() ==> room_of(workers[i], #[trigger] rooms[i])
}

/// `loads` was read off the channels of `workers`: for each how many tasks wait
/// in it.
pub open spec fn loads_reading(workers: Seq<WorkerSlot>, loads: Seq<usize>) -> bool {
    &&& loads.len() == workers.len()
    &&& forall|i: int| 0 <= i < loads.len() ==> load_of(workers[i], #[trigger] loads[i])
}

/// `readings` can be read off the clock.
pub open spec fn clock_readings(readings: Seq<Timestamp>) -> bool {
    forall|i: int| 0 <= i < readings.len() ==> (#[trigger] readings[i]).clock_reading()
}

/// `worker` is the first whose channel has room, or the first of all where
/// none has.
pub open spec fn first_with_room(rooms: Seq<usize>, worker: int) -> bool {
    &&& 0 <= worker < rooms.len()
    &&& rooms[worker] > 0 || (worker == 0 && forall|j: int|
        0 <= j < rooms.len() ==> #[trigger] rooms[j] == 0)
    &&& forall|j: int| 0 <= j < worker ==> #[trigger] rooms[j] == 0
}

/// `least` is the smallest of `loads`.
pub open spec fn smallest(loads: Seq<usize>, least: usize) -> bool {
    &&& loads.contains(least)
    &&& forall|j: int| 0 <= j < loads.len() ==> least <= #[trigger] loads[j]
}

/// `worker` is the first that, on a second reading, still carries the smallest
/// load of the first reading; `None` where none does any more.
pub open spec fn least_loaded(loads: Seq<usize>, again: Seq<usize>, worker: Option<usize>) -> bool {
    exists|least: usize| #[trigger]
        smallest(loads, least) && match worker {
            Some(w) => {
                &&& w < again.len()
                &&& again[w as int] == least
                &&& forall|j: int| 0 <= j < w ==> #[trigger] again[j] != least
            },
            None => !again.contains(least),
        }
}

/// The delayed tasks that a flush hands to the queue: those that are due at
/// `now` or at their own reading of `looks`.
pub open spec fn released(
    delayed: Seq<TaskView>,
    now: Timestamp,
    looks: Seq<Timestamp>,
) -> Seq<TaskView>
    decreases delayed.len(),
{
    if delayed.len() == 0 {
        Seq::empty()
    } else {
        let rest = released(delayed.drop_last(), now, looks.drop_last());
        if delayed.last().due(looks.last()) || delayed.last().due(now) {
            rest.push(delayed.last())
        } else {
            rest
        }
    }
}

/// The delayed tasks that a flush leaves waiting: those that are due neither
/// at `now` nor at their own reading of `looks`.
pub open spec fn held_back(
    delayed: Seq<TaskView>,
    now: Timestamp,
    looks: Seq<Timestamp>,
) -> Seq<TaskView>
    decreases delayed.len(),
{
    if delayed.len() == 0 {
        Seq::empty()
    } else {
        let rest = held_back(delayed.drop_last(), now, looks.drop_last());
        if !delayed.last().due(looks.last()) && !delayed.last().due(now) {
            rest.push(delayed.last())
        } else {
            rest
        }
    }
}

impl SchedulerView {
    /// A scheduler without workers and tasks.
    pub open spec fn idle(strategy: ScheduleStrategy, pending: usize) -> SchedulerView {
        SchedulerView {
            strategy,
            workers: Seq::empty(),
            rr_index: 0,
            queue: Multiset::empty(),
            delayed: Seq::empty(),
            pending,
        }
    }

    /// The scheduler after `task` was put into its queues at `now`.
    pub open spec fn enqueued(self, task: TaskView, now: Timestamp) -> SchedulerView {
        self.placed(task, task.due(now))
    }

    /// The scheduler after `task` was put into its queues, `ready` or not. Only
    /// `DelayedQueue` lets a task wait until it is. The strategies without
    /// queues drop it.
    pub open spec fn placed(self, task: TaskView, ready: bool) -> SchedulerView {
        match self.strategy {
            ScheduleStrategy::Priority => SchedulerView { queue: self.queue.insert(task), ..self },
            ScheduleStrategy::DelayedQueue => if ready {
                SchedulerView { queue: self.queue.insert(task), ..self }
            } else {
                SchedulerView { delayed: self.delayed.push(task), ..self }
            },
            _ => self,
        }
    }

    /// The scheduler after the delayed tasks that became due went to the
    /// queue. The flush looks at the clock once for all (`now`), then once for
    /// each task (`looks`).
    pub open spec fn flushed(self, now: Timestamp, looks: Seq<Timestamp>) -> SchedulerView {
        SchedulerView {
            queue: self.queue.add(released(self.delayed, now, looks).to_multiset()),
            delayed: held_back(self.delayed, now, looks),
            ..self
        }
    }

    /// How many tasks wait in the queues.
    pub open spec fn queued(self) -> nat {
        self.queue.len() + self.delayed.len()
    }
}

/// The foremost task of the queue is taken out and, where there is a worker,
/// to be sent to the first with room. Without a worker it is dropped. An empty
/// queue ends the dispatch.
pub open spec fn next_sent(
    pre: SchedulerView,
    rooms: Seq<usize>,
    post: SchedulerView,
    step: DispatchStepView,
) -> bool {
    if pre.queue.len() == 0 {
        post == pre && step == DispatchStepView::Finished(true)
    } else {
        exists|t: TaskView|
            {
                &&& #[trigger] pre.queue.contains(t)
                &&& foremost(pre.queue, t)
                &&& post == (SchedulerView { queue: pre.queue.remove(t), ..pre })
                &&& if pre.workers.len() == 0 {
                    step == DispatchStepView::Finished(true)
                } else {
                    step matches DispatchStepView::Send { worker, task } && task == t
                        && first_with_room(rooms, worker as int)
                }
            }
    }
}

/// `next_sent`, for some reading of the channels.
pub open spec fn next_sent_by_reading(
    pre: SchedulerView,
    post: SchedulerView,
    step: DispatchStepView,
) -> bool {
    exists|rooms: Seq<usize>| #[trigger]
        rooms_reading(pre.workers, rooms) && next_sent(pre, rooms, post, step)
}

/// `post` is `pre` flushed by some readings of the clock.
pub open spec fn flushed_by_clock(pre: SchedulerView, post: SchedulerView) -> bool {
    exists|now: Timestamp, looks: Seq<Timestamp>|
        {
            &&& now.clock_reading()
            &&& clock_readings(looks) && looks.len() == pre.delayed.len()
            &&& post == #[trigger] pre.flushed(now, looks)
        }
}

/// The queues are flushed, and the foremost task is to be sent.
pub open spec fn queues_flushed(
    pre: SchedulerView,
    post: SchedulerView,
    step: DispatchStepView,
) -> bool {
    exists|mid: SchedulerView| #[trigger]
        flushed_by_clock(pre, mid) && next_sent_by_reading(mid, post, step)
}

/// `task` is sent to the worker with the least load, as two readings of the
/// channels show it, and counted as pending; or it is refused.
pub open spec fn least_loaded_sent(
    pre: SchedulerView,
    task: TaskView,
    loads: Seq<usize>,
    again: Seq<usize>,
    post: SchedulerView,
    step: DispatchStepView,
) -> bool {
    match step {
        DispatchStepView::Send { worker, task: sent } => {
            &&& least_loaded(loads, again, Some(worker))
            &&& sent == task
            &&& post == (SchedulerView { pending: one_more(pre.pending), ..pre })
        },
        DispatchStepView::Finished(accepted) => {
            &&& least_loaded(loads, again, None)
            &&& !accepted
            &&& post == pre
        },
    }
}

/// What a dispatch of `task` begins with.
pub open spec fn dispatched(
    pre: SchedulerView,
    task: TaskView,
    post: SchedulerView,
    step: DispatchStepView,
) -> bool {
    let counted = SchedulerView { pending: one_more(pre.pending), ..pre };
    match pre.strategy {
        ScheduleStrategy::RoundRobin => if pre.workers.len() == 0 {
            post == pre && step == DispatchStepView::Finished(false)
        } else {
            &&& post == (SchedulerView { rr_index: one_more(pre.rr_index), ..counted })
            &&& step == DispatchStepView::Send {
                worker: (pre.rr_index as int % pre.workers.len() as int) as usize,
                task,
            }
        },
        ScheduleStrategy::LeastLoaded => if pre.workers.len() == 0 {
            post == pre && step == DispatchStepView::Finished(false)
        } else {
            exists|loads: Seq<usize>, again: Seq<usize>| #[trigger]
                loads_reading(pre.workers, loads) && #[trigger] loads_reading(
                    pre.workers,
                    again,
                ) && least_loaded_sent(pre, task, loads, again, post, step)
        },
        _ => exists|now: Timestamp| #[trigger]
            now.clock_reading() && queues_flushed(counted.enqueued(task, now), post, step),
    }
}

/// What follows on a send whose outcome is `delivered`.
pub open spec fn sent(
    pre: SchedulerView,
    delivered: bool,
    post: SchedulerView,
    step: DispatchStepView,
) -> bool {
    match pre.strategy {
        ScheduleStrategy::RoundRobin | ScheduleStrategy::LeastLoaded => {
            &&& step == DispatchStepView::Finished(delivered)
            &&& post == if delivered {
                pre
            } else {
                SchedulerView { pending: one_less(pre.pending), ..pre }
            }
        },
        _ => if delivered {
            next_sent_by_reading(pre, post, step)
        } else {
            post == pre && step == DispatchStepView::Finished(true)
        },
    }
}

/// The workers of a pool, the tasks that wait for them, and the rule by which
/// they are brought together.
pub struct Scheduler {
    strategy: ScheduleStrategy,
    workers: Vec<WorkerSlot>,
    rr_index: usize,
    priority_queue: TaskQueue,
    delayed_tasks: Vec<Task>,
    global_pending: usize,
}

impl View for Scheduler {
    type V = SchedulerView;

    closed spec fn view(&self) -> SchedulerView {
        SchedulerView {
            strategy: self.strategy,
            workers: self.workers@,
            rr_index: self.rr_index,
            queue: self.priority_queue@,
            delayed: views(self.delayed_tasks@),
            pending: self.global_pending,
        }
    }
}

impl Scheduler {
    /// The queue of the scheduler is in order.
    pub closed spec fn wf(&self) -> bool {
        self.priority_queue.wf()
    }

    /// A scheduler without workers, with `global_pending` tasks counted as
    /// pending.
    pub fn new(strategy: ScheduleStrategy, global_pending: usize) -> (s: Scheduler)
        ensures
            s.wf(),
            s@ == SchedulerView::idle(strategy, global_pending),
    {
        let s = Scheduler {
            strategy,
            workers: Vec::new(),
            rr_index: 0,
            priority_queue: TaskQueue::new(),
            delayed_tasks: Vec::new(),
            global_pending,
        };
        assert(s@ =~= SchedulerView::idle(strategy, global_pending));
        s
    }

    pub fn add_worker(&mut self, id: usize, tx: Sender<Task>)
        requires
            old(self).wf(),
        ensures
            final(self).wf(),
            final(self)@ == (SchedulerView {
                workers: old(self)@.workers.push(WorkerSlot { id, tx }),
                ..old(self)@
            }),
    {
        self.workers.push(WorkerSlot { id, tx });
    }

    /// Removes every worker with that id. With it goes the sending end of the
    /// worker's channel.
    pub fn remove_worker(&mut self, id: usize)
        requires
            old(self).wf(),
        ensures
            final(self).wf(),
            final(self)@ == (SchedulerView {
                workers: without_worker(old(self)@.workers, id),
                ..old(self)@
            }),
    {
        let ghost all = self.workers@;
        let ghost keep = |w: WorkerSlot| w.id != id;
        let ghost mut seen: int = 0;
        let mut i: usize = 0;
        assert(all.take(0).filter(keep) =~= Seq::<WorkerSlot>::empty()) by {
            reveal(Seq::filter);
        }
        assert(all.skip(0) =~= all);
        while i < self.workers.len()
            invariant
                0 <= seen <= all.len(),
                keep == (|w: WorkerSlot| w.id != id),
                self.workers@ =~= all.take(seen).filter(keep) + all.skip(seen),
                i == all.take(seen).filter(keep).len(),
                self.strategy == old(self).strategy,
                self.rr_index == old(self).rr_index,
                self.priority_queue == old(self).priority_queue,
                self.delayed_tasks == old(self).delayed_tasks,
                self.global_pending == old(self).global_pending,
            decreases self.workers@.len() - i,
        {
            proof {
                reveal(Seq::filter);
                assert(all.take(seen + 1).drop_last() =~= all.take(seen));
                assert(self.workers@[i as int] == all[seen]);
            }
            if self.workers[i].id == id {
                self.workers.remove(i);
            } else {
                i = i + 1;
            }
            proof {
                seen = seen + 1;
            }
        }
        assert(seen == all.len());
        assert(all.take(seen) =~= all);
    }

    pub fn worker_count(&self) -> (n: usize)
        ensures
            n == self@.workers.len(),
    {
        self.workers.len()
    }

    pub fn has_workers(&self) -> (b: bool)
        ensures
            b == (self@.workers.len() > 0),
    {
        !self.workers.is_empty()
    }

    /// The ids of the workers, in the order in which they were added.
    pub fn worker_ids(&self) -> (ids: Vec<usize>)
        ensures
            ids@ == ids_of(self@.workers),
    {
        let mut ids: Vec<usize> = Vec::new();
        let mut i: usize = 0;
        while i < self.workers.len()
            invariant
                i <= self.workers@.len(),
                ids@ =~= ids_of(self.workers@).take(i as int),
            decreases self.workers@.len() - i,
        {
            ids.push(self.workers[i].id);
            i = i + 1;
        }
        ids
    }

    /// The sending end of the channel of the worker at place `worker`.
    pub fn worker_tx(&self, worker: usize) -> (tx: &Sender<Task>)
        requires
            worker < self@.workers.len(),
        ensures
            *tx == self@.workers[worker as int].tx,
    {
        &self.workers[worker].tx
    }

    /// The tasks counted as accepted and not yet finished.
    pub fn total_pending(&self) -> (n: usize)
        ensures
            n == self@.pending,
    {
        self.global_pending
    }

    /// How many tasks wait in the queues.
    pub fn queued_count(&self) -> (n: usize)
        requires
            self@.queued() <= usize::MAX,
        ensures
            n == self@.queued(),
    {
        self.priority_queue.len() + self.delayed_tasks.len()
    }

    /// Do tasks wait in the queues?
    pub fn has_queued(&self) -> (b: bool)
        ensures
            b == (self@.queued() > 0),
    {
        self.priority_queue.len() > 0 || self.delayed_tasks.len() > 0
    }

    /// How many tasks are before the scheduler: those pending and those in the
    /// queues. `None` where the number does not fit.
    pub fn load(&self) -> (n: Option<usize>)
        ensures
            n is Some <==> self@.pending + self@.queued() <= usize::MAX,
            n matches Some(n) ==> n == self@.pending + self@.queued(),
    {
        match self.priority_queue.len().checked_add(self.delayed_tasks.len()) {
            Some(queued) => self.global_pending.checked_add(queued),
            None => None,
        }
    }

    /// Counts a pending task as finished.
    pub fn task_done(&mut self)
        requires
            old(self).wf(),
        ensures
            final(self).wf(),
            final(self)@ == (SchedulerView { pending: one_less(old(self)@.pending), ..old(self)@ }),
    {
        self.global_pending = self.global_pending.wrapping_sub(1);
    }

    /// Puts a task, ready or not, into the queues that the strategy keeps.
    fn place(&mut self, task: Task, ready: bool)
        requires
            old(self).wf(),
        ensures
            final(self).wf(),
            final(self)@ == old(self)@.placed(task@, ready),
    {
        match self.strategy {
            ScheduleStrategy::Priority => {
                self.priority_queue.push(task);
            },
            ScheduleStrategy::DelayedQueue => {
                if ready {
                    self.priority_queue.push(task);
                } else {
                    let ghost before = views(self.delayed_tasks@);
                    self.delayed_tasks.push(task);
                    assert(views(self.delayed_tasks@) =~= before.push(task@));
                }
            },
            _ => {},
        }
    }

    /// Puts a task into the queues that the strategy keeps, as of `now`.
    pub fn enqueue_at(&mut self, task: Task, now: &Timestamp)
        requires
            old(self).wf(),
        ensures
            final(self).wf(),
            final(self)@ == old(self)@.enqueued(task@, *now),
    {
        let ready = task.is_ready_at(now);
        self.place(task, ready);
    }

    /// Puts a task into the queues that the strategy keeps. The clock is read
    /// only where the strategy asks whether the task is due.
    pub fn enqueue(&mut self, task: Task)
        requires
            old(self).wf(),
        ensures
            final(self).wf(),
            old(self)@.strategy != ScheduleStrategy::DelayedQueue ==> final(self)@ == old(
                self,
            )@.placed(task@, true),
            exists|now: Timestamp| #[trigger]
                now.clock_reading() && final(self)@ == old(self)@.enqueued(task@, now),
    {
        match self.strategy {
            ScheduleStrategy::DelayedQueue => {
                let ready = task.is_ready();
                self.place(task, ready);
            },
            _ => {
                proof {
                    lemma_clock_shows_a_moment();
                }
                self.place(task, true);
            },
        }
    }

    /// Hands the delayed tasks that are due to the queue, as of the given
    /// readings of the clock.
    pub fn flush_delayed_at(&mut self, now: &Timestamp, looks: &Vec<Timestamp>)
        requires
            old(self).wf(),
            looks@.len() == old(self)@.delayed.len(),
        ensures
            final(self).wf(),
            final(self)@ == old(self)@.flushed(*now, looks@),
    {
        let ghost all = views(self.delayed_tasks@);
        let len: usize = self.delayed_tasks.len();
        let mut ready: Vec<Task> = Vec::new();
        let mut i: usize = 0;
        while i < len
            invariant
                i <= len,
                len == self.delayed_tasks@.len(),
                len == looks@.len(),
                *self == *old(self),
                all == views(self.delayed_tasks@),
                views(ready@) =~= released(all.take(i as int), *now, looks@.take(i as int)),
            decreases len - i,
        {
            let ghost before = views(ready@);
            proof {
                assert(all.take(i + 1).drop_last() =~= all.take(i as int));
                assert(looks@.take(i + 1).drop_last() =~= looks@.take(i as int));
            }
            if self.delayed_tasks[i].is_ready_at(&looks[i]) || self.delayed_tasks[i].is_ready_at(
                now,
            ) {
                let task = self.delayed_tasks[i].clone();
                assert(task@ == all[i as int]);
                ready.push(task);
                assert(views(ready@) =~= before.push(all[i as int]));
            }
            i = i + 1;
        }
        assert(all.take(len as int) =~= all);
        assert(looks@.take(len as int) =~= looks@);
        self.hold_back(now, looks);
        self.release(ready);
    }

    /// Drops the delayed tasks that are due, as of the given readings of the
    /// clock.
    fn hold_back(&mut self, now: &Timestamp, looks: &Vec<Timestamp>)
        requires
            looks@.len() == old(self).delayed_tasks@.len(),
        ensures
            *final(self) == (Scheduler { delayed_tasks: final(self).delayed_tasks, ..*old(self) }),
            views(final(self).delayed_tasks@) == held_back(
                views(old(self).delayed_tasks@),
                *now,
                looks@,
            ),
    {
        let ghost all = views(self.delayed_tasks@);
        let len: usize = self.delayed_tasks.len();
        let mut seen: usize = 0;
        let mut i: usize = 0;
        assert(all.skip(0) =~= all);
        while seen < len
            invariant
                seen <= len,
                len == all.len(),
                len == looks@.len(),
                i <= seen,
                *self == (Scheduler { delayed_tasks: self.delayed_tasks, ..*old(self) }),
                i == held_back(all.take(seen as int), *now, looks@.take(seen as int)).len(),
                views(self.delayed_tasks@) =~= held_back(
                    all.take(seen as int),
                    *now,
                    looks@.take(seen as int),
                ) + all.skip(seen as int),
            decreases len - seen,
        {
            let ghost kept = held_back(all.take(seen as int), *now, looks@.take(seen as int));
            proof {
                assert(all.take(seen + 1).drop_last() =~= all.take(seen as int));
                assert(looks@.take(seen + 1).drop_last() =~= looks@.take(seen as int));
                assert(views(self.delayed_tasks@).len() == self.delayed_tasks@.len());
                assert(views(self.delayed_tasks@)[i as int] == all[seen as int]);
                assert(self.delayed_tasks@[i as int]@ == all[seen as int]);
            }
            if !self.delayed_tasks[i].is_ready_at(&looks[seen])
                && !self.delayed_tasks[i].is_ready_at(now) {
                i = i + 1;
                assert(kept.push(all[seen as int]) + all.skip(seen + 1) =~= kept + all.skip(
                    seen as int,
                ));
            } else {
                let ghost before = self.delayed_tasks@;
                self.delayed_tasks.remove(i);
                assert(views(self.delayed_tasks@) =~= views(before).remove(i as int));
                assert(views(self.delayed_tasks@) =~= kept + all.skip(seen + 1));
            }
            seen = seen + 1;
        }
        assert(all.take(len as int) =~= all);
        assert(looks@.take(len as int) =~= looks@);
        assert(all.skip(len as int) =~= Seq::<TaskView>::empty());
    }

    /// Puts tasks into the queue.
    fn release(&mut self, ready: Vec<Task>)
        requires
            old(self).wf(),
        ensures
            final(self).wf(),
            final(self)@ == (SchedulerView {
                queue: old(self)@.queue.add(views(ready@).to_multiset()),
                ..old(self)@
            }),
    {
        let ghost all = views(ready@);
        let mut rest = ready;
        proof {
            broadcast use vstd::seq_lib::group_to_multiset_ensures;

            assert(old(self)@.queue.add(all.to_multiset()) =~= self@.queue.add(
                views(rest@).to_multiset(),
            ));
        }
        loop
            invariant
                self.wf(),
                self@ == (SchedulerView { queue: self@.queue, ..old(self)@ }),
                self@.queue.add(views(rest@).to_multiset()) == old(self)@.queue.add(
                    all.to_multiset(),
                ),
            ensures
                rest@.len() == 0,
            decreases rest@.len(),
        {
            let ghost before = views(rest@);
            let ghost queue = self@.queue;
            match rest.pop() {
                Some(task) => {
                    self.priority_queue.push(task);
                    proof {
                        broadcast use vstd::seq_lib::group_to_multiset_ensures;

                        assert(before =~= views(rest@).push(task@));
                        assert(queue.add(before.to_multiset()) =~= self@.queue.add(
                            views(rest@).to_multiset(),
                        ));
                    }
                },
                None => {
                    break;
                },
            }
        }
        proof {
            broadcast use vstd::seq_lib::group_to_multiset_ensures;

            assert(views(rest@).to_multiset() =~= Multiset::<TaskView>::empty());
            assert(self@.queue =~= self@.queue.add(views(rest@).to_multiset()));
        }
    }

    /// Hands the delayed tasks that are due to the queue.
    pub fn flush_delayed(&mut self)
        requires
            old(self).wf(),
        ensures
            final(self).wf(),
            flushed_by_clock(old(self)@, final(self)@),
    {
        let now = utc_now();
        let len: usize = self.delayed_tasks.len();
        let looks = read_clock(len);
        self.flush_delayed_at(&now, &looks);
    }

    /// Gives a task to the workers in turn.
    fn dispatch_round_robin(&mut self, task: Task) -> (step: DispatchStep)
        requires
            old(self).wf(),
        ensures
            final(self).wf(),
            if old(self)@.workers.len() == 0 {
                final(self)@ == old(self)@ && step@ == DispatchStepView::Finished(false)
            } else {
                &&& final(self)@ == (SchedulerView {
                    rr_index: one_more(old(self)@.rr_index),
                    ..old(self)@
                })
                &&& step@ == DispatchStepView::Send {
                    worker: (old(self)@.rr_index as int % old(self)@.workers.len() as int) as usize,
                    task: task@,
                }
            },
    {
        if self.workers.is_empty() {
            return DispatchStep::Finished(false);
        }
        let worker: usize = self.rr_index % self.workers.len();
        self.rr_index = self.rr_index.wrapping_add(1);
        DispatchStep::Send { worker, task }
    }

    /// Gives a task to the worker with the least load, as two readings of the
    /// loads show it.
    pub fn dispatch_least_loaded_by(
        &self,
        task: Task,
        loads: &Vec<usize>,
        again: &Vec<usize>,
    ) -> (step: DispatchStep)
        requires
            self@.workers.len() > 0,
            loads@.len() == self@.workers.len(),
            again@.len() == self@.workers.len(),
        ensures
            match step@ {
                DispatchStepView::Send { worker, task: sent } => {
                    &&& least_loaded(loads@, again@, Some(worker))
                    &&& sent == task@
                },
                DispatchStepView::Finished(accepted) => {
                    &&& least_loaded(loads@, again@, None)
                    &&& !accepted
                },
            },
    {
        match pick_least_loaded(loads, again) {
            Some(worker) => DispatchStep::Send { worker, task },
            None => DispatchStep::Finished(false),
        }
    }

    /// Gives a task to the worker with the least load.
    fn dispatch_least_loaded(&self, task: Task) -> (step: DispatchStep)
        ensures
            if self@.workers.len() == 0 {
                step@ == DispatchStepView::Finished(false)
            } else {
                exists|loads: Seq<usize>, again: Seq<usize>| #[trigger]
                    loads_reading(self@.workers, loads) && #[trigger] loads_reading(
                        self@.workers,
                        again,
                    ) && match step@ {
                        DispatchStepView::Send { worker, task: sent } => {
                            &&& least_loaded(loads, again, Some(worker))
                            &&& sent == task@
                        },
                        DispatchStepView::Finished(accepted) => {
                            &&& least_loaded(loads, again, None)
                            &&& !accepted
                        },
                    }
            },
    {
        if self.workers.is_empty() {
            return DispatchStep::Finished(false);
        }
        let loads = self.read_loads();
        let again = self.read_loads();
        self.dispatch_least_loaded_by(task, &loads, &again)
    }

    /// How many tasks wait in the channel of each worker.
    fn read_loads(&self) -> (loads: Vec<usize>)
        ensures
            loads_reading(self@.workers, loads@),
    {
        let mut loads: Vec<usize> = Vec::new();
        while loads.len() < self.workers.len()
            invariant
                loads@.len() <= self.workers@.len(),
                forall|i: int|
                    0 <= i < loads@.len() ==> load_of(self.workers@[i], #[trigger] loads@[i]),
            decreases self.workers@.len() - loads@.len(),
        {
            let worker = &self.workers[loads.len()];
            let limit: usize = slot_limit(&worker.tx);
            let room: usize = free_slots(&worker.tx);
            assert(room_of(*worker, room));
            loads.push(limit - room);
        }
        loads
    }

    /// How many more tasks the channel of each worker takes.
    fn read_rooms(&self) -> (rooms: Vec<usize>)
        ensures
            rooms_reading(self@.workers, rooms@),
    {
        let mut rooms: Vec<usize> = Vec::new();
        while rooms.len() < self.workers.len()
            invariant
                rooms@.len() <= self.workers@.len(),
                forall|i: int|
                    0 <= i < rooms@.len() ==> room_of(self.workers@[i], #[trigger] rooms@[i]),
            decreases self.workers@.len() - rooms@.len(),
        {
            rooms.push(free_slots(&self.workers[rooms.len()].tx));
        }
        rooms
    }

    /// Gives a task to the first worker with room, or to the first of all
    /// where none has.
    fn dispatch_to_any(&self, task: Task, rooms: &Vec<usize>) -> (step: DispatchStep)
        requires
            rooms@.len() == self@.workers.len(),
        ensures
            if self@.workers.len() == 0 {
                step@ == DispatchStepView::Finished(false)
            } else {
                step@ matches DispatchStepView::Send { worker, task: sent } && sent == task@
                    && first_with_room(rooms@, worker as int)
            },
    {
        if self.workers.is_empty() {
            return DispatchStep::Finished(false);
        }
        DispatchStep::Send { worker: pick_with_room(rooms), task }
    }

    /// Takes the foremost task out of the queue and gives it to a worker, as
    /// the rooms in the workers' channels show it.
    pub fn send_next_by(&mut self, rooms: &Vec<usize>) -> (step: DispatchStep)
        requires
            old(self).wf(),
            rooms@.len() == old(self)@.workers.len(),
        ensures
            final(self).wf(),
            next_sent(old(self)@, rooms@, final(self)@, step@),
    {
        match self.priority_queue.pop() {
            Some(task) => {
                assert(old(self)@.queue.contains(task@));
                match self.dispatch_to_any(task, rooms) {
                    DispatchStep::Finished(_) => DispatchStep::Finished(true),
                    step => step,
                }
            },
            None => DispatchStep::Finished(true),
        }
    }

    /// Takes the foremost task out of the queue and gives it to a worker.
    fn send_next(&mut self) -> (step: DispatchStep)
        requires
            old(self).wf(),
        ensures
            final(self).wf(),
            next_sent_by_reading(old(self)@, final(self)@, step@),
    {
        let rooms = self.read_rooms();
        self.send_next_by(&rooms)
    }

    /// Begins to empty the queues: hands the delayed tasks that are due to the
    /// queue, and takes out the foremost.
    pub fn flush_queues(&mut self) -> (step: DispatchStep)
        requires
            old(self).wf(),
        ensures
            final(self).wf(),
            queues_flushed(old(self)@, final(self)@, step@),
    {
        self.flush_delayed();
        self.send_next()
    }

    /// Begins the dispatch of a task. The task counts as pending, unless it is
    /// refused.
    pub fn dispatch(&mut self, task: Task) -> (step: DispatchStep)
        requires
            old(self).wf(),
        ensures
            final(self).wf(),
            dispatched(old(self)@, task@, final(self)@, step@),
    {
        self.global_pending = self.global_pending.wrapping_add(1);
        let step = match self.strategy {
            ScheduleStrategy::RoundRobin => self.dispatch_round_robin(task),
            ScheduleStrategy::LeastLoaded => self.dispatch_least_loaded(task),
            ScheduleStrategy::Priority | ScheduleStrategy::DelayedQueue => {
                self.enqueue(task);
                self.flush_queues()
            },
        };
        if let DispatchStep::Finished(false) = step {
            self.global_pending = self.global_pending.wrapping_sub(1);
        }
        step
    }

    /// Goes on with a dispatch after a send. A task of the queues that could
    /// not be delivered is dropped and stays counted as pending.
    pub fn after_send(&mut self, delivered: bool) -> (step: DispatchStep)
        requires
            old(self).wf(),
        ensures
            final(self).wf(),
            sent(old(self)@, delivered, final(self)@, step@),
    {
        match self.strategy {
            ScheduleStrategy::RoundRobin | ScheduleStrategy::LeastLoaded => {
                if !delivered {
                    self.global_pending = self.global_pending.wrapping_sub(1);
                }
                DispatchStep::Finished(delivered)
            },
            ScheduleStrategy::Priority | ScheduleStrategy::DelayedQueue => {
                if delivered {
                    self.send_next()
                } else {
                    DispatchStep::Finished(true)
                }
            },
        }
    }
}

/// The first worker whose channel has room, or the first of all where none
/// has.
pub fn pick_with_room(rooms: &Vec<usize>) -> (worker: usize)
    requires
        rooms@.len() > 0,
    ensures
        first_with_room(rooms@, worker as int),
{
    let mut i: usize = 0;
    while i < rooms.len()
        invariant
            i <= rooms@.len(),
            forall|j: int| 0 <= j < i ==> #[trigger] rooms@[j] == 0,
        decreases rooms@.len() - i,
    {
        if rooms[i] > 0 {
            return i;
        }
        i = i + 1;
    }
    0
}

/// The first worker that, on a second reading, still carries the smallest load
/// of the first reading.
pub fn pick_least_loaded(loads: &Vec<usize>, again: &Vec<usize>) -> (worker: Option<usize>)
    requires
        loads@.len() > 0,
    ensures
        least_loaded(loads@, again@, worker),
{
    let mut least: usize = loads[0];
    let mut i: usize = 1;
    while i < loads.len()
        invariant
            1 <= i <= loads@.len(),
            exists|j: int| 0 <= j < i && #[trigger] loads@[j] == least,
            forall|j: int| 0 <= j < i ==> least <= #[trigger] loads@[j],
        decreases loads@.len() - i,
    {
        if loads[i] < least {
            least = loads[i];
        }
        i = i + 1;
    }
    assert(smallest(loads@, least));
    let mut k: usize = 0;
    while k < again.len()
        invariant
            k <= again@.len(),
            smallest(loads@, least),
            forall|j: int| 0 <= j < k ==> #[trigger] again@[j] != least,
        decreases again@.len() - k,
    {
        if again[k] == least {
            return Some(k);
        }
        k = k + 1;
    }
    None
}

/// As many readings of the clock as asked for.
fn read_clock(count: usize) -> (readings: Vec<Timestamp>)
    ensures
        readings@.len() == count,
        clock_readings(readings@),
{
    let mut readings: Vec<Timestamp> = Vec::new();
    while readings.len() < count
        invariant
            readings@.len() <= count,
            clock_readings(readings@),
        decreases count - readings@.len(),
    {
        readings.push(utc_now());
    }
    readings
}

} // verus!
