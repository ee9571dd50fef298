//! The pool as a whole: its workers, its tasks, its growing and shrinking, and
//! its end.

use crate::channel::{
    another_sender, channel_limit, connected, offer, offer_met, task_channel, Offer,
};
use crate::dead_letter::{DeadLetterQueue, DeadLetterView};
use crate::metrics::{Metrics, MetricsCounters};
use crate::scheduler::{
    dispatched, ids_of, one_less, one_more, queues_flushed, sent, without_worker, DispatchStep,
    Scheduler, SchedulerView, WorkerSlot,
};
use crate::time::{Delay, Timestamp, NANOS_PER_SEC};
use crate::types::{PoolConfig, SubmitError, Task};
use crate::worker::{buried, counted, settle, settle_at, TaskResult, TaskResultView};
use tokio::sync::mpsc::{Receiver, Sender};
use vstd::prelude::*;

verus! {

/// How many tasks the channel of a worker holds.
pub const WORKER_CHANNEL_SIZE: usize = 256;

/// The pause between two looks at the workers while the pool shuts down.
pub const SHUTDOWN_POLL_MILLIS: u64 = 100;

/// The pause between two looks at the tasks that wait in the queues.
pub const FLUSH_INTERVAL_MILLIS: u64 = 100;

/// A worker that is about to start.
pub struct NewWorker {
    /// What the scheduler is to know of it.
    pub slot: WorkerSlot,
    /// The receiving end of its channel.
    pub rx: Receiver<Task>,
}

/// What a pool starts with.
pub struct Startup {
    pub workers: Vec<NewWorker>,
    /// The receiving end of the channel for submitted tasks.
    pub task_rx: Receiver<Task>,
}

/// Whether the pool is to grow or to shrink, and by how many workers.
#[derive(Debug, Clone, Copy, PartialEq, Eq, Structural)]
pub enum ScaleDecision {
    Hold,
    Up(usize),
    Down(usize),
}

/// What a look at the load of the pool led to.
pub enum ScaleStep {
    /// The pool shuts down; look no more.
    Stop,
    Hold,
    /// These workers are to be started.
    Spawn(Vec<NewWorker>),
    /// The workers with these ids were removed.
    Removed(Vec<usize>),
}

/// What to do next while the pool shuts down.
#[derive(Debug, Clone, Copy, PartialEq, Eq, Structural)]
pub enum ShutdownStep {
    /// Wait that long, then look again.
    Wait(Delay),
    /// All workers have stopped.
    Complete,
    /// Time is up, with that many workers left.
    TimedOut(usize),
}

/// The larger of the two.
pub open spec fn larger(a: int, b: int) -> int {
    if a >= b {
        a
    } else {
        b
    }
}

/// The smaller of the two.
pub open spec fn smaller(a: int, b: int) -> int {
    if a <= b {
        a
    } else {
        b
    }
}

/// A pool with more than the threshold of tasks before it, and not yet the
/// most workers, grows.
pub open spec fn grows(config: PoolConfig, pending: usize, workers: usize) -> bool {
    pending > config.scale_up_threshold && workers < config.max_workers
}

/// A pool without a task before it, with more than the fewest workers, and
/// idle for the idle timeout, shrinks.
pub open spec fn shrinks(config: PoolConfig, pending: usize, workers: usize, idle: nat) -> bool {
    pending == 0 && workers > config.min_workers && idle >= config.idle_timeout_secs * NANOS_PER_SEC
}

/// How many workers a growing pool aims at: one for each threshold of tasks,
/// at least one more than now, at most as many as allowed.
pub open spec fn target_workers(config: PoolConfig, pending: usize, workers: usize) -> int {
    smaller(
        larger(pending as int / config.scale_up_threshold as int, workers + 1),
        config.max_workers as int,
    )
}

/// The rule by which the pool grows and shrinks. A shrinking pool goes down to
/// the fewest workers at once.
pub open spec fn scale_rule(
    config: PoolConfig,
    pending: usize,
    workers: usize,
    idle: nat,
) -> ScaleDecision {
    if grows(config, pending, workers) {
        ScaleDecision::Up((target_workers(config, pending, workers) - workers) as usize)
    } else if shrinks(config, pending, workers, idle) {
        ScaleDecision::Down((workers - config.min_workers) as usize)
    } else {
        ScaleDecision::Hold
    }
}

/// Whether the pool is to grow or to shrink, with `pending` tasks before it,
/// `workers` workers, and idle for `idle_for`.
pub fn scale_decision(
    config: &PoolConfig,
    pending: usize,
    workers: usize,
    idle_for: &Delay,
) -> (decision: ScaleDecision)
    requires
        grows(*config, pending, workers) ==> config.scale_up_threshold > 0,
    ensures
        decision == scale_rule(*config, pending, workers, idle_for@),
{
    if pending > config.scale_up_threshold && workers < config.max_workers {
        let wanted: usize = pending / config.scale_up_threshold;
        let at_least: usize = if wanted >= workers + 1 {
            wanted
        } else {
            workers + 1
        };
        let target: usize = if at_least <= config.max_workers {
            at_least
        } else {
            config.max_workers
        };
        ScaleDecision::Up(target - workers)
    } else if pending == 0 && workers > config.min_workers && idle_for.at_least(
        &Delay::from_secs(config.idle_timeout_secs),
    ) {
        ScaleDecision::Down(workers - config.min_workers)
    } else {
        ScaleDecision::Hold
    }
}

/// The id that is given out after `count` others, with `next` the first.
pub open spec fn id_after(next: usize, count: nat) -> usize
    decreases count,
{
    if count == 0 {
        next
    } else {
        one_more(id_after(next, (count - 1) as nat))
    }
}

/// `workers` are new ones: their ids follow on from `next`, and each has a
/// channel of the usual size of its own.
pub open spec fn fresh_workers(workers: Seq<NewWorker>, next: usize) -> bool {
    forall|i: int|
        0 <= i < workers.len() ==> {
            &&& (#[trigger] workers[i]).slot.id == id_after(next, i as nat)
            &&& channel_limit(workers[i].slot.tx) == WORKER_CHANNEL_SIZE
            &&& connected(workers[i].slot.tx, workers[i].rx)
        }
}

/// The workers without those whose ids are in `ids`.
pub open spec fn without_workers(workers: Seq<WorkerSlot>, ids: Seq<usize>) -> Seq<WorkerSlot>
    decreases ids.len(),
{
    if ids.len() == 0 {
        workers
    } else {
        without_worker(without_workers(workers, ids.drop_last()), ids.last())
    }
}

/// The ids of the last `count` workers, the last first.
pub open spec fn last_ids(workers: Seq<WorkerSlot>, count: int) -> Seq<usize> {
    ids_of(workers).reverse().take(count)
}

/// What a `Pool` holds.
#[verifier::ext_equal]
pub struct PoolView {
    pub config: PoolConfig,
    /// Where tasks are submitted; gone once the pool shuts down.
    pub task_tx: Option<Sender<Task>>,
    /// Where submitted tasks come out; gone once the pool was started.
    pub task_rx: Option<Receiver<Task>>,
    pub scheduler: SchedulerView,
    pub counters: MetricsCounters,
    pub dead_letter: DeadLetterView,
    pub shutting_down: bool,
    pub next_worker_id: usize,
    /// How many workers run.
    pub active_workers: usize,
    /// When a task last ended, in nanoseconds on the pool's own clock.
    pub last_activity: nat,
}

impl PoolView {
    /// How many tasks the pool has before it.
    pub open spec fn load(self) -> int {
        self.scheduler.pending + self.scheduler.queued()
    }

    /// For how long the pool has been idle at `now`.
    pub open spec fn idle_for(self, now: nat) -> nat {
        if now >= self.last_activity {
            (now - self.last_activity) as nat
        } else {
            0
        }
    }

    /// The decision on growing and shrinking at `now`.
    pub open spec fn decision(self, now: nat) -> ScaleDecision {
        scale_rule(
            self.config,
            self.load() as usize,
            self.scheduler.workers.len() as usize,
            self.idle_for(now),
        )
    }

    /// The load can be looked at: it fits a number, and a pool that is to grow
    /// has a threshold to measure it by.
    pub open spec fn scalable(self) -> bool {
        ||| self.shutting_down
        ||| {
            &&& self.load() <= usize::MAX
            &&& grows(self.config, self.load() as usize, self.scheduler.workers.len() as usize)
                ==> self.config.scale_up_threshold > 0
        }
    }

    /// Tasks wait in the queues, and there is a worker to send them to.
    pub open spec fn flushable(self) -> bool {
        self.scheduler.workers.len() > 0 && self.scheduler.queued() > 0
    }

    /// The pool after the end of a task was booked.
    pub open spec fn after_task(
        self,
        result: TaskResultView,
        now: nat,
        failed_at: Timestamp,
    ) -> PoolView {
        PoolView {
            scheduler: SchedulerView { pending: one_less(self.scheduler.pending), ..self.scheduler },
            counters: counted(self.counters, result),
            dead_letter: buried(self.dead_letter, result, failed_at),
            last_activity: now,
            ..self
        }
    }

    /// The pool after it was told to shut down: it accepts no more tasks, and
    /// the workers and the waiting tasks are let go.
    pub open spec fn shut(self) -> PoolView {
        PoolView {
            task_tx: None,
            scheduler: SchedulerView::idle(self.config.schedule_strategy, self.scheduler.pending),
            shutting_down: true,
            ..self
        }
    }
}

/// `pool` was made with `config` at `now`: it is open, not yet started, and has
/// neither workers nor tasks.
pub open spec fn new_pool(config: PoolConfig, now: nat, pool: PoolView) -> bool {
    &&& pool.task_tx matches Some(tx) && channel_limit(tx) == config.max_queue_size
    &&& pool.task_rx matches Some(rx) && connected(pool.task_tx->0, rx)
    &&& pool == (PoolView {
        config,
        task_tx: pool.task_tx,
        task_rx: pool.task_rx,
        scheduler: SchedulerView::idle(config.schedule_strategy, 0),
        counters: MetricsCounters::zero(),
        dead_letter: DeadLetterView { entries: Seq::empty(), max_size: config.max_queue_size },
        shutting_down: false,
        next_worker_id: 0,
        active_workers: 0,
        last_activity: now,
    })
}

/// The start of a pool hands out its receiving end and `workers`, the fewest
/// that it may have.
pub open spec fn started(
    pre: PoolView,
    workers: Seq<NewWorker>,
    task_rx: Receiver<Task>,
    post: PoolView,
) -> bool {
    &&& pre.task_rx == Some(task_rx)
    &&& workers.len() == pre.config.min_workers
    &&& fresh_workers(workers, pre.next_worker_id)
    &&& post == (PoolView {
        task_rx: None,
        next_worker_id: id_after(pre.next_worker_id, workers.len()),
        ..pre
    })
}

/// What a look at the load at `now` makes of the pool.
pub open spec fn scaled(pre: PoolView, now: nat, post: PoolView, step: ScaleStep) -> bool {
    if pre.shutting_down {
        step is Stop && post == pre
    } else {
        match pre.decision(now) {
            ScaleDecision::Hold => step is Hold && post == pre,
            ScaleDecision::Up(count) => {
                &&& step matches ScaleStep::Spawn(workers) && workers@.len() == count
                    && fresh_workers(workers@, pre.next_worker_id)
                &&& post == (PoolView {
                    next_worker_id: id_after(pre.next_worker_id, count as nat),
                    ..pre
                })
            },
            ScaleDecision::Down(count) => {
                let ids = last_ids(pre.scheduler.workers, count as int);
                &&& step matches ScaleStep::Removed(removed) && removed@ == ids
                &&& post == (PoolView {
                    scheduler: SchedulerView {
                        workers: without_workers(pre.scheduler.workers, ids),
                        ..pre.scheduler
                    },
                    ..pre
                })
            },
        }
    }
}

/// The state of a pool.
pub struct Pool {
    config: PoolConfig,
    task_tx: Option<Sender<Task>>,
    task_rx: Option<Receiver<Task>>,
    scheduler: Scheduler,
    counters: MetricsCounters,
    dead_letter: DeadLetterQueue,
    shutting_down: bool,
    next_worker_id: usize,
    active_workers: usize,
    last_activity: Delay,
}

impl View for Pool {
    type V = PoolView;

    closed spec fn view(&self) -> PoolView {
        PoolView {
            config: self.config,
            task_tx: self.task_tx,
            task_rx: self.task_rx,
            scheduler: self.scheduler@,
            counters: self.counters,
            dead_letter: self.dead_letter@,
            shutting_down: self.shutting_down,
            next_worker_id: self.next_worker_id,
            active_workers: self.active_workers,
            last_activity: self.last_activity@,
        }
    }
}

impl Pool {
    /// The scheduler of the pool is in order.
    pub closed spec fn wf(&self) -> bool {
        self.scheduler.wf()
    }

    /// A pool made at `now`, without workers.
    pub fn new(config: PoolConfig, now: Delay) -> (p: Pool)
        requires
            0 < config.max_queue_size <= usize::MAX / 8,
        ensures
            p.wf(),
            new_pool(config, now@, p@),
    {
        let (task_tx, task_rx) = task_channel(config.max_queue_size);
        Pool {
            config,
            task_tx: Some(task_tx),
            task_rx: Some(task_rx),
            scheduler: Scheduler::new(config.schedule_strategy, 0),
            counters: MetricsCounters::default(),
            dead_letter: DeadLetterQueue::new(config.max_queue_size),
            shutting_down: false,
            next_worker_id: 0,
            active_workers: 0,
            last_activity: now,
        }
    }

    /// Can a handle for submitting be had? Not once the pool shuts down.
    pub fn is_open(&self) -> (b: bool)
        ensures
            b == (self@.task_tx is Some),
    {
        self.task_tx.is_some()
    }

    /// A handle by which tasks are submitted.
    pub fn submitter(&self) -> (s: PoolSubmitter)
        requires
            self@.task_tx is Some,
        ensures
            channel_limit(s.task_tx) == channel_limit(self@.task_tx->0),
            forall|rx: Receiver<Task>| #[trigger]
                connected(s.task_tx, rx) == connected(self@.task_tx->0, rx),
    {
        PoolSubmitter { task_tx: another_sender(self.task_tx.as_ref().unwrap()) }
    }

    /// The parts of the pool that its numbers are read from.
    pub fn metrics(&self) -> (m: Metrics<'_>)
        ensures
            *m.counters == self@.counters,
            m.scheduler@ == self@.scheduler,
            m.active_workers == self@.active_workers,
            m.dead_letter@ == self@.dead_letter,
    {
        Metrics::new(&self.counters, &self.scheduler, self.active_workers, &self.dead_letter)
    }

    /// The tasks that were given up.
    pub fn dead_letter(&mut self) -> (q: &mut DeadLetterQueue)
        requires
            old(self).wf(),
        ensures
            q@ == old(self)@.dead_letter,
            final(self).wf(),
            final(self)@ == (PoolView { dead_letter: final(q)@, ..old(self)@ }),
    {
        &mut self.dead_letter
    }

    /// Has the pool been told to shut down?
    pub fn shutting_down(&self) -> (b: bool)
        ensures
            b == self@.shutting_down,
    {
        self.shutting_down
    }

    /// Tells the pool that it is to shut down, without letting go of anything.
    pub fn request_shutdown(&mut self)
        requires
            old(self).wf(),
        ensures
            final(self).wf(),
            final(self)@ == (PoolView { shutting_down: true, ..old(self)@ }),
    {
        self.shutting_down = true;
    }

    pub fn config(&self) -> (c: PoolConfig)
        ensures
            c == self@.config,
    {
        self.config
    }

    /// The scheduler of the pool.
    pub fn scheduler(&self) -> (s: &Scheduler)
        ensures
            s@ == self@.scheduler,
    {
        &self.scheduler
    }

    /// Gives out an id and a channel for a new worker.
    fn spawn_worker(&mut self) -> (worker: NewWorker)
        requires
            old(self).wf(),
        ensures
            final(self).wf(),
            final(self)@ == (PoolView {
                next_worker_id: one_more(old(self)@.next_worker_id),
                ..old(self)@
            }),
            worker.slot.id == old(self)@.next_worker_id,
            channel_limit(worker.slot.tx) == WORKER_CHANNEL_SIZE,
            connected(worker.slot.tx, worker.rx),
    {
        let id: usize = self.next_worker_id;
        self.next_worker_id = id.wrapping_add(1);
        let (tx, rx) = task_channel(WORKER_CHANNEL_SIZE);
        NewWorker { slot: WorkerSlot { id, tx }, rx }
    }

    /// Gives out ids and channels for `count` new workers.
    fn spawn_workers(&mut self, count: usize) -> (workers: Vec<NewWorker>)
        requires
            old(self).wf(),
        ensures
            final(self).wf(),
            final(self)@ == (PoolView {
                next_worker_id: id_after(old(self)@.next_worker_id, count as nat),
                ..old(self)@
            }),
            workers@.len() == count,
            fresh_workers(workers@, old(self)@.next_worker_id),
    {
        let mut workers: Vec<NewWorker> = Vec::new();
        while workers.len() < count
            invariant
                self.wf(),
                workers@.len() <= count,
                fresh_workers(workers@, old(self)@.next_worker_id),
                self@ == (PoolView {
                    next_worker_id: id_after(old(self)@.next_worker_id, workers@.len()),
                    ..old(self)@
                }),
            decreases count - workers@.len(),
        {
            let worker = self.spawn_worker();
            workers.push(worker);
        }
        workers
    }

    /// Can the pool be started? Only once.
    pub fn can_start(&self) -> (b: bool)
        ensures
            b == (self@.task_rx is Some),
    {
        self.task_rx.is_some()
    }

    /// Starts the pool, with the fewest workers.
    pub fn start(&mut self) -> (startup: Startup)
        requires
            old(self).wf(),
            old(self)@.task_rx is Some,
        ensures
            final(self).wf(),
            started(old(self)@, startup.workers@, startup.task_rx, final(self)@),
    {
        let workers = self.spawn_workers(self.config.min_workers);
        let task_rx = self.task_rx.take().unwrap();
        Startup { workers, task_rx }
    }

    /// Makes a new worker known to the scheduler.
    pub fn add_worker(&mut self, slot: WorkerSlot)
        requires
            old(self).wf(),
        ensures
            final(self).wf(),
            final(self)@ == (PoolView {
                scheduler: SchedulerView {
                    workers: old(self)@.scheduler.workers.push(slot),
                    ..old(self)@.scheduler
                },
                ..old(self)@
            }),
    {
        self.scheduler.add_worker(slot.id, slot.tx);
    }

    /// A worker has begun to take tasks.
    pub fn worker_started(&mut self)
        requires
            old(self).wf(),
        ensures
            final(self).wf(),
            final(self)@ == (PoolView {
                active_workers: one_more(old(self)@.active_workers),
                ..old(self)@
            }),
    {
        self.active_workers = self.active_workers.wrapping_add(1);
    }

    /// A worker has found its channel closed and stopped.
    pub fn worker_stopped(&mut self)
        requires
            old(self).wf(),
        ensures
            final(self).wf(),
            final(self)@ == (PoolView {
                active_workers: one_less(old(self)@.active_workers),
                ..old(self)@
            }),
    {
        self.active_workers = self.active_workers.wrapping_sub(1);
    }

    /// Counts a submitted task and begins its dispatch.
    pub fn dispatch(&mut self, task: Task) -> (step: DispatchStep)
        requires
            old(self).wf(),
        ensures
            final(self).wf(),
            dispatched(old(self)@.scheduler, task@, final(self)@.scheduler, step@),
            final(self)@ == (PoolView {
                scheduler: final(self)@.scheduler,
                counters: old(self)@.counters.with_submitted(),
                ..old(self)@
            }),
    {
        self.counters.count_submitted();
        self.scheduler.dispatch(task)
    }

    /// Goes on with a dispatch after a send.
    pub fn after_send(&mut self, delivered: bool) -> (step: DispatchStep)
        requires
            old(self).wf(),
        ensures
            final(self).wf(),
            sent(old(self)@.scheduler, delivered, final(self)@.scheduler, step@),
            final(self)@ == (PoolView { scheduler: final(self)@.scheduler, ..old(self)@ }),
    {
        self.scheduler.after_send(delivered)
    }

    /// Is there reason to flush the queues: a task that waits in them, and a
    /// worker to send it to?
    pub fn can_flush(&self) -> (b: bool)
        ensures
            b == self@.flushable(),
    {
        self.scheduler.has_workers() && self.scheduler.has_queued()
    }

    /// Begins to empty the queues without a new task, so that a delayed task
    /// runs when its delay is over. After each send `after_send` goes on.
    pub fn flush_queues(&mut self) -> (step: DispatchStep)
        requires
            old(self).wf(),
        ensures
            final(self).wf(),
            queues_flushed(old(self)@.scheduler, final(self)@.scheduler, step@),
            final(self)@ == (PoolView { scheduler: final(self)@.scheduler, ..old(self)@ }),
    {
        self.scheduler.flush_queues()
    }

    /// Books the end of a task at `now`; where it is given up, as of
    /// `failed_at`.
    pub fn task_finished_at(&mut self, result: TaskResult, now: Delay, failed_at: Timestamp)
        requires
            old(self).wf(),
            result@.result is Success ==> result.elapsed_ms * 1000 <= u64::MAX,
        ensures
            final(self).wf(),
            final(self)@ == old(self)@.after_task(result@, now@, failed_at),
    {
        settle_at(result, &mut self.counters, &mut self.dead_letter, failed_at);
        self.scheduler.task_done();
        self.last_activity = now;
    }

    /// Books the end of a task at `now`. The calendar clock is read only where
    /// the task is given up.
    pub fn task_finished(&mut self, result: TaskResult, now: Delay)
        requires
            old(self).wf(),
            result@.result is Success ==> result.elapsed_ms * 1000 <= u64::MAX,
        ensures
            final(self).wf(),
            exists|failed_at: Timestamp| #[trigger]
                failed_at.clock_reading() && final(self)@ == old(self)@.after_task(
                    result@,
                    now@,
                    failed_at,
                ),
    {
        settle(result, &mut self.counters, &mut self.dead_letter);
        self.scheduler.task_done();
        self.last_activity = now;
    }

    /// Can the load be looked at? Not where it does not fit a number, nor where
    /// a pool that is to grow has no threshold to measure it by.
    pub fn can_scale(&self) -> (b: bool)
        ensures
            b == self@.scalable(),
    {
        if self.shutting_down {
            return true;
        }
        match self.scheduler.load() {
            Some(pending) => !(pending > self.config.scale_up_threshold
                && self.scheduler.worker_count() < self.config.max_workers)
                || self.config.scale_up_threshold > 0,
            None => false,
        }
    }

    /// Looks at the load at `now`, and lets the pool grow or shrink.
    pub fn scale_check(&mut self, now: Delay) -> (step: ScaleStep)
        requires
            old(self).wf(),
            old(self)@.scalable(),
        ensures
            final(self).wf(),
            scaled(old(self)@, now@, final(self)@, step),
    {
        if self.shutting_down {
            return ScaleStep::Stop;
        }
        let pending: usize = self.scheduler.total_pending() + self.scheduler.queued_count();
        let workers: usize = self.scheduler.worker_count();
        let idle_for = now.saturating_sub(self.last_activity);
        match scale_decision(&self.config, pending, workers, &idle_for) {
            ScaleDecision::Hold => ScaleStep::Hold,
            ScaleDecision::Up(count) => ScaleStep::Spawn(self.spawn_workers(count)),
            ScaleDecision::Down(count) => ScaleStep::Removed(self.remove_last(count)),
        }
    }

    /// Removes the last `count` workers, and every other with one of their
    /// ids.
    fn remove_last(&mut self, count: usize) -> (removed: Vec<usize>)
        requires
            old(self).wf(),
            count <= old(self)@.scheduler.workers.len(),
        ensures
            final(self).wf(),
            removed@ == last_ids(old(self)@.scheduler.workers, count as int),
            final(self)@ == (PoolView {
                scheduler: SchedulerView {
                    workers: without_workers(old(self)@.scheduler.workers, removed@),
                    ..old(self)@.scheduler
                },
                ..old(self)@
            }),
    {
        let ids = self.scheduler.worker_ids();
        let ghost all = self@.scheduler.workers;
        let mut removed: Vec<usize> = Vec::new();
        while removed.len() < count
            invariant
                self.wf(),
                ids@ == ids_of(all),
                all == old(self)@.scheduler.workers,
                count <= all.len(),
                removed@.len() <= count,
                removed@ =~= last_ids(all, removed@.len() as int),
                self@ == (PoolView {
                    scheduler: SchedulerView {
                        workers: without_workers(all, removed@),
                        ..old(self)@.scheduler
                    },
                    ..old(self)@
                }),
            decreases count - removed@.len(),
        {
            let ghost before = removed@;
            let id: usize = ids[ids.len() - 1 - removed.len()];
            self.scheduler.remove_worker(id);
            removed.push(id);
            assert(removed@.drop_last() =~= before);
        }
        removed
    }

    /// Begins to shut the pool down.
    pub fn shutdown(&mut self)
        requires
            old(self).wf(),
        ensures
            final(self).wf(),
            final(self)@ == old(self)@.shut(),
    {
        self.shutting_down = true;
        self.task_tx = None;
        self.scheduler = Scheduler::new(
            self.config.schedule_strategy,
            self.scheduler.total_pending(),
        );
    }

    /// What to do next, `waited` after the pool began to shut down.
    pub fn shutdown_progress(&self, waited: Delay) -> (step: ShutdownStep)
        ensures
            step is Wait <==> self@.active_workers > 0 && waited@
                < self@.config.shutdown_timeout_secs * NANOS_PER_SEC,
            step is Complete <==> self@.active_workers == 0,
            step matches ShutdownStep::Wait(pause) ==> pause@ == SHUTDOWN_POLL_MILLIS * 1_000_000,
            step matches ShutdownStep::TimedOut(remaining) ==> remaining == self@.active_workers,
    {
        let timeout = Delay::from_secs(self.config.shutdown_timeout_secs);
        if self.active_workers == 0 {
            ShutdownStep::Complete
        } else if waited.at_least(&timeout) {
            ShutdownStep::TimedOut(self.active_workers)
        } else {
            ShutdownStep::Wait(Delay::from_millis(SHUTDOWN_POLL_MILLIS))
        }
    }
}

/// What to do with a submitted task.
pub enum SubmitStep {
    /// Send it to the pool, and turn the outcome into the answer with
    /// `send_answer`.
    Send(Task),
    Refused(SubmitError),
}

/// A handle by which tasks are submitted.
pub struct PoolSubmitter {
    pub task_tx: Sender<Task>,
}

/// The answer to a task that was offered to the pool's channel.
pub open spec fn offer_answered(outcome: Offer) -> Result<(), SubmitError> {
    match outcome {
        Offer::Sent => Ok(()),
        Offer::Full => Err(SubmitError::QueueFull),
        Offer::Closed => Err(SubmitError::ShuttingDown),
    }
}

/// The answer to a task that was offered to the pool's channel.
pub fn offer_answer(outcome: Offer) -> (answer: Result<(), SubmitError>)
    ensures
        answer == offer_answered(outcome),
{
    match outcome {
        Offer::Sent => Ok(()),
        Offer::Full => Err(SubmitError::QueueFull),
        Offer::Closed => Err(SubmitError::ShuttingDown),
    }
}

/// The answer to a task that was sent to the pool's channel.
pub fn send_answer(delivered: bool) -> (answer: Result<(), SubmitError>)
    ensures
        answer == if delivered {
            Ok(())
        } else {
            Err(SubmitError::ShuttingDown)
        },
{
    if delivered {
        Ok(())
    } else {
        Err(SubmitError::ShuttingDown)
    }
}

impl PoolSubmitter {
    /// Submits a task, to wait where the pool's channel is full.
    /// `shutting_down` says whether the pool has been told to shut down.
    pub fn submit(&self, task: Task, shutting_down: bool) -> (step: SubmitStep)
        ensures
            step == if shutting_down {
                SubmitStep::Refused(SubmitError::ShuttingDown)
            } else {
                SubmitStep::Send(task)
            },
    {
        if shutting_down {
            return SubmitStep::Refused(SubmitError::ShuttingDown);
        }
        SubmitStep::Send(task)
    }

    /// Submits a task without waiting. A pool that has been told to shut down
    /// refuses it; else the channel decides.
    pub fn try_submit(&self, task: Task, shutting_down: bool) -> (answer: Result<(), SubmitError>)
        ensures
            shutting_down ==> answer == Err::<(), SubmitError>(SubmitError::ShuttingDown),
            !shutting_down ==> exists|outcome: Offer| #[trigger]
                offer_met(self.task_tx, task@, outcome) && answer == offer_answered(outcome),
    {
        if shutting_down {
            return Err(SubmitError::ShuttingDown);
        }
        offer_answer(offer(&self.task_tx, task))
    }
}

impl Clone for PoolSubmitter {
    /// Another handle for the same pool.
    fn clone(&self) -> (s: PoolSubmitter)
        ensures
            channel_limit(s.task_tx) == channel_limit(self.task_tx),
            forall|rx: Receiver<Task>| #[trigger]
                connected(s.task_tx, rx) == connected(self.task_tx, rx),
    {
        PoolSubmitter { task_tx: another_sender(&self.task_tx) }
    }
}

} // verus!
