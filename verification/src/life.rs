//! What holds over the whole life of a pool.

use crate::channel::{channel_limit, connected};
use crate::dead_letter::DeadLetterView;
use crate::laws::{
    count_changed, law_adding_keeps_ids_distinct, law_pending_balances, law_removed_worker_is_gone,
    law_removing_keeps_ids_distinct, law_scale_check_follows_the_load, lemma_counts_add_up,
    lemma_id_after, pending_changed, sum_of,
};
use crate::pool::{
    fresh_workers, id_after, new_pool, scaled, started, without_workers, NewWorker, PoolView,
    ScaleStep, WORKER_CHANNEL_SIZE,
};
use crate::scheduler::{
    dispatched, ids_of, one_less, one_more, queues_flushed, sent, DispatchStepView, SchedulerView,
    WorkerSlot,
};
use crate::time::{Timestamp, NANOS_PER_SEC};
use crate::types::{JobResultView, PoolConfig, Task, TaskView};
use crate::worker::TaskResultView;
use tokio::sync::mpsc::Receiver;
use vstd::prelude::*;

verus! {

/// Something done to a pool.
pub enum PoolEvent {
    Start { workers: Seq<NewWorker>, task_rx: Receiver<Task> },
    AddWorker(WorkerSlot),
    WorkerStarted,
    WorkerStopped,
    Dispatch { task: TaskView, step: DispatchStepView },
    AfterSend { delivered: bool, step: DispatchStepView },
    FlushQueues { step: DispatchStepView },
    TaskFinished { result: TaskResultView, now: nat, failed_at: Timestamp },
    ScaleCheck { now: nat, outcome: ScaleStep },
    DeadLetter(DeadLetterView),
    RequestShutdown,
    Shutdown,
}

/// `event` leads a pool from `pre` to `post`.
pub open spec fn pool_event(pre: PoolView, event: PoolEvent, post: PoolView) -> bool {
    match event {
        PoolEvent::Start { workers, task_rx } => started(pre, workers, task_rx, post),
        PoolEvent::AddWorker(slot) => post == (PoolView {
            scheduler: SchedulerView {
                workers: pre.scheduler.workers.push(slot),
                ..pre.scheduler
            },
            ..pre
        }),
        PoolEvent::WorkerStarted => post == (PoolView {
            active_workers: one_more(pre.active_workers),
            ..pre
        }),
        PoolEvent::WorkerStopped => post == (PoolView {
            active_workers: one_less(pre.active_workers),
            ..pre
        }),
        PoolEvent::Dispatch { task, step } => {
            &&& dispatched(pre.scheduler, task, post.scheduler, step)
            &&& post == (PoolView {
                scheduler: post.scheduler,
                counters: pre.counters.with_submitted(),
                ..pre
            })
        },
        PoolEvent::AfterSend { delivered, step } => {
            &&& sent(pre.scheduler, delivered, post.scheduler, step)
            &&& post == (PoolView { scheduler: post.scheduler, ..pre })
        },
        PoolEvent::FlushQueues { step } => {
            &&& queues_flushed(pre.scheduler, post.scheduler, step)
            &&& post == (PoolView { scheduler: post.scheduler, ..pre })
        },
        PoolEvent::TaskFinished { result, now, failed_at } => post == pre.after_task(
            result,
            now,
            failed_at,
        ),
        PoolEvent::ScaleCheck { now, outcome } => scaled(pre, now, post, outcome),
        PoolEvent::DeadLetter(dead_letter) => post == (PoolView { dead_letter, ..pre }),
        PoolEvent::RequestShutdown => post == (PoolView { shutting_down: true, ..pre }),
        PoolEvent::Shutdown => post == pre.shut(),
    }
}

/// The life of a pool made with `config`: `states[0]` is the new pool, and
/// `events[k]` leads from `states[k]` to the next state.
pub open spec fn pool_life(
    config: PoolConfig,
    states: Seq<PoolView>,
    events: Seq<PoolEvent>,
) -> bool {
    &&& states.len() == events.len() + 1
    &&& exists|now: nat| #[trigger] new_pool(config, now, states[0])
    &&& forall|k: int|
        0 <= k < events.len() ==> pool_event(states[k], #[trigger] events[k], states[k + 1])
}

/// A life without its last event is one.
proof fn lemma_earlier(config: PoolConfig, states: Seq<PoolView>, events: Seq<PoolEvent>)
    requires
        pool_life(config, states, events),
        events.len() > 0,
    ensures
        pool_life(config, states.drop_last(), events.drop_last()),
        states.drop_last().last() == states[states.len() - 2],
        pool_event(states[states.len() - 2], events.last(), states.last()),
{
    let fewer = states.drop_last();
    assert(fewer[0] == states[0]);
    assert forall|k: int| 0 <= k < events.drop_last().len() implies pool_event(
        fewer[k],
        #[trigger] events.drop_last()[k],
        fewer[k + 1],
    ) by {
        assert(events.drop_last()[k] == events[k]);
    }
    assert(events[events.len() - 1] == events.last());
}

// Submitting.

/// A handle for submitting can be had exactly until `shutdown`. All handles
/// lead into the one channel that the pool was made with, which holds as many
/// tasks as configured and comes out at the receiver that the pool was made
/// with. The pool is shutting down exactly if it was told so. Its configuration
/// never changes.
pub proof fn law_open_until_shutdown(
    config: PoolConfig,
    states: Seq<PoolView>,
    events: Seq<PoolEvent>,
)
    requires
        pool_life(config, states, events),
    ensures
        states.last().task_tx is Some <==> !events.contains(PoolEvent::Shutdown),
        states.last().task_tx matches Some(tx) ==> {
            &&& states[0].task_tx == Some(tx)
            &&& channel_limit(tx) == config.max_queue_size
            &&& states[0].task_rx matches Some(rx) && connected(tx, rx)
        },
        states.last().shutting_down <==> events.contains(PoolEvent::Shutdown) || events.contains(
            PoolEvent::RequestShutdown,
        ),
        states.last().config == config,
    decreases events.len(),
{
    if events.len() > 0 {
        lemma_earlier(config, states, events);
        law_open_until_shutdown(config, states.drop_last(), events.drop_last());
        lemma_contains_step(events, PoolEvent::Shutdown);
        lemma_contains_step(events, PoolEvent::RequestShutdown);
    }
}

proof fn lemma_contains_step(events: Seq<PoolEvent>, event: PoolEvent)
    requires
        events.len() > 0,
    ensures
        events.contains(event) <==> events.drop_last().contains(event) || events.last() == event,
{
    if events.contains(event) {
        let k = choose|k: int| 0 <= k < events.len() && events[k] == event;
        if k < events.len() - 1 {
            assert(events.drop_last()[k] == event);
        }
    }
    if events.drop_last().contains(event) {
        let k = choose|k: int|
            0 <= k < events.drop_last().len() && events.drop_last()[k] == event;
        assert(events[k] == event);
    }
    assert(events[events.len() - 1] == events.last());
}

// Counting.

/// How many dispatches were begun.
pub open spec fn dispatches(events: Seq<PoolEvent>) -> nat
    decreases events.len(),
{
    if events.len() == 0 {
        0
    } else {
        dispatches(events.drop_last()) + if events.last() is Dispatch {
            1nat
        } else {
            0
        }
    }
}

/// How many tasks ended, by the kind of their results: completed, failed and
/// panicked.
pub open spec fn ends(events: Seq<PoolEvent>) -> (nat, nat, nat)
    decreases events.len(),
{
    if events.len() == 0 {
        (0, 0, 0)
    } else {
        let (completed, failed, panicked) = ends(events.drop_last());
        match events.last() {
            PoolEvent::TaskFinished { result, .. } => match result.result {
                JobResultView::Success(_) => (completed + 1, failed, panicked),
                JobResultView::Failure(_) => (completed, failed + 1, panicked),
                JobResultView::Panic(_) => (completed, failed, panicked + 1),
            },
            _ => (completed, failed, panicked),
        }
    }
}

/// The counters tell the truth: as many tasks count as submitted as dispatches
/// were begun, whatever each ended with, and each end of a task counts once, by
/// its kind. (A counter that goes through its greatest value starts over.)
pub proof fn law_counters_tell_the_truth(
    config: PoolConfig,
    states: Seq<PoolView>,
    events: Seq<PoolEvent>,
)
    requires
        pool_life(config, states, events),
    ensures
        dispatches(events) <= u64::MAX ==> states.last().counters.total_submitted == dispatches(
            events,
        ),
        ends(events).0 <= u64::MAX ==> states.last().counters.total_completed == ends(events).0,
        ends(events).1 <= u64::MAX ==> states.last().counters.total_failed == ends(events).1,
        ends(events).2 <= u64::MAX ==> states.last().counters.total_panicked == ends(events).2,
    decreases events.len(),
{
    if events.len() > 0 {
        lemma_earlier(config, states, events);
        law_counters_tell_the_truth(config, states.drop_last(), events.drop_last());
    }
}

/// By how much an event changes the count of pending tasks.
pub open spec fn pending_change(event: PoolEvent) -> int {
    match event {
        PoolEvent::Dispatch { step, .. } => if step == DispatchStepView::Finished(false) {
            0
        } else {
            1
        },
        PoolEvent::AfterSend { step, .. } => if step == DispatchStepView::Finished(false) {
            -1
        } else {
            0
        },
        PoolEvent::TaskFinished { .. } => -1,
        _ => 0,
    }
}

/// The changes that the events make to the count of pending tasks.
pub open spec fn pending_changes(events: Seq<PoolEvent>) -> Seq<int> {
    events.map_values(|e: PoolEvent| pending_change(e))
}

/// The count of pending tasks is that of the tasks accepted, less those refused
/// after all and those ended. It is zero when all accepted tasks have ended.
pub proof fn law_pending_counts_what_is_left(
    config: PoolConfig,
    states: Seq<PoolView>,
    events: Seq<PoolEvent>,
)
    requires
        pool_life(config, states, events),
    ensures
        0 <= sum_of(pending_changes(events)) <= usize::MAX ==> states.last().scheduler.pending
            == sum_of(pending_changes(events)),
{
    let schedulers = states.map_values(|p: PoolView| p.scheduler);
    let changes = pending_changes(events);
    assert forall|k: int| 0 <= k < changes.len() implies pending_changed(
        schedulers[k],
        schedulers[k + 1],
        #[trigger] changes[k],
    ) by {
        assert(pool_event(states[k], events[k], states[k + 1]));
        law_config_stays(config, states, events, k);
        lemma_event_changes_pending(states[k], events[k], states[k + 1]);
    }
    law_pending_balances(schedulers, changes);
}

/// By how much an event changes the count of active workers.
pub open spec fn active_change(event: PoolEvent) -> int {
    match event {
        PoolEvent::WorkerStarted => 1,
        PoolEvent::WorkerStopped => -1,
        _ => 0,
    }
}

/// The changes that the events make to the count of active workers.
pub open spec fn active_changes(events: Seq<PoolEvent>) -> Seq<int> {
    events.map_values(|e: PoolEvent| active_change(e))
}

/// How many workers have started.
pub open spec fn starts(events: Seq<PoolEvent>) -> nat
    decreases events.len(),
{
    if events.len() == 0 {
        0
    } else {
        starts(events.drop_last()) + if events.last() is WorkerStarted {
            1nat
        } else {
            0
        }
    }
}

/// How many workers have stopped.
pub open spec fn stops(events: Seq<PoolEvent>) -> nat
    decreases events.len(),
{
    if events.len() == 0 {
        0
    } else {
        stops(events.drop_last()) + if events.last() is WorkerStopped {
            1nat
        } else {
            0
        }
    }
}

/// The count of active workers is that of the workers that have started, less
/// those that have stopped. Nothing else changes it.
pub proof fn law_active_workers_are_counted(
    config: PoolConfig,
    states: Seq<PoolView>,
    events: Seq<PoolEvent>,
)
    requires
        pool_life(config, states, events),
    ensures
        0 <= starts(events) - stops(events) <= usize::MAX ==> states.last().active_workers
            == starts(events) - stops(events),
{
    let counts = states.map_values(|p: PoolView| p.active_workers);
    let changes = active_changes(events);
    assert forall|k: int| 0 <= k < changes.len() implies count_changed(
        counts[k],
        counts[k + 1],
        #[trigger] changes[k],
    ) by {
        assert(pool_event(states[k], events[k], states[k + 1]));
    }
    lemma_counts_add_up(counts, changes);
    lemma_active_sum(events);
}

proof fn lemma_active_sum(events: Seq<PoolEvent>)
    ensures
        sum_of(active_changes(events)) == starts(events) - stops(events),
    decreases events.len(),
{
    if events.len() > 0 {
        lemma_active_sum(events.drop_last());
        assert(active_changes(events).drop_last() =~= active_changes(events.drop_last()));
    }
}

/// The pool keeps the configuration and the strategy that it was made with.
pub proof fn law_config_stays(
    config: PoolConfig,
    states: Seq<PoolView>,
    events: Seq<PoolEvent>,
    k: int,
)
    requires
        pool_life(config, states, events),
        0 <= k < states.len(),
    ensures
        states[k].config == config,
        states[k].scheduler.strategy == config.schedule_strategy,
    decreases k,
{
    if k > 0 {
        law_config_stays(config, states, events, k - 1);
        assert(pool_event(states[k - 1], events[k - 1], states[k]));
    }
}

proof fn lemma_event_changes_pending(pre: PoolView, event: PoolEvent, post: PoolView)
    requires
        pool_event(pre, event, post),
        pre.scheduler.strategy == pre.config.schedule_strategy,
    ensures
        pending_changed(pre.scheduler, post.scheduler, pending_change(event)),
{
    match event {
        PoolEvent::Dispatch { task, step } => {
            assert(dispatched(pre.scheduler, task, post.scheduler, step));
        },
        PoolEvent::AfterSend { delivered, step } => {
            assert(sent(pre.scheduler, delivered, post.scheduler, step));
        },
        PoolEvent::FlushQueues { step } => {
            assert(queues_flushed(pre.scheduler, post.scheduler, step));
        },
        PoolEvent::Shutdown => {
            assert(post.scheduler == SchedulerView::idle(
                pre.scheduler.strategy,
                pre.scheduler.pending,
            ));
        },
        _ => {
            if event !is TaskFinished {
                assert(post.scheduler == (SchedulerView {
                    workers: post.scheduler.workers,
                    ..pre.scheduler
                }));
            }
        },
    }
}

// Workers.

/// The workers that an event hands out, to be started.
pub open spec fn handed_out_by(event: PoolEvent) -> Seq<NewWorker> {
    match event {
        PoolEvent::Start { workers, .. } => workers,
        PoolEvent::ScaleCheck { outcome: ScaleStep::Spawn(workers), .. } => workers@,
        _ => Seq::empty(),
    }
}

/// All workers that were handed out, in their order.
pub open spec fn handed_out(events: Seq<PoolEvent>) -> Seq<NewWorker>
    decreases events.len(),
{
    if events.len() == 0 {
        Seq::empty()
    } else {
        handed_out(events.drop_last()) + handed_out_by(events.last())
    }
}

/// `slot` is that of a worker that was handed out.
pub open spec fn is_handed_out(events: Seq<PoolEvent>, slot: WorkerSlot) -> bool {
    exists|j: int|
        0 <= j < handed_out(events).len() && (#[trigger] handed_out(events)[j]).slot == slot
}

/// Every worker that was registered had been handed out before, and none was
/// registered twice.
pub open spec fn registered_once(events: Seq<PoolEvent>) -> bool {
    &&& forall|k: int|
        0 <= k < events.len() && (#[trigger] events[k]) is AddWorker ==> is_handed_out(
            events.take(k),
            events[k]->AddWorker_0,
        )
    &&& forall|j: int, k: int|
        0 <= j < k < events.len() && (#[trigger] events[j]) is AddWorker && (#[trigger] events[k])
            is AddWorker ==> events[j]->AddWorker_0 != events[k]->AddWorker_0
}

/// The ids of the workers count up from zero, in the order in which they are
/// handed out, at the start or when the pool grows, and over removals. So no id
/// is given out twice. Each worker has a channel of its own of the usual size.
/// (The numbers must last.)
pub proof fn law_worker_ids_count_up(
    config: PoolConfig,
    states: Seq<PoolView>,
    events: Seq<PoolEvent>,
)
    requires
        pool_life(config, states, events),
        handed_out(events).len() <= usize::MAX,
    ensures
        states.last().next_worker_id == handed_out(events).len(),
        forall|j: int|
            0 <= j < handed_out(events).len() ==> {
                &&& (#[trigger] handed_out(events)[j]).slot.id == j
                &&& channel_limit(handed_out(events)[j].slot.tx) == WORKER_CHANNEL_SIZE
                &&& connected(handed_out(events)[j].slot.tx, handed_out(events)[j].rx)
            },
    decreases events.len(),
{
    if events.len() > 0 {
        lemma_earlier(config, states, events);
        let earlier = events.drop_last();
        let before = handed_out(earlier);
        let new = handed_out_by(events.last());
        assert(handed_out(events) == before + new);
        law_worker_ids_count_up(config, states.drop_last(), earlier);
        let pre = states[states.len() - 2];
        let post = states.last();
        let next = pre.next_worker_id;
        assert(post.next_worker_id == id_after(next, new.len()) && fresh_workers(new, next));
        lemma_id_after(next, new.len());
        assert forall|j: int| 0 <= j < handed_out(events).len() implies {
            &&& (#[trigger] handed_out(events)[j]).slot.id == j
            &&& channel_limit(handed_out(events)[j].slot.tx) == WORKER_CHANNEL_SIZE
            &&& connected(handed_out(events)[j].slot.tx, handed_out(events)[j].rx)
        } by {
            if j >= before.len() {
                let i = j - before.len();
                assert(handed_out(events)[j] == new[i]);
                lemma_id_after(next, i as nat);
            } else {
                assert(handed_out(events)[j] == before[j]);
            }
        }
    }
}

/// The workers of a pool that registers each worker once, as it was handed out,
/// have ids that differ, at all times.
pub proof fn law_worker_ids_stay_distinct(
    config: PoolConfig,
    states: Seq<PoolView>,
    events: Seq<PoolEvent>,
)
    requires
        pool_life(config, states, events),
        registered_once(events),
        handed_out(events).len() <= usize::MAX,
    ensures
        ids_of(states.last().scheduler.workers).no_duplicates(),
        forall|w: WorkerSlot| #[trigger]
            states.last().scheduler.workers.contains(w) ==> events.contains(
                PoolEvent::AddWorker(w),
            ),
    decreases events.len(),
{
    if events.len() > 0 {
        lemma_earlier(config, states, events);
        let earlier = events.drop_last();
        let pre = states[states.len() - 2];
        let post = states.last();
        let n = events.len() - 1;
        assert(handed_out(events) == handed_out(earlier) + handed_out_by(events.last()));
        assert forall|k: int| 0 <= k < earlier.len() && (#[trigger] earlier[k]) is AddWorker implies
            is_handed_out(earlier.take(k), earlier[k]->AddWorker_0) by {
            assert(earlier[k] == events[k]);
            assert(earlier.take(k) =~= events.take(k));
        }
        assert forall|j: int, k: int|
            0 <= j < k < earlier.len() && (#[trigger] earlier[j]) is AddWorker && (
            #[trigger] earlier[k]) is AddWorker implies earlier[j]->AddWorker_0
            != earlier[k]->AddWorker_0 by {
            assert(earlier[j] == events[j] && earlier[k] == events[k]);
        }
        law_worker_ids_stay_distinct(config, states.drop_last(), earlier);
        let workers = pre.scheduler.workers;
        match events.last() {
            PoolEvent::AddWorker(slot) => {
                assert(events[n] == events.last());
                assert(events.take(n) =~= earlier);
                assert(is_handed_out(earlier, slot));
                assert(!ids_of(workers).contains(slot.id)) by {
                    if ids_of(workers).contains(slot.id) {
                        let i = choose|i: int|
                            0 <= i < ids_of(workers).len() && ids_of(workers)[i] == slot.id;
                        lemma_new_id_is_new(config, states, events, workers[i], slot);
                    }
                }
                law_adding_keeps_ids_distinct(workers, slot);
            },
            PoolEvent::ScaleCheck { outcome: ScaleStep::Removed(removed), .. } => {
                lemma_removing_all(workers, removed@);
            },
            _ => {},
        }
        assert forall|w: WorkerSlot| #[trigger] post.scheduler.workers.contains(w) implies
            events.contains(PoolEvent::AddWorker(w)) by {
            lemma_contains_step(events, PoolEvent::AddWorker(w));
            if events.last() == PoolEvent::AddWorker(w) {
            } else {
                let i = choose|i: int|
                    0 <= i < post.scheduler.workers.len() && post.scheduler.workers[i] == w;
                if events.last() is AddWorker {
                    assert(i < workers.len() && workers[i] == w);
                }
                assert(workers.contains(w));
            }
        }
    }
}

/// No worker of the pool has the id of one that is only now registered.
proof fn lemma_new_id_is_new(
    config: PoolConfig,
    states: Seq<PoolView>,
    events: Seq<PoolEvent>,
    w: WorkerSlot,
    slot: WorkerSlot,
)
    requires
        pool_life(config, states, events),
        registered_once(events),
        handed_out(events).len() <= usize::MAX,
        events.len() > 0,
        events.last() == PoolEvent::AddWorker(slot),
        is_handed_out(events.drop_last(), slot),
        states[states.len() - 2].scheduler.workers.contains(w),
        forall|v: WorkerSlot| #[trigger]
            states[states.len() - 2].scheduler.workers.contains(v)
                ==> events.drop_last().contains(PoolEvent::AddWorker(v)),
    ensures
        w.id != slot.id,
{
    let earlier = events.drop_last();
    let n = events.len() - 1;
    assert(earlier.contains(PoolEvent::AddWorker(w)));
    let k = choose|k: int| 0 <= k < earlier.len() && earlier[k] == PoolEvent::AddWorker(w);
    assert(events[k] == earlier[k] && events[n] == events.last());
    assert(events[k]->AddWorker_0 != events[n]->AddWorker_0);
    assert(is_handed_out(events.take(k), w));
    let a = choose|a: int|
        0 <= a < handed_out(events.take(k)).len() && (#[trigger] handed_out(events.take(k))[a]).slot
            == w;
    lemma_handed_out_grows(events, k, a);
    let b = choose|b: int|
        0 <= b < handed_out(earlier).len() && (#[trigger] handed_out(earlier)[b]).slot == slot;
    assert(earlier =~= events.take(n));
    lemma_handed_out_grows(events, n, b);
    law_worker_ids_count_up(config, states, events);
    assert(handed_out(events)[a].slot.id == a);
    assert(handed_out(events)[b].slot.id == b);
}

/// What was handed out stays in its place.
proof fn lemma_handed_out_grows(events: Seq<PoolEvent>, k: int, j: int)
    requires
        0 <= k <= events.len(),
        0 <= j < handed_out(events.take(k)).len(),
    ensures
        j < handed_out(events).len(),
        handed_out(events)[j] == handed_out(events.take(k))[j],
    decreases events.len(),
{
    if k == events.len() {
        assert(events.take(k) =~= events);
    } else {
        assert(events.drop_last().take(k) =~= events.take(k));
        lemma_handed_out_grows(events.drop_last(), k, j);
    }
}

proof fn lemma_removing_all(workers: Seq<WorkerSlot>, ids: Seq<usize>)
    requires
        ids_of(workers).no_duplicates(),
    ensures
        ids_of(without_workers(workers, ids)).no_duplicates(),
        forall|w: WorkerSlot| #[trigger]
            without_workers(workers, ids).contains(w) ==> workers.contains(w),
    decreases ids.len(),
{
    if ids.len() > 0 {
        let left = without_workers(workers, ids.drop_last());
        lemma_removing_all(workers, ids.drop_last());
        law_removing_keeps_ids_distinct(left, ids.last());
        assert forall|w: WorkerSlot| #[trigger]
            without_workers(workers, ids).contains(w) implies workers.contains(w) by {
            law_removed_worker_is_gone(left, ids.last(), w);
        }
    }
}

/// In the life of a pool that registers each worker once, one look at the load
/// removes workers exactly if no task is before the pool, it has more than the
/// fewest workers and was idle for the timeout; exactly the fewest stay, those
/// registered first. It hands out new workers exactly if more tasks than the
/// threshold are before it and it has fewer workers than it may. Else nothing
/// changes.
pub proof fn law_pool_follows_the_load(
    config: PoolConfig,
    states: Seq<PoolView>,
    events: Seq<PoolEvent>,
    now: nat,
    post: PoolView,
    step: ScaleStep,
)
    requires
        pool_life(config, states, events),
        registered_once(events),
        handed_out(events).len() <= usize::MAX,
        scaled(states.last(), now, post, step),
        !states.last().shutting_down,
        states.last().load() <= usize::MAX,
        states.last().scheduler.workers.len() <= usize::MAX,
        config.scale_up_threshold > 0,
    ensures
        step is Removed <==> states.last().load() == 0 && states.last().scheduler.workers.len()
            > config.min_workers && states.last().idle_for(now) >= config.idle_timeout_secs
            * NANOS_PER_SEC,
        step is Spawn <==> states.last().load() > config.scale_up_threshold
            && states.last().scheduler.workers.len() < config.max_workers,
        step is Removed || step is Spawn || (step is Hold && post == states.last()),
        post.scheduler.workers == if step is Removed {
            states.last().scheduler.workers.take(config.min_workers as int)
        } else {
            states.last().scheduler.workers
        },
{
    law_worker_ids_stay_distinct(config, states, events);
    law_config_stays(config, states, events, states.len() - 1);
    law_scale_check_follows_the_load(states.last(), now, post, step);
}

} // verus!
