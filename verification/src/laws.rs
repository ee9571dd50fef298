//! What holds of the pool beyond its single functions.

use crate::dead_letter::{first_entry_for, pushed, requeued_by_id, restarted_tasks, DeadLetterView};
use crate::metrics::MetricsCounters;
use crate::pool::{
    grows, id_after, last_ids, scale_rule, scaled, shrinks, target_workers, without_workers,
    PoolView, ScaleDecision, ScaleStep,
};
use crate::queue::foremost;
use crate::scheduler::{
    dispatched, flushed_by_clock, held_back, ids_of, least_loaded, next_sent,
    next_sent_by_reading, one_less, one_more, queues_flushed, released, rooms_reading, sent,
    smallest, without_worker, DispatchStepView, SchedulerView, WorkerSlot,
};
use crate::time::{capped_delay, Timestamp, NANOS_PER_SEC};
use crate::types::{
    delayed_from, doublings, DeadLetterEntryView, JobResultView, PoolConfig, RetryPolicy,
    ScheduleStrategy, TaskView,
};
use crate::worker::{buried, counted, given_up, ExecutionStepView, ExecutionView, TaskResultView};
use core::cmp::Ordering;
use vstd::multiset::Multiset;
use vstd::prelude::*;

verus! {

// The order of tasks.

/// No task comes behind itself, and of two tasks at most one comes behind the
/// other.
pub proof fn law_order_is_asymmetric(a: TaskView, b: TaskView)
    ensures
        !a.behind(a),
        a.behind(b) ==> !b.behind(a),
{
}

/// What comes behind a task comes behind all that the task comes behind.
pub proof fn law_order_is_transitive(a: TaskView, b: TaskView, c: TaskView)
    ensures
        a.behind(b) && b.behind(c) ==> a.behind(c),
        !a.behind(b) && !b.behind(c) ==> !a.behind(c),
{
}

/// Comparing the other way round gives the opposite answer, and two tasks
/// compare as equal exactly if they are as urgent and were created at once.
pub proof fn law_order_is_total(a: TaskView, b: TaskView)
    ensures
        a.order(b) == Ordering::Less <==> b.order(a) == Ordering::Greater,
        a.order(b) == Ordering::Equal <==> a.priority == b.priority && a.created_at
            == b.created_at,
{
}

/// The more urgent task goes first, whenever it was created; of two equally
/// urgent ones the earlier created goes first.
pub proof fn law_urgency_before_age(a: TaskView, b: TaskView)
    ensures
        a.priority.rank_spec() < b.priority.rank_spec() ==> a.behind(b),
        a.priority == b.priority && b.created_at.before(a.created_at) ==> a.behind(b),
{
}

/// Tasks come out of the queue in order: none comes before one that was taken
/// out earlier.
pub proof fn law_queue_comes_out_in_order(
    waiting: Multiset<TaskView>,
    first: TaskView,
    second: TaskView,
)
    requires
        waiting.contains(first),
        foremost(waiting, first),
        waiting.remove(first).contains(second),
    ensures
        !first.behind(second),
{
    broadcast use vstd::multiset::group_multiset_axioms;

    assert(waiting.contains(second));
}

// Delays.

/// A task that is due stays due.
pub proof fn law_due_stays_due(task: TaskView, now: Timestamp, later: Timestamp)
    requires
        task.due(now),
        !later.before(now),
    ensures
        task.due(later),
{
}

/// A delayed task is due exactly from the end of its delay on.
pub proof fn law_delay_is_kept(
    task: TaskView,
    start: Timestamp,
    delay: nat,
    delayed: TaskView,
    now: Timestamp,
)
    requires
        delayed_from(task, start, delay, delayed),
        now.valid(),
    ensures
        delayed.due(now) <==> now.since_epoch() >= start.since_epoch() + capped_delay(delay),
{
    let end = delayed.execute_after->0;
    assert(now.before(end) <==> now.since_epoch() < end.since_epoch());
}

// Retries.

/// A later retry waits at least as long as an earlier one.
pub proof fn law_backoff_grows(policy: RetryPolicy, earlier: u32, later: u32)
    requires
        earlier <= later,
    ensures
        policy.delay_nanos(earlier) <= policy.delay_nanos(later),
{
    lemma_doublings_grow(earlier, later);
    if let RetryPolicy::ExponentialBackoff { base_delay_secs, .. } = policy {
        assert(base_delay_secs * 1000 * doublings(earlier) <= base_delay_secs * 1000 * doublings(
            later,
        )) by (nonlinear_arith)
            requires
                doublings(earlier) <= doublings(later),
                base_delay_secs >= 0,
        ;
    }
}

proof fn lemma_doublings_grow(earlier: u32, later: u32)
    requires
        earlier <= later,
    ensures
        doublings(earlier) <= doublings(later),
{
    if later < 64 {
        if earlier < later {
            vstd::arithmetic::power2::lemma_pow2_strictly_increases(earlier as nat, later as nat);
        }
    } else if earlier < 64 {
        vstd::bits::lemma_u64_pow2_no_overflow(earlier as nat);
    }
}

/// No retry waits longer than the policy allows, and the policies without a
/// delay wait for nothing.
pub proof fn law_backoff_is_capped(policy: RetryPolicy, attempt: u32)
    ensures
        0 <= policy.delay_nanos(attempt),
        policy is Never || policy is Immediate ==> policy.delay_nanos(attempt) == 0,
        policy matches RetryPolicy::ExponentialBackoff { max_delay_secs, .. } ==> policy.delay_nanos(
            attempt,
        ) <= max_delay_secs * NANOS_PER_SEC,
{
    if let RetryPolicy::ExponentialBackoff { base_delay_secs, .. } = policy {
        assert(base_delay_secs * 1000 * doublings(attempt) >= 0) by (nonlinear_arith)
            requires
                base_delay_secs >= 0,
                doublings(attempt) >= 0,
        ;
    }
}

/// The execution after run number `k` has begun, runs counted from zero.
pub open spec fn in_run(start: ExecutionView, k: int) -> ExecutionView {
    ExecutionView { attempt: (start.attempt + k + 1) as u32, ..start }
}

/// An execution whose runs end with `results`, one after the other, is over
/// with the last of them and no earlier.
pub open spec fn over_with(
    start: ExecutionView,
    results: Seq<JobResultView>,
    elapsed: nat,
) -> bool {
    &&& results.len() > 0
    &&& in_run(start, results.len() - 1).after(results.last(), elapsed) is Finished
    &&& forall|k: int|
        0 <= k < results.len() - 1 ==> in_run(start, k).after(#[trigger] results[k], elapsed) is Retry
}

/// A task that never succeeds is run once and then once more for each retry
/// that its earlier attempts have left.
pub proof fn law_failing_task_uses_up_its_retries(
    start: ExecutionView,
    results: Seq<JobResultView>,
    elapsed: nat,
)
    requires
        start.attempt + results.len() <= u32::MAX,
        forall|k: int| 0 <= k < results.len() ==> !(#[trigger] results[k] is Success),
    ensures
        over_with(start, results, elapsed) <==> results.len() == if start.attempt
            <= start.task.retry_policy.retries() {
            start.task.retry_policy.retries() - start.attempt + 1
        } else {
            1
        },
{
    let retries = start.task.retry_policy.retries();
    let n = results.len();
    if n > 0 {
        assert(!(results[n - 1] is Success));
        if over_with(start, results, elapsed) {
            if n > 1 {
                assert(in_run(start, n - 2).after(results[n - 2], elapsed) is Retry);
            }
        }
    }
}

/// A success ends the execution at once, and the task is not tried again.
pub proof fn law_success_ends_execution(execution: ExecutionView, data: Seq<u8>, elapsed: nat)
    ensures
        execution.after(JobResultView::Success(data), elapsed) == ExecutionStepView::Finished(
            execution.finished(JobResultView::Success(data), elapsed),
        ),
{
}

/// An execution ends with a success, or with a failure whose retries are used
/// up. A panic of the last run is reported as a failure with its message.
pub proof fn law_execution_ends_well_or_exhausted(
    execution: ExecutionView,
    result: JobResultView,
    elapsed: nat,
    end: TaskResultView,
)
    requires
        execution.after(result, elapsed) == ExecutionStepView::Finished(end),
    ensures
        end.result is Success || (end.result is Failure && end.attempts > end.max_attempts),
        result matches JobResultView::Panic(message) ==> end.result == JobResultView::Failure(
            message,
        ),
        end.original_task == execution.task,
{
}

/// A finished execution leaves a dead letter exactly if the task did not
/// succeed, counts in exactly one of completed and failed, and never in
/// panicked.
pub proof fn law_finished_task_is_booked_once(
    execution: ExecutionView,
    result: JobResultView,
    elapsed: nat,
    end: TaskResultView,
    counters: MetricsCounters,
)
    requires
        execution.after(result, elapsed) == ExecutionStepView::Finished(end),
    ensures
        given_up(end) is Some <==> !(result is Success),
        result is Success ==> counted(counters, end) == counters.with_completed(
            (end.elapsed_ms * 1000) as u64,
        ),
        !(result is Success) ==> counted(counters, end) == counters.with_failed(),
        counted(counters, end).total_panicked == counters.total_panicked,
{
}

/// From the first run to the books: a task taken up by a worker, whose runs end
/// with `results`, is settled exactly once. If a run succeeded, it was the last,
/// and the task counts as completed with its time and leaves no dead letter.
/// Else its retries are used up, it counts as failed, and it is kept as a dead
/// letter with the message of the last run. In neither case does it count as
/// panicked.
pub proof fn law_task_is_booked_once(
    task: TaskView,
    results: Seq<JobResultView>,
    elapsed: nat,
    end: TaskResultView,
    counters: MetricsCounters,
    dead_letter: DeadLetterView,
    failed_at: Timestamp,
)
    requires
        task.attempt < u32::MAX,
        task.retry_policy.retries() < u32::MAX,
        over_with(ExecutionView { task, attempt: task.attempt }, results, elapsed),
        in_run(ExecutionView { task, attempt: task.attempt }, results.len() - 1).after(
            results.last(),
            elapsed,
        ) == ExecutionStepView::Finished(end),
    ensures
        end.attempts == task.attempt + results.len(),
        forall|k: int|
            0 <= k < results.len() - 1 ==> !(#[trigger] results[k] is Success),
        match results.last() {
            JobResultView::Success(_) => {
                &&& counted(counters, end) == counters.with_completed(
                    (end.elapsed_ms * 1000) as u64,
                )
                &&& buried(dead_letter, end, failed_at) == dead_letter
            },
            JobResultView::Failure(message) | JobResultView::Panic(message) => {
                &&& end.attempts > task.retry_policy.retries()
                &&& counted(counters, end) == counters.with_failed()
                &&& buried(dead_letter, end, failed_at) == (DeadLetterView {
                    entries: pushed(
                        dead_letter.entries,
                        dead_letter.max_size,
                        DeadLetterEntryView {
                            task,
                            last_error: message,
                            attempts: end.attempts,
                            failed_at,
                        },
                    ),
                    ..dead_letter
                })
            },
        },
        counted(counters, end).total_panicked == counters.total_panicked,
{
    let start = ExecutionView { task, attempt: task.attempt };
    let n = results.len();
    let left = if task.attempt <= task.retry_policy.retries() {
        task.retry_policy.retries() - task.attempt
    } else {
        0
    };
    if n - 1 > left {
        assert(in_run(start, left).after(results[left], elapsed) is Retry);
    }
    assert forall|k: int| 0 <= k < n - 1 implies !(#[trigger] results[k] is Success) by {
        assert(in_run(start, k).after(results[k], elapsed) is Retry);
    }
}

// Dead letters.

/// The queue of dead letters never holds more than its size, or than one entry
/// where its size is zero. The newest entry is always in it, and all older
/// ones but the oldest stay in their order.
pub proof fn law_dead_letters_are_bounded(
    entries: Seq<DeadLetterEntryView>,
    max_size: usize,
    entry: DeadLetterEntryView,
)
    requires
        entries.len() <= max_size || entries.len() <= 1,
    ensures
        pushed(entries, max_size, entry).len() <= max_size || pushed(
            entries,
            max_size,
            entry,
        ).len() == 1,
        pushed(entries, max_size, entry).last() == entry,
        pushed(entries, max_size, entry).drop_last() == entries || pushed(
            entries,
            max_size,
            entry,
        ).drop_last() == entries.drop_first(),
        entries.len() < max_size ==> pushed(entries, max_size, entry).drop_last() == entries,
{
    let all = pushed(entries, max_size, entry);
    if entries.len() >= max_size && entries.len() > 0 {
        assert(all.drop_last() =~= entries.drop_first());
    } else {
        assert(all.drop_last() =~= entries);
    }
}

/// A task that was given up comes back, with its attempts forgotten, when it
/// is asked for by its id, and is then gone. (An older entry with the same id
/// would come back first.)
pub proof fn law_given_up_task_comes_back(
    pre: DeadLetterView,
    entry: DeadLetterEntryView,
    task: Option<TaskView>,
    post: DeadLetterView,
)
    requires
        forall|j: int|
            0 <= j < pushed(pre.entries, pre.max_size, entry).len() - 1 ==> (#[trigger] pushed(
                pre.entries,
                pre.max_size,
                entry,
            )[j]).task.id != entry.task.id,
        requeued_by_id(
            DeadLetterView { entries: pushed(pre.entries, pre.max_size, entry), ..pre },
            entry.task.id,
            task,
            post,
        ),
    ensures
        task == Some(entry.task.restarted()),
        post == (DeadLetterView {
            entries: pushed(pre.entries, pre.max_size, entry).drop_last(),
            ..pre
        }),
{
    let all = pushed(pre.entries, pre.max_size, entry);
    let last = all.len() - 1;
    assert(all[last] == entry);
    assert(task is Some);
    let place = choose|place: int|
        {
            &&& #[trigger] first_entry_for(all, entry.task.id, place)
            &&& task->0 == all[place].task.restarted()
            &&& post == (DeadLetterView { entries: all.remove(place), ..pre })
        };
    if place < last {
        assert(all[place].task.id != entry.task.id);
    }
    assert(all.remove(last) =~= all.drop_last());
}

/// Requeueing all hands back every task once, oldest first, as a task that was
/// never tried.
pub proof fn law_requeueing_forgets_attempts(entries: Seq<DeadLetterEntryView>, i: int)
    requires
        0 <= i < entries.len(),
    ensures
        restarted_tasks(entries).len() == entries.len(),
        restarted_tasks(entries)[i].attempt == 0,
        restarted_tasks(entries)[i] == (TaskView { attempt: 0, ..entries[i].task }),
{
}

// Workers.

/// A worker that was removed is gone, and the others stay.
pub proof fn law_removed_worker_is_gone(workers: Seq<WorkerSlot>, id: usize, w: WorkerSlot)
    ensures
        without_worker(workers, id).contains(w) <==> workers.contains(w) && w.id != id,
{
    let keep = |w: WorkerSlot| w.id != id;
    let kept = workers.filter(keep);
    if kept.contains(w) {
        let i = choose|i: int| 0 <= i < kept.len() && kept[i] == w;
        workers.lemma_filter_pred(keep, i);
        workers.lemma_filter_contains_rev(keep, w);
    }
    if workers.contains(w) && w.id != id {
        let i = choose|i: int| 0 <= i < workers.len() && workers[i] == w;
        workers.lemma_filter_contains(keep, i);
    }
}

/// Worker ids that differ keep differing when a worker with another id is
/// added.
pub proof fn law_adding_keeps_ids_distinct(workers: Seq<WorkerSlot>, slot: WorkerSlot)
    requires
        ids_of(workers).no_duplicates(),
        !ids_of(workers).contains(slot.id),
    ensures
        ids_of(workers.push(slot)).no_duplicates(),
{
    let ids = ids_of(workers);
    assert(ids_of(workers.push(slot)) =~= ids.push(slot.id));
    assert forall|i: int| 0 <= i < ids.len() implies ids[i] != slot.id by {
        assert(ids.contains(ids[i]));
    }
}

/// Worker ids that differ keep differing when a worker is removed.
pub proof fn law_removing_keeps_ids_distinct(workers: Seq<WorkerSlot>, id: usize)
    requires
        ids_of(workers).no_duplicates(),
    ensures
        ids_of(without_worker(workers, id)).no_duplicates(),
    decreases workers.len(),
{
    reveal(Seq::filter);
    if workers.len() > 0 {
        let rest = workers.drop_last();
        assert(ids_of(rest) =~= ids_of(workers).drop_last());
        law_removing_keeps_ids_distinct(rest, id);
        if workers.last().id != id {
            let kept = without_worker(rest, id);
            assert(without_worker(workers, id) =~= kept.push(workers.last()));
            assert(!ids_of(kept).contains(workers.last().id)) by {
                if ids_of(kept).contains(workers.last().id) {
                    let i = choose|i: int|
                        0 <= i < ids_of(kept).len() && ids_of(kept)[i] == workers.last().id;
                    assert(kept.contains(kept[i]));
                    law_removed_worker_is_gone(rest, id, kept[i]);
                    let j = choose|j: int| 0 <= j < rest.len() && rest[j] == kept[i];
                    assert(ids_of(workers)[j] == ids_of(workers)[workers.len() - 1]);
                }
            }
            law_adding_keeps_ids_distinct(kept, workers.last());
        } else {
            assert(without_worker(workers, id) =~= without_worker(rest, id));
        }
    }
}

/// New workers get ids that differ, as long as the numbers last.
pub proof fn law_new_ids_differ(next: usize, i: nat, j: nat)
    requires
        next + i <= usize::MAX,
        next + j <= usize::MAX,
    ensures
        id_after(next, i) == next + i,
        i != j ==> id_after(next, i) != id_after(next, j),
{
    lemma_id_after(next, i);
    lemma_id_after(next, j);
}

pub(crate) proof fn lemma_id_after(next: usize, i: nat)
    requires
        next + i <= usize::MAX,
    ensures
        id_after(next, i) == next + i,
    decreases i,
{
    if i > 0 {
        lemma_id_after(next, (i - 1) as nat);
    }
}

// Scheduling.

/// Whatever a dispatch, a flush or their continuation sends goes to a worker that there
/// is, and the workers stay as they are.
pub proof fn law_send_names_a_worker(
    pre: SchedulerView,
    task: TaskView,
    delivered: bool,
    post: SchedulerView,
    step: DispatchStepView,
)
    requires
        dispatched(pre, task, post, step) || sent(pre, delivered, post, step) || queues_flushed(
            pre,
            post,
            step,
        ),
    ensures
        post.workers == pre.workers,
        step matches DispatchStepView::Send { worker, .. } ==> worker < post.workers.len(),
{
    if dispatched(pre, task, post, step) {
        if pre.strategy == ScheduleStrategy::RoundRobin && pre.workers.len() > 0 {
            vstd::arithmetic::div_mod::lemma_mod_bound(
                pre.rr_index as int,
                pre.workers.len() as int,
            );
            vstd::arithmetic::div_mod::lemma_mod_decreases(
                pre.rr_index as nat,
                pre.workers.len() as nat,
            );
        }
    }
}

/// Without workers nothing is sent.
pub proof fn law_no_send_without_workers(
    pre: SchedulerView,
    task: TaskView,
    delivered: bool,
    post: SchedulerView,
    step: DispatchStepView,
)
    requires
        pre.workers.len() == 0,
        dispatched(pre, task, post, step) || sent(pre, delivered, post, step) || queues_flushed(
            pre,
            post,
            step,
        ),
    ensures
        step is Finished,
{
}

/// A task that is accepted counts as pending once; one that is refused leaves
/// the count as it was.
pub proof fn law_dispatch_counts_the_task(
    pre: SchedulerView,
    task: TaskView,
    post: SchedulerView,
    step: DispatchStepView,
)
    requires
        dispatched(pre, task, post, step),
    ensures
        post.pending == if step == DispatchStepView::Finished(false) {
            pre.pending
        } else {
            one_more(pre.pending)
        },
{
}

/// Going on with a dispatch counts nothing twice: the count goes down only
/// where a task is refused after all.
pub proof fn law_send_keeps_the_count(
    pre: SchedulerView,
    delivered: bool,
    post: SchedulerView,
    step: DispatchStepView,
)
    requires
        sent(pre, delivered, post, step),
    ensures
        post.pending == if step == DispatchStepView::Finished(false) {
            one_less(pre.pending)
        } else {
            pre.pending
        },
{
}

/// A dispatch that ends in a refusal after a send leaves the count of pending
/// tasks as it was before.
pub proof fn law_refused_task_is_not_pending(
    pre: SchedulerView,
    task: TaskView,
    mid: SchedulerView,
    send: DispatchStepView,
    delivered: bool,
    post: SchedulerView,
)
    requires
        dispatched(pre, task, mid, send),
        send is Send,
        sent(mid, delivered, post, DispatchStepView::Finished(false)),
    ensures
        post.pending == pre.pending,
{
}

/// When a task that was accepted ends, the count of pending tasks is what it
/// was before.
pub proof fn law_finished_task_is_not_pending(
    pre: PoolView,
    task: TaskView,
    mid: PoolView,
    step: DispatchStepView,
    result: TaskResultView,
    now: nat,
    failed_at: Timestamp,
)
    requires
        dispatched(pre.scheduler, task, mid.scheduler, step),
        step != DispatchStepView::Finished(false),
    ensures
        mid.after_task(result, now, failed_at).scheduler.pending == pre.scheduler.pending,
{
}

/// The end of a task takes one off the count of pending tasks.
pub proof fn law_end_lowers_the_count(
    pre: PoolView,
    result: TaskResultView,
    now: nat,
    failed_at: Timestamp,
)
    requires
        pre.scheduler.pending >= 1,
    ensures
        pre.after_task(result, now, failed_at).scheduler.pending == pre.scheduler.pending - 1,
{
}

/// From `pre` to `post` one thing was done to the scheduler, and it changed the
/// count of pending tasks by `by`: a dispatch began or went on, the queues were
/// flushed, a task ended, or workers came or went.
pub open spec fn pending_changed(pre: SchedulerView, post: SchedulerView, by: int) -> bool {
    ||| exists|task: TaskView, step: DispatchStepView| #[trigger]
        dispatched(pre, task, post, step) && by == if step == DispatchStepView::Finished(false) {
            0int
        } else {
            1
        }
    ||| exists|delivered: bool, step: DispatchStepView| #[trigger]
        sent(pre, delivered, post, step) && by == if step == DispatchStepView::Finished(false) {
            -1int
        } else {
            0
        }
    ||| exists|step: DispatchStepView| #[trigger] queues_flushed(pre, post, step) && by == 0
    ||| post == (SchedulerView { pending: one_less(pre.pending), ..pre }) && by == -1
    ||| post == (SchedulerView { workers: post.workers, ..pre }) && by == 0
    ||| post == SchedulerView::idle(pre.strategy, pre.pending) && by == 0
}

/// The sum of the changes.
pub open spec fn sum_of(changes: Seq<int>) -> int
    decreases changes.len(),
{
    if changes.len() == 0 {
        0
    } else {
        sum_of(changes.drop_last()) + changes.last()
    }
}

/// Over any number of operations, in whatever order, the count of pending
/// tasks goes up by one for each task accepted and down by one for each task
/// that was refused after all or ended. When as many ended as were accepted it
/// is back where it began.
pub proof fn law_pending_balances(states: Seq<SchedulerView>, changes: Seq<int>)
    requires
        states.len() == changes.len() + 1,
        forall|k: int|
            0 <= k < changes.len() ==> pending_changed(
                states[k],
                states[k + 1],
                #[trigger] changes[k],
            ),
    ensures
        sum_of(changes) == 0 ==> states.last().pending == states[0].pending,
        0 <= states[0].pending + sum_of(changes) <= usize::MAX ==> states.last().pending
            == states[0].pending + sum_of(changes),
{
    let counts = states.map_values(|s: SchedulerView| s.pending);
    assert forall|k: int| 0 <= k < changes.len() implies count_changed(
        counts[k],
        counts[k + 1],
        #[trigger] changes[k],
    ) by {
        assert(pending_changed(states[k], states[k + 1], changes[k]));
    }
    lemma_counts_add_up(counts, changes);
}

/// A counter went from `pre` to `post`, by one up or down or not at all.
pub open spec fn count_changed(pre: usize, post: usize, by: int) -> bool {
    ||| by == 1 && post == one_more(pre)
    ||| by == 0 && post == pre
    ||| by == -1 && post == one_less(pre)
}

/// A counter has changed by the sum of its changes, where that is in range.
pub(crate) proof fn lemma_counts_add_up(counts: Seq<usize>, changes: Seq<int>)
    requires
        counts.len() == changes.len() + 1,
        forall|k: int|
            0 <= k < changes.len() ==> count_changed(
                counts[k],
                counts[k + 1],
                #[trigger] changes[k],
            ),
    ensures
        0 <= counts[0] + sum_of(changes) <= usize::MAX ==> counts.last() == counts[0] + sum_of(
            changes,
        ),
{
    lemma_counts_modulo(counts, changes);
    let total = counts[0] + sum_of(changes);
    if 0 <= total <= usize::MAX {
        vstd::arithmetic::div_mod::lemma_small_mod(total as nat, (usize::MAX + 1) as nat);
    }
}

proof fn lemma_counts_modulo(counts: Seq<usize>, changes: Seq<int>)
    requires
        counts.len() == changes.len() + 1,
        forall|k: int|
            0 <= k < changes.len() ==> count_changed(
                counts[k],
                counts[k + 1],
                #[trigger] changes[k],
            ),
    ensures
        counts.last() as int == (counts[0] + sum_of(changes)) % (usize::MAX + 1),
    decreases changes.len(),
{
    let range = usize::MAX + 1;
    if changes.len() == 0 {
        vstd::arithmetic::div_mod::lemma_small_mod(counts[0] as nat, range as nat);
    } else {
        let n = changes.len() - 1;
        let by = changes[n];
        let earlier = changes.drop_last();
        assert forall|k: int| 0 <= k < earlier.len() implies count_changed(
            counts.drop_last()[k],
            counts.drop_last()[k + 1],
            #[trigger] earlier[k],
        ) by {
            assert(earlier[k] == changes[k]);
        }
        lemma_counts_modulo(counts.drop_last(), earlier);
        let before = counts[n] as int;
        let sum = counts[0] + sum_of(earlier);
        assert(count_changed(counts[n], counts[n + 1], changes[n]));
        vstd::arithmetic::div_mod::lemma_add_mod_noop(sum, by, range);
        vstd::arithmetic::div_mod::lemma_add_mod_noop(before, by, range);
        vstd::arithmetic::div_mod::lemma_small_mod(before as nat, range as nat);
        assert((before + by) % range == (sum + by) % range);
        if 0 <= before + by < range {
            vstd::arithmetic::div_mod::lemma_small_mod((before + by) as nat, range as nat);
        } else if before + by == range {
            vstd::arithmetic::div_mod::lemma_mod_self_0(range);
        } else {
            vstd::arithmetic::div_mod::lemma_mod_add_multiples_vanish(-1, range);
            vstd::arithmetic::div_mod::lemma_small_mod((range - 1) as nat, range as nat);
        }
    }
}

/// Round robin begins where it left off: `states[k]` is the scheduler before
/// dispatch number `k` and `afters[k]` after it. Between two dispatches the
/// workers and the turn do not change.
pub open spec fn round_robin_run(
    states: Seq<SchedulerView>,
    tasks: Seq<TaskView>,
    afters: Seq<SchedulerView>,
    steps: Seq<DispatchStepView>,
) -> bool {
    &&& states.len() == tasks.len() == afters.len() == steps.len()
    &&& forall|k: int|
        0 <= k < states.len() ==> {
            &&& (#[trigger] states[k]).strategy == ScheduleStrategy::RoundRobin
            &&& dispatched(states[k], tasks[k], afters[k], steps[k])
        }
    &&& forall|k: int|
        0 < k < states.len() ==> {
            &&& (#[trigger] states[k]).workers == afters[k - 1].workers
            &&& states[k].rr_index == afters[k - 1].rr_index
        }
}

/// From a new scheduler on, round robin sends task number `k` to worker number
/// `k` modulo their number and to no other, and where it is delivered the
/// dispatch ends well. (The turn must not run through the end of its counter.)
pub proof fn law_round_robin_takes_turns(
    states: Seq<SchedulerView>,
    tasks: Seq<TaskView>,
    afters: Seq<SchedulerView>,
    steps: Seq<DispatchStepView>,
    k: int,
)
    requires
        round_robin_run(states, tasks, afters, steps),
        0 <= k < states.len() <= usize::MAX,
        states[0].rr_index == 0,
        0 < states[0].workers.len() <= usize::MAX,
    ensures
        afters[k].workers == states[0].workers,
        steps[k] == (DispatchStepView::Send {
            worker: (k % states[0].workers.len() as int) as usize,
            task: tasks[k],
        }),
        0 <= k % states[0].workers.len() as int <= usize::MAX,
        forall|post: SchedulerView, step: DispatchStepView| #[trigger]
            sent(afters[k], true, post, step) ==> step == DispatchStepView::Finished(true) && post
                == afters[k],
{
    lemma_turns(states, tasks, afters, steps, k);
    assert(dispatched(states[k], tasks[k], afters[k], steps[k]));
    vstd::arithmetic::div_mod::lemma_mod_bound(k, states[0].workers.len() as int);
}

/// In as many round robin dispatches as there are workers, each worker gets
/// exactly one task. (The turn must not run through the end of its counter,
/// where it starts over from the first worker.)
pub proof fn law_round_robin_is_fair(
    states: Seq<SchedulerView>,
    tasks: Seq<TaskView>,
    afters: Seq<SchedulerView>,
    steps: Seq<DispatchStepView>,
)
    requires
        round_robin_run(states, tasks, afters, steps),
        states.len() > 0,
        states.len() == states[0].workers.len(),
        states[0].rr_index + states.len() <= usize::MAX,
    ensures
        forall|k: int| 0 <= k < steps.len() ==> #[trigger] steps[k] is Send,
        forall|w: int|
            0 <= w < steps.len() ==> #[trigger] gets_a_task(steps, w),
        forall|j: int, k: int|
            0 <= j < k < steps.len() ==> #[trigger] send_target(steps[j]) != #[trigger] send_target(
                steps[k],
            ),
{
    let n = states.len() as int;
    let start = states[0].rr_index as int;
    assert forall|k: int| 0 <= k < n implies #[trigger] steps[k] is Send && send_target(steps[k])
        == (start + k) % n by {
        lemma_turns(states, tasks, afters, steps, k);
    }
    assert forall|w: int| 0 <= w < n implies #[trigger] gets_a_task(steps, w) by {
        let r = start % n;
        let q = start / n;
        vstd::arithmetic::div_mod::lemma_fundamental_div_mod(start, n);
        vstd::arithmetic::div_mod::lemma_mod_bound(start, n);
        let k = if w >= r {
            w - r
        } else {
            w - r + n
        };
        let turns = if w >= r {
            q
        } else {
            q + 1
        };
        assert((q + 1) * n == q * n + n) by (nonlinear_arith);
        assert(n * q == q * n) by (nonlinear_arith);
        assert(start + k == turns * n + w);
        vstd::arithmetic::div_mod::lemma_fundamental_div_mod_converse(start + k, n, turns, w);
        assert(send_target(steps[k]) == w);
    }
    assert forall|j: int, k: int| 0 <= j < k < n implies #[trigger] send_target(steps[j])
        != #[trigger] send_target(steps[k]) by {
        assert(steps[j] is Send && steps[k] is Send);
        if (start + j) % n == (start + k) % n {
            vstd::arithmetic::div_mod::lemma_fundamental_div_mod(start + j, n);
            vstd::arithmetic::div_mod::lemma_fundamental_div_mod(start + k, n);
            let a = (start + j) / n;
            let b = (start + k) / n;
            assert(k - j == n * b - n * a);
            assert(false) by (nonlinear_arith)
                requires
                    0 < k - j < n,
                    k - j == n * b - n * a,
            ;
        }
    }
}

/// The worker that a step sends to.
pub open spec fn send_target(step: DispatchStepView) -> int {
    step->worker as int
}

/// One of the steps sends to worker `w`.
pub open spec fn gets_a_task(steps: Seq<DispatchStepView>, w: int) -> bool {
    exists|k: int| 0 <= k < steps.len() && #[trigger] send_target(steps[k]) == w
}

proof fn lemma_turns(
    states: Seq<SchedulerView>,
    tasks: Seq<TaskView>,
    afters: Seq<SchedulerView>,
    steps: Seq<DispatchStepView>,
    k: int,
)
    requires
        round_robin_run(states, tasks, afters, steps),
        0 < states[0].workers.len() <= usize::MAX,
        states[0].rr_index + states.len() <= usize::MAX,
        0 <= k < states.len(),
    ensures
        states[k].workers == states[0].workers,
        states[k].rr_index == states[0].rr_index + k,
        steps[k] is Send,
        send_target(steps[k]) == (states[0].rr_index + k) % (states[0].workers.len() as int),
    decreases k,
{
    if k > 0 {
        lemma_turns(states, tasks, afters, steps, k - 1);
        assert(dispatched(states[k - 1], tasks[k - 1], afters[k - 1], steps[k - 1]));
    }
    assert(dispatched(states[k], tasks[k], afters[k], steps[k]));
    vstd::arithmetic::div_mod::lemma_mod_bound(
        states[0].rr_index + k,
        states[0].workers.len() as int,
    );
}

/// Where the loads hold still, the least loaded dispatch finds a worker, and
/// none carries less.
pub proof fn law_least_loaded_finds_the_least(loads: Seq<usize>, worker: Option<usize>)
    requires
        least_loaded(loads, loads, worker),
    ensures
        worker matches Some(w) && w < loads.len() && forall|j: int|
            0 <= j < loads.len() ==> loads[w as int] <= #[trigger] loads[j],
{
    let least = choose|least: usize| #[trigger]
        smallest(loads, least) && match worker {
            Some(w) => {
                &&& w < loads.len()
                &&& loads[w as int] == least
                &&& forall|j: int| 0 <= j < w ==> #[trigger] loads[j] != least
            },
            None => !loads.contains(least),
        };
    assert(loads.contains(least));
}

/// What is sent out of the queue is the foremost of the tasks in it, and
/// leaves it.
pub proof fn law_foremost_is_sent(
    pre: SchedulerView,
    post: SchedulerView,
    worker: usize,
    task: TaskView,
)
    requires
        next_sent_by_reading(pre, post, DispatchStepView::Send { worker, task }),
    ensures
        pre.queue.contains(task),
        foremost(pre.queue, task),
        post == (SchedulerView { queue: pre.queue.remove(task), ..pre }),
{
}

/// With a worker there, sending goes on until the queue is empty or a send
/// fails.
pub proof fn law_queue_is_emptied(
    pre: SchedulerView,
    rooms: Seq<usize>,
    post: SchedulerView,
    accepted: bool,
)
    requires
        pre.workers.len() > 0,
        next_sent(pre, rooms, post, DispatchStepView::Finished(accepted)),
    ensures
        post.queue.len() == 0,
        accepted,
{
}

/// With a worker there and no other task waiting, a task that need not wait is
/// sent at once, and nothing is left behind.
pub proof fn law_sole_task_is_sent_at_once(
    pre: SchedulerView,
    task: TaskView,
    post: SchedulerView,
    step: DispatchStepView,
)
    requires
        pre.strategy == ScheduleStrategy::Priority || (pre.strategy
            == ScheduleStrategy::DelayedQueue && task.execute_after is None),
        pre.workers.len() > 0,
        pre.queued() == 0,
        dispatched(pre, task, post, step),
    ensures
        step matches DispatchStepView::Send { task: sent_task, .. } && sent_task == task,
        post.queued() == 0,
{
    broadcast use {
        vstd::seq_lib::group_to_multiset_ensures,
        vstd::multiset::group_multiset_axioms,
        vstd::multiset::group_multiset_properties,
    };

    let counted = SchedulerView { pending: one_more(pre.pending), ..pre };
    let now = choose|now: Timestamp| #[trigger]
        now.clock_reading() && queues_flushed(counted.enqueued(task, now), post, step);
    let queued = counted.enqueued(task, now);
    let mid = choose|mid: SchedulerView| #[trigger]
        flushed_by_clock(queued, mid) && next_sent_by_reading(mid, post, step);
    assert(pre.queue =~= Multiset::empty());
    assert(queued.queue =~= Multiset::singleton(task));
    assert(Seq::<TaskView>::empty().to_multiset() =~= Multiset::empty());
    assert(mid.queue =~= Multiset::singleton(task));
    assert(mid.delayed.len() == 0);
    assert(mid.queue.len() == 1);
    let rooms = choose|rooms: Seq<usize>| #[trigger]
        rooms_reading(mid.workers, rooms) && next_sent(mid, rooms, post, step);
    let t = choose|t: TaskView|
        {
            &&& #[trigger] mid.queue.contains(t)
            &&& foremost(mid.queue, t)
            &&& post == (SchedulerView { queue: mid.queue.remove(t), ..mid })
            &&& step matches DispatchStepView::Send { worker, task: out } && out == t
        };
    assert(t == task);
    assert(post.queue =~= Multiset::empty());
}

/// The tasks that `steps` send, in their order.
pub open spec fn tasks_sent(steps: Seq<DispatchStepView>) -> Seq<TaskView>
    decreases steps.len(),
{
    if steps.len() == 0 {
        Seq::empty()
    } else {
        match steps.last() {
            DispatchStepView::Send { task, .. } => tasks_sent(steps.drop_last()).push(task),
            DispatchStepView::Finished(_) => tasks_sent(steps.drop_last()),
        }
    }
}

/// The emptying of the queue from `states[0]` on: `steps[k]` leads from
/// `states[k]` to the next state, and all steps but the last send a task.
pub open spec fn emptying_run(states: Seq<SchedulerView>, steps: Seq<DispatchStepView>) -> bool {
    &&& steps.len() > 0
    &&& states.len() == steps.len() + 1
    &&& forall|k: int|
        0 <= k < steps.len() ==> next_sent_by_reading(
            states[k],
            states[k + 1],
            #[trigger] steps[k],
        )
    &&& forall|k: int| 0 <= k < steps.len() - 1 ==> #[trigger] steps[k] is Send
    &&& steps.last() is Finished
}

/// With a worker there, the emptying of the queue sends every task that was in
/// it exactly once, none before one that it comes behind, and leaves all but
/// the queue as it was.
pub proof fn law_queue_is_emptied_in_order(
    states: Seq<SchedulerView>,
    steps: Seq<DispatchStepView>,
)
    requires
        emptying_run(states, steps),
        states[0].workers.len() > 0,
    ensures
        tasks_sent(steps).to_multiset() == states[0].queue,
        forall|i: int, j: int|
            0 <= i < j < tasks_sent(steps).len() ==> !(#[trigger] tasks_sent(steps)[i]).behind(
                #[trigger] tasks_sent(steps)[j],
            ),
        states.last() == (SchedulerView { queue: Multiset::empty(), ..states[0] }),
        steps.last() == DispatchStepView::Finished(true),
{
    broadcast use {
        vstd::seq_lib::group_to_multiset_ensures,
        vstd::multiset::group_multiset_axioms,
        vstd::multiset::group_multiset_properties,
    };

    let n = steps.len() - 1;
    lemma_sends_so_far(states, steps, n);
    assert(next_sent_by_reading(states[n], states[n + 1], steps[n]));
    assert(states[n].queue.len() == 0);
    assert(states[n].queue =~= Multiset::empty());
    assert(steps.take(n) =~= steps.drop_last());
    assert(tasks_sent(steps) == tasks_sent(steps.take(n)));
    assert(tasks_sent(steps).to_multiset() =~= states[0].queue);
}

proof fn lemma_sends_so_far(states: Seq<SchedulerView>, steps: Seq<DispatchStepView>, k: int)
    requires
        emptying_run(states, steps),
        states[0].workers.len() > 0,
        0 <= k < steps.len(),
    ensures
        states[k] == (SchedulerView { queue: states[k].queue, ..states[0] }),
        tasks_sent(steps.take(k)).to_multiset().add(states[k].queue) == states[0].queue,
        forall|i: int, j: int|
            0 <= i < j < tasks_sent(steps.take(k)).len() ==> !(#[trigger] tasks_sent(
                steps.take(k),
            )[i]).behind(#[trigger] tasks_sent(steps.take(k))[j]),
        forall|i: int, t: TaskView|
            0 <= i < tasks_sent(steps.take(k)).len() && #[trigger] states[k].queue.contains(t)
                ==> !(#[trigger] tasks_sent(steps.take(k))[i]).behind(t),
    decreases k,
{
    broadcast use {
        vstd::seq_lib::group_to_multiset_ensures,
        vstd::multiset::group_multiset_axioms,
        vstd::multiset::group_multiset_properties,
    };

    if k == 0 {
        assert(tasks_sent(steps.take(0)).to_multiset().add(states[0].queue) =~= states[0].queue);
    } else {
        lemma_sends_so_far(states, steps, k - 1);
        assert(steps[k - 1] is Send);
        assert(next_sent_by_reading(states[k - 1], states[k], steps[k - 1]));
        let earlier = tasks_sent(steps.take(k - 1));
        let queue = states[k - 1].queue;
        let t = steps[k - 1]->task;
        assert(queue.contains(t) && foremost(queue, t));
        assert(states[k].queue == queue.remove(t));
        assert(steps.take(k).drop_last() =~= steps.take(k - 1));
        assert(tasks_sent(steps.take(k)) == earlier.push(t));
        assert(earlier.push(t).to_multiset().add(queue.remove(t)) =~= earlier.to_multiset().add(
            queue,
        ));
        assert forall|u: TaskView| #[trigger] states[k].queue.contains(u) implies queue.contains(
            u,
        ) && !t.behind(u) by {}
    }
}

/// The delayed tasks that are due at `now`.
pub open spec fn due_at(delayed: Seq<TaskView>, now: Timestamp) -> Seq<TaskView> {
    delayed.filter(|t: TaskView| t.due(now))
}

/// The delayed tasks that are not due at `now`.
pub open spec fn not_due_at(delayed: Seq<TaskView>, now: Timestamp) -> Seq<TaskView> {
    delayed.filter(|t: TaskView| !t.due(now))
}

/// With a worker there and a clock that shows `now` throughout, a flush of the
/// queues whose tasks are all delivered sends every task of the queue and every
/// delayed task that is due exactly once, none before one that it comes behind.
/// What is left waiting are the delayed tasks that are not due; the count of
/// pending tasks and the workers stay as they were. (`steps[0]` is that of the
/// flush, the others those that follow on a delivery.)
pub proof fn law_flush_sends_all_that_is_due(
    pre: SchedulerView,
    now: Timestamp,
    looks: Seq<Timestamp>,
    states: Seq<SchedulerView>,
    steps: Seq<DispatchStepView>,
)
    requires
        pre.strategy == ScheduleStrategy::Priority || pre.strategy
            == ScheduleStrategy::DelayedQueue,
        pre.workers.len() > 0,
        looks == Seq::new(pre.delayed.len(), |i: int| now),
        steps.len() > 0,
        states.len() == steps.len(),
        next_sent_by_reading(pre.flushed(now, looks), states[0], steps[0]),
        forall|k: int|
            0 < k < steps.len() ==> sent(states[k - 1], true, states[k], #[trigger] steps[k]),
        forall|k: int| 0 <= k < steps.len() - 1 ==> #[trigger] steps[k] is Send,
        steps.last() is Finished,
    ensures
        tasks_sent(steps).to_multiset() == pre.queue.add(due_at(pre.delayed, now).to_multiset()),
        forall|i: int, j: int|
            0 <= i < j < tasks_sent(steps).len() ==> !(#[trigger] tasks_sent(steps)[i]).behind(
                #[trigger] tasks_sent(steps)[j],
            ),
        states.last() == (SchedulerView {
            queue: Multiset::empty(),
            delayed: not_due_at(pre.delayed, now),
            ..pre
        }),
        states.last().queued() == not_due_at(pre.delayed, now).len(),
{
    let mid = pre.flushed(now, looks);
    let all = seq![mid] + states;
    lemma_steady_flush(pre.delayed, now, looks);
    assert forall|k: int| 0 <= k < steps.len() implies next_sent_by_reading(
        all[k],
        all[k + 1],
        #[trigger] steps[k],
    ) by {
        lemma_strategy_stays(mid, states, steps, k);
        assert(all[k + 1] == states[k]);
        if k > 0 {
            assert(all[k] == states[k - 1]);
            lemma_strategy_stays(mid, states, steps, k - 1);
        }
    }
    law_queue_is_emptied_in_order(all, steps);
    assert(all.last() == states.last());
}

proof fn lemma_strategy_stays(
    mid: SchedulerView,
    states: Seq<SchedulerView>,
    steps: Seq<DispatchStepView>,
    k: int,
)
    requires
        mid.strategy == ScheduleStrategy::Priority || mid.strategy
            == ScheduleStrategy::DelayedQueue,
        states.len() == steps.len(),
        0 <= k < steps.len(),
        next_sent_by_reading(mid, states[0], steps[0]),
        forall|i: int|
            0 < i < steps.len() ==> sent(states[i - 1], true, states[i], #[trigger] steps[i]),
    ensures
        states[k].strategy == mid.strategy,
    decreases k,
{
    if k > 0 {
        lemma_strategy_stays(mid, states, steps, k - 1);
        assert(sent(states[k - 1], true, states[k], steps[k]));
    }
}

proof fn lemma_steady_flush(delayed: Seq<TaskView>, now: Timestamp, looks: Seq<Timestamp>)
    requires
        looks == Seq::new(delayed.len(), |i: int| now),
    ensures
        released(delayed, now, looks) == due_at(delayed, now),
        held_back(delayed, now, looks) == not_due_at(delayed, now),
    decreases delayed.len(),
{
    reveal(Seq::filter);
    if delayed.len() > 0 {
        let fewer = Seq::new((delayed.len() - 1) as nat, |i: int| now);
        assert(looks.drop_last() =~= fewer);
        lemma_steady_flush(delayed.drop_last(), now, fewer);
    }
}

/// With a worker there, a delayed task that is due when the queues are flushed
/// is sent, or waits in the queue for the sends that follow.
pub proof fn law_due_task_is_sent_or_queued(
    pre: SchedulerView,
    now: Timestamp,
    looks: Seq<Timestamp>,
    post: SchedulerView,
    step: DispatchStepView,
    i: int,
)
    requires
        pre.workers.len() > 0,
        looks.len() == pre.delayed.len(),
        0 <= i < pre.delayed.len(),
        pre.delayed[i].due(now),
        next_sent_by_reading(pre.flushed(now, looks), post, step),
    ensures
        step is Send,
        step->task == pre.delayed[i] || post.queue.contains(pre.delayed[i]),
{
    broadcast use {
        vstd::seq_lib::group_to_multiset_ensures,
        vstd::multiset::group_multiset_axioms,
        vstd::multiset::group_multiset_properties,
    };

    law_flush_releases_what_is_due(pre.delayed, now, looks, i);
    let mid = pre.flushed(now, looks);
    assert(mid.queue.contains(pre.delayed[i]));
    assert(mid.queue.len() > 0);
}

/// A flush hands every delayed task that is due to the queue.
pub proof fn law_flush_releases_what_is_due(
    delayed: Seq<TaskView>,
    now: Timestamp,
    looks: Seq<Timestamp>,
    i: int,
)
    requires
        looks.len() == delayed.len(),
        0 <= i < delayed.len(),
        delayed[i].due(now) || delayed[i].due(looks[i]),
    ensures
        released(delayed, now, looks).contains(delayed[i]),
    decreases delayed.len(),
{
    let last = delayed.len() - 1;
    let rest = released(delayed.drop_last(), now, looks.drop_last());
    let all = released(delayed, now, looks);
    if i == last {
        assert(all == rest.push(delayed[i]));
        assert(all[rest.len() as int] == delayed[i]);
    } else {
        assert(delayed.drop_last()[i] == delayed[i]);
        assert(looks.drop_last()[i] == looks[i]);
        law_flush_releases_what_is_due(delayed.drop_last(), now, looks.drop_last(), i);
        let k = choose|k: int| 0 <= k < rest.len() && rest[k] == delayed[i];
        assert(all[k] == delayed[i]);
    }
}

/// A flush keeps every delayed task that is not due waiting.
pub proof fn law_flush_holds_what_is_not_due(
    delayed: Seq<TaskView>,
    now: Timestamp,
    looks: Seq<Timestamp>,
    i: int,
)
    requires
        looks.len() == delayed.len(),
        0 <= i < delayed.len(),
        !delayed[i].due(now),
        !delayed[i].due(looks[i]),
    ensures
        held_back(delayed, now, looks).contains(delayed[i]),
    decreases delayed.len(),
{
    let last = delayed.len() - 1;
    let rest = held_back(delayed.drop_last(), now, looks.drop_last());
    let all = held_back(delayed, now, looks);
    if i == last {
        assert(all == rest.push(delayed[i]));
        assert(all[rest.len() as int] == delayed[i]);
    } else {
        assert(delayed.drop_last()[i] == delayed[i]);
        assert(looks.drop_last()[i] == looks[i]);
        law_flush_holds_what_is_not_due(delayed.drop_last(), now, looks.drop_last(), i);
        let k = choose|k: int| 0 <= k < rest.len() && rest[k] == delayed[i];
        assert(all[k] == delayed[i]);
    }
}

/// A flush neither loses nor doubles a task: each goes to the queue or keeps
/// waiting.
pub proof fn law_flush_keeps_all_tasks(
    pre: SchedulerView,
    now: Timestamp,
    looks: Seq<Timestamp>,
)
    requires
        looks.len() == pre.delayed.len(),
    ensures
        pre.flushed(now, looks).queue.add(
            pre.flushed(now, looks).delayed.to_multiset(),
        ) == pre.queue.add(pre.delayed.to_multiset()),
        pre.flushed(now, looks).queued() == pre.queued(),
{
    broadcast use vstd::seq_lib::group_to_multiset_ensures;

    lemma_flush_parts(pre.delayed, now, looks);
    let post = pre.flushed(now, looks);
    assert(post.queue.add(post.delayed.to_multiset()) =~= pre.queue.add(
        pre.delayed.to_multiset(),
    ));
    assert(post.queue.add(post.delayed.to_multiset()).len() == post.queue.len()
        + post.delayed.len());
    assert(pre.queue.add(pre.delayed.to_multiset()).len() == pre.queue.len()
        + pre.delayed.len());
}

proof fn lemma_flush_parts(
    delayed: Seq<TaskView>,
    now: Timestamp,
    looks: Seq<Timestamp>,
)
    requires
        looks.len() == delayed.len(),
    ensures
        released(delayed, now, looks).to_multiset().add(
            held_back(delayed, now, looks).to_multiset(),
        ) == delayed.to_multiset(),
    decreases delayed.len(),
{
    broadcast use vstd::seq_lib::group_to_multiset_ensures;

    if delayed.len() == 0 {
        assert(delayed =~= Seq::empty());
        assert(released(delayed, now, looks).to_multiset().add(
            held_back(delayed, now, looks).to_multiset(),
        ) =~= delayed.to_multiset());
    } else {
        let d = delayed.drop_last();
        let l = looks.drop_last();
        let task = delayed.last();
        lemma_flush_parts(d, now, l);
        assert(delayed =~= d.push(task));
        assert(released(delayed, now, looks).to_multiset().add(
            held_back(delayed, now, looks).to_multiset(),
        ) =~= delayed.to_multiset());
    }
}

// Growing and shrinking.

/// A pool that grows gets at least one worker and never more than allowed.
pub proof fn law_growth_is_bounded(
    config: PoolConfig,
    pending: usize,
    workers: usize,
    idle: nat,
    count: usize,
)
    requires
        config.scale_up_threshold > 0,
        scale_rule(config, pending, workers, idle) == ScaleDecision::Up(count),
    ensures
        1 <= count,
        workers + count <= config.max_workers,
        pending > config.scale_up_threshold,
{
    assert(workers < target_workers(config, pending, workers) <= config.max_workers);
}

/// A pool shrinks only without a task before it and after it was idle for the
/// idle timeout, and then down to the fewest workers at once.
pub proof fn law_shrinking_waits_for_the_timeout(
    config: PoolConfig,
    pending: usize,
    workers: usize,
    idle: nat,
    count: usize,
)
    requires
        scale_rule(config, pending, workers, idle) == ScaleDecision::Down(count),
    ensures
        pending == 0,
        idle >= config.idle_timeout_secs * NANOS_PER_SEC,
        count >= 1,
        workers - count == config.min_workers,
{
}

/// A pool within its limits stays within them, whichever way it scales.
pub proof fn law_scaling_keeps_the_limits(
    config: PoolConfig,
    pending: usize,
    workers: usize,
    idle: nat,
)
    requires
        config.scale_up_threshold > 0,
        config.min_workers <= workers <= config.max_workers,
    ensures
        match scale_rule(config, pending, workers, idle) {
            ScaleDecision::Hold => true,
            ScaleDecision::Up(count) => config.min_workers <= workers + count
                <= config.max_workers,
            ScaleDecision::Down(count) => config.min_workers <= workers - count
                <= config.max_workers,
        },
{
    if grows(config, pending, workers) {
        assert(workers < target_workers(config, pending, workers) <= config.max_workers);
    }
}

/// One look at an idle pool removes all surplus workers, the newest ones, and
/// leaves the fewest.
pub proof fn law_shrinking_removes_all_surplus(
    pre: PoolView,
    now: nat,
    post: PoolView,
    step: ScaleStep,
)
    requires
        scaled(pre, now, post, step),
        step is Removed,
        pre.scheduler.workers.len() <= usize::MAX,
        ids_of(pre.scheduler.workers).no_duplicates(),
    ensures
        post.scheduler.workers == pre.scheduler.workers.take(pre.config.min_workers as int),
        post.scheduler.workers.len() == pre.config.min_workers,
{
    let workers = pre.scheduler.workers;
    let count = workers.len() - pre.config.min_workers;
    assert(shrinks(
        pre.config,
        pre.load() as usize,
        workers.len() as usize,
        pre.idle_for(now),
    ));
    lemma_last_out(workers, count);
}

/// One look at the load of a pool that does not shut down removes workers
/// exactly if no task is before it, it has more than the fewest workers and was
/// idle for the timeout; it then keeps exactly the fewest, those registered
/// first. It hands out new workers exactly if more tasks than the threshold are
/// before it and it has fewer workers than it may. Else nothing changes. Only
/// removing touches the workers that there are.
pub proof fn law_scale_check_follows_the_load(
    pre: PoolView,
    now: nat,
    post: PoolView,
    step: ScaleStep,
)
    requires
        scaled(pre, now, post, step),
        !pre.shutting_down,
        pre.load() <= usize::MAX,
        pre.config.scale_up_threshold > 0,
        pre.scheduler.workers.len() <= usize::MAX,
        ids_of(pre.scheduler.workers).no_duplicates(),
    ensures
        step is Removed <==> pre.load() == 0 && pre.scheduler.workers.len()
            > pre.config.min_workers && pre.idle_for(now) >= pre.config.idle_timeout_secs
            * NANOS_PER_SEC,
        step is Spawn <==> pre.load() > pre.config.scale_up_threshold
            && pre.scheduler.workers.len() < pre.config.max_workers,
        step is Removed || step is Spawn || (step is Hold && post == pre),
        post.scheduler.workers == if step is Removed {
            pre.scheduler.workers.take(pre.config.min_workers as int)
        } else {
            pre.scheduler.workers
        },
{
    if step is Removed {
        law_shrinking_removes_all_surplus(pre, now, post, step);
    }
}

proof fn lemma_last_out(workers: Seq<WorkerSlot>, count: int)
    requires
        0 <= count <= workers.len(),
        ids_of(workers).no_duplicates(),
    ensures
        without_workers(workers, last_ids(workers, count)) == workers.take(workers.len() - count),
    decreases count,
{
    let n = workers.len();
    let ids = last_ids(workers, count);
    if count == 0 {
        assert(workers.take(n as int) =~= workers);
    } else {
        lemma_last_out(workers, count - 1);
        assert(ids.drop_last() =~= last_ids(workers, count - 1));
        let left = workers.take(n - count + 1);
        assert(ids.last() == left.last().id);
        assert forall|i: int| 0 <= i < left.len() - 1 implies (#[trigger] left[i]).id
            != left.last().id by {
            assert(ids_of(workers)[i] != ids_of(workers)[n - count]);
        }
        lemma_last_removed(left);
        assert(left.drop_last() =~= workers.take(n - count));
    }
}

proof fn lemma_last_removed(workers: Seq<WorkerSlot>)
    requires
        workers.len() > 0,
        forall|i: int|
            0 <= i < workers.len() - 1 ==> (#[trigger] workers[i]).id != workers.last().id,
    ensures
        without_worker(workers, workers.last().id) == workers.drop_last(),
{
    reveal(Seq::filter);
    lemma_others_stay(workers.drop_last(), workers.last().id);
}

proof fn lemma_others_stay(workers: Seq<WorkerSlot>, id: usize)
    requires
        forall|i: int| 0 <= i < workers.len() ==> (#[trigger] workers[i]).id != id,
    ensures
        without_worker(workers, id) == workers,
    decreases workers.len(),
{
    reveal(Seq::filter);
    if workers.len() > 0 {
        lemma_others_stay(workers.drop_last(), id);
        assert(workers =~= workers.drop_last().push(workers.last()));
    } else {
        assert(workers =~= Seq::empty());
    }
}

// Shutting down.

/// A pool that shuts down has let go of its workers and of the tasks that
/// waited, accepts no more, keeps its dead letters and counters, and neither
/// grows nor shrinks again.
pub proof fn law_shutdown_lets_go(pre: PoolView, now: nat, post: PoolView, step: ScaleStep)
    requires
        scaled(pre.shut(), now, post, step),
    ensures
        pre.shut().shutting_down,
        pre.shut().task_tx is None,
        pre.shut().scheduler.workers.len() == 0,
        pre.shut().scheduler.queued() == 0,
        pre.shut().scheduler.pending == pre.scheduler.pending,
        pre.shut().dead_letter == pre.dead_letter,
        pre.shut().counters == pre.counters,
        step is Stop,
        post == pre.shut(),
{
}

/// A task that still comes out of the channel after the shutdown is sent to
/// nobody, and a flush sends nothing either.
pub proof fn law_nothing_is_sent_after_shutdown(
    pre: PoolView,
    task: TaskView,
    post: SchedulerView,
    step: DispatchStepView,
)
    requires
        dispatched(pre.shut().scheduler, task, post, step) || queues_flushed(
            pre.shut().scheduler,
            post,
            step,
        ),
    ensures
        step is Finished,
{
}

} // verus!
