//! What becomes of tasks, retries, counters and dead letters, said of plain
//! numbers and fields.

use crate::dead_letter::{
    entry_views, first_entry_for, pushed, requeued_by_id, restarted_tasks, DeadLetterView,
};
use crate::laws::{law_failing_task_uses_up_its_retries, over_with};
use crate::metrics::MetricsCounters;
use crate::queue::{foremost, views};
use crate::scheduler::{DispatchStep, DispatchStepView};
use crate::time::{last_moment, Timestamp};
use crate::types::{
    delayed_from, doublings, DeadLetterEntry, DeadLetterEntryView, JobResult, JobResultView,
    Priority, RetryPolicy, Task, TaskReceipt, TaskView,
};
use crate::worker::{
    buried, counted, given_up, handler_result, ExecutionStep, ExecutionStepView, ExecutionView,
    HandlerOutcome, TaskResult, TaskResultView,
};
use core::cmp::Ordering;
use vstd::arithmetic::power2::pow2;
use vstd::multiset::Multiset;
use vstd::prelude::*;

verus! {

// Views.

/// The view of a task shows all of it.
pub proof fn law_task_is_seen_whole(t: Task)
    ensures
        t@.id == t.id,
        t@.payload == t.payload@,
        t@.priority == t.priority,
        t@.created_at == t.created_at,
        t@.retry_policy == t.retry_policy,
        t@.attempt == t.attempt,
        t@.execute_after == t.execute_after,
{
}

/// The view of a result shows all of it.
pub proof fn law_result_is_seen_whole(r: JobResult)
    ensures
        r matches JobResult::Success(data) ==> r@ == JobResultView::Success(data@),
        r matches JobResult::Failure(message) ==> r@ == JobResultView::Failure(message@),
        r matches JobResult::Panic(message) ==> r@ == JobResultView::Panic(message@),
{
}

/// The view of a receipt shows all of it.
pub proof fn law_receipt_is_seen_whole(r: TaskReceipt)
    ensures
        r@.task_id == r.task_id,
        r@.result == r.result@,
        r@.attempts == r.attempts,
        r@.completed_at == r.completed_at,
        r@.elapsed_ms == r.elapsed_ms,
{
}

/// The view of a dead letter shows all of it.
pub proof fn law_dead_letter_is_seen_whole(e: DeadLetterEntry)
    ensures
        e@.task == e.task@,
        e@.last_error == e.last_error@,
        e@.attempts == e.attempts,
        e@.failed_at == e.failed_at,
{
}

/// The view of what became of a task shows all of it.
pub proof fn law_task_result_is_seen_whole(r: TaskResult)
    ensures
        r@.task_id == r.task_id,
        r@.result == r.result@,
        r@.attempts == r.attempts,
        r@.max_attempts == r.max_attempts,
        r@.elapsed_ms == r.elapsed_ms,
        r@.original_task == r.original_task@,
{
}

/// The views of the steps show all of them.
pub proof fn law_steps_are_seen_whole(d: DispatchStep, e: ExecutionStep)
    ensures
        d matches DispatchStep::Send { worker, task } ==> d@ == (DispatchStepView::Send {
            worker,
            task: task@,
        }),
        d matches DispatchStep::Finished(accepted) ==> d@ == DispatchStepView::Finished(accepted),
        e matches ExecutionStep::Retry { execution, delay } ==> e@ == (ExecutionStepView::Retry {
            execution: execution@,
            delay: delay@ as int,
        }),
        e matches ExecutionStep::Finished(result) ==> e@ == ExecutionStepView::Finished(result@),
{
}

/// The views of many tasks, and of many dead letters, are those of each, in
/// their order.
pub proof fn law_many_are_seen_one_by_one(
    tasks: Seq<Task>,
    entries: Seq<DeadLetterEntry>,
    i: int,
)
    ensures
        views(tasks).len() == tasks.len(),
        0 <= i < tasks.len() ==> views(tasks)[i] == tasks[i]@,
        entry_views(entries).len() == entries.len(),
        0 <= i < entries.len() ==> entry_views(entries)[i] == entries[i]@,
{
}

// Time.

/// Moments are counted in nanoseconds from 1970, and the calendar ends with the
/// year 262142.
pub proof fn law_moments_are_counted_in_nanoseconds(t: Timestamp)
    ensures
        t.since_epoch() == t.secs * 1_000_000_000 + t.nanos,
        t.valid() <==> -8_334_601_228_800 <= t.secs <= 8_210_266_876_799 && t.nanos
            <= 999_999_999,
        last_moment().secs == 8_210_266_876_799,
        last_moment().nanos == 999_999_999,
        t.clock_reading() ==> t.valid() && t.secs >= 0,
{
}

/// Of two moments one lies before the other exactly if fewer nanoseconds have
/// passed until it.
pub proof fn law_earlier_is_fewer_nanoseconds(a: Timestamp, b: Timestamp)
    requires
        a.nanos <= 999_999_999,
        b.nanos <= 999_999_999,
    ensures
        a.before(b) <==> a.secs * 1_000_000_000 + a.nanos < b.secs * 1_000_000_000 + b.nanos,
{
}

/// A task without a delay is always due; one with a delay from the moment on
/// that it waits for.
pub proof fn law_task_is_due_from_its_moment_on(task: TaskView, now: Timestamp)
    ensures
        task.execute_after is None ==> task.due(now),
        task.execute_after matches Some(t) ==> (task.due(now) <==> now.secs > t.secs || (now.secs
            == t.secs && now.nanos >= t.nanos)),
{
}

/// A delayed task waits for the moment that lies exactly the delay after the one
/// it was delayed at; it is not due before, and due then. No other field
/// changes. (Delays beyond what the calendar can add are cut to that.)
pub proof fn law_delayed_task_waits_exactly_so_long(
    task: TaskView,
    start: Timestamp,
    delay: nat,
    delayed: TaskView,
    now: Timestamp,
)
    requires
        delayed_from(task, start, delay, delayed),
        start.nanos <= 999_999_999,
        now.nanos <= 999_999_999,
    ensures
        delayed.execute_after is Some,
        delay <= 9_223_372_036_854_775_807_000_000 ==> {
            let end = delayed.execute_after->0;
            let waited = (now.secs * 1_000_000_000 + now.nanos) - (start.secs * 1_000_000_000
                + start.nanos);
            &&& end.secs * 1_000_000_000 + end.nanos == start.secs * 1_000_000_000 + start.nanos
                + delay
            &&& end.nanos <= 999_999_999
            &&& delayed.due(now) <==> waited >= delay
        },
        delay > 0 ==> !delayed.due(start),
        delayed.id == task.id,
        delayed.payload == task.payload,
        delayed.priority == task.priority,
        delayed.created_at == task.created_at,
        delayed.retry_policy == task.retry_policy,
        delayed.attempt == task.attempt,
{
}

// Tasks.

/// A new task has the given identity and payload, normal priority, no retries,
/// no attempts and no delay.
pub proof fn law_new_task_starts_plain(id: u128, created_at: Timestamp, payload: Seq<u8>)
    ensures
        TaskView::fresh(id, created_at, payload).id == id,
        TaskView::fresh(id, created_at, payload).payload == payload,
        TaskView::fresh(id, created_at, payload).created_at == created_at,
        TaskView::fresh(id, created_at, payload).priority == Priority::Normal,
        TaskView::fresh(id, created_at, payload).retry_policy == RetryPolicy::Never,
        TaskView::fresh(id, created_at, payload).attempt == 0,
        TaskView::fresh(id, created_at, payload).execute_after is None,
{
}

/// A task that is tried afresh has no attempts, and is else what it was.
pub proof fn law_restart_only_forgets_attempts(task: TaskView)
    ensures
        task.restarted().attempt == 0,
        task.restarted().id == task.id,
        task.restarted().payload == task.payload,
        task.restarted().priority == task.priority,
        task.restarted().created_at == task.created_at,
        task.restarted().retry_policy == task.retry_policy,
        task.restarted().execute_after == task.execute_after,
{
}

/// A task comes behind another exactly if it is less urgent, from low over
/// normal and high to critical, or as urgent and created later.
pub proof fn law_critical_goes_before_high_before_normal_before_low(a: TaskView, b: TaskView)
    ensures
        a.behind(b) <==> (match a.priority {
            Priority::Low => !(b.priority is Low),
            Priority::Normal => b.priority is High || b.priority is Critical,
            Priority::High => b.priority is Critical,
            Priority::Critical => false,
        }) || (a.priority == b.priority && (a.created_at.secs > b.created_at.secs || (a.created_at.secs == b.created_at.secs
            && a.created_at.nanos > b.created_at.nanos))),
        a.order(b) == Ordering::Less <==> a.behind(b),
        a.order(b) == Ordering::Greater <==> b.behind(a),
        a.order(b) == Ordering::Equal <==> a.priority == b.priority && a.created_at
            == b.created_at,
{
}

/// The foremost of the waiting tasks is one that comes behind none of them.
pub proof fn law_foremost_is_behind_none(waiting: Multiset<TaskView>, t: TaskView)
    ensures
        foremost(waiting, t) <==> forall|u: TaskView| #[trigger]
            waiting.count(u) > 0 ==> !t.behind(u),
{
    if foremost(waiting, t) {
        assert forall|u: TaskView| #[trigger] waiting.count(u) > 0 implies !t.behind(u) by {
            assert(waiting.contains(u));
        }
    }
    if forall|u: TaskView| #[trigger] waiting.count(u) > 0 ==> !t.behind(u) {
        assert forall|u: TaskView| #[trigger] waiting.contains(u) implies !t.behind(u) by {
            assert(waiting.count(u) > 0);
        }
    }
}

// Retries.

/// A task that never succeeds, and was never tried before, is run once without
/// a retry policy, and once more than the number of retries that its policy
/// names, whatever else the policy says. A task that was tried before is run as
/// many times less, but at least once.
pub proof fn law_runs_of_each_policy(
    task: TaskView,
    results: Seq<JobResultView>,
    elapsed: nat,
)
    requires
        task.attempt + results.len() <= u32::MAX,
        forall|k: int| 0 <= k < results.len() ==> !(#[trigger] results[k] is Success),
    ensures
        ({
            let over = over_with(ExecutionView { task, attempt: task.attempt }, results, elapsed);
            let runs = results.len() as int;
            let tried = task.attempt as int;
            match task.retry_policy {
                RetryPolicy::Never => over <==> runs == 1,
                RetryPolicy::Immediate { max_retries } => over <==> runs == if tried
                    <= max_retries {
                    max_retries + 1 - tried
                } else {
                    1
                },
                RetryPolicy::FixedDelay { max_retries, delay_secs } => over <==> runs == if tried
                    <= max_retries {
                    max_retries + 1 - tried
                } else {
                    1
                },
                RetryPolicy::ExponentialBackoff {
                    max_retries,
                    base_delay_secs,
                    max_delay_secs,
                } => over <==> runs == if tried <= max_retries {
                    max_retries + 1 - tried
                } else {
                    1
                },
            }
        }),
{
    law_failing_task_uses_up_its_retries(
        ExecutionView { task, attempt: task.attempt },
        results,
        elapsed,
    );
}

/// The number of retries is the one that the policy names.
pub proof fn law_retries_of_each_policy(policy: RetryPolicy)
    ensures
        policy is Never ==> policy.retries() == 0,
        policy matches RetryPolicy::Immediate { max_retries } ==> policy.retries() == max_retries,
        policy matches RetryPolicy::FixedDelay { max_retries, .. } ==> policy.retries()
            == max_retries,
        policy matches RetryPolicy::ExponentialBackoff { max_retries, .. } ==> policy.retries()
            == max_retries,
{
}

/// The wait before a retry: none without a delay, the given seconds with a fixed
/// one. With backoff the first wait is the base and each further one twice the
/// last, none longer than the given maximum.
pub proof fn law_waits_of_each_policy(policy: RetryPolicy, attempt: u32)
    ensures
        policy is Never || policy is Immediate ==> policy.delay_nanos(attempt) == 0,
        policy matches RetryPolicy::FixedDelay { delay_secs, .. } ==> policy.delay_nanos(attempt)
            == delay_secs * 1_000_000_000,
        policy matches RetryPolicy::ExponentialBackoff { base_delay_secs, max_delay_secs, .. } ==> {
            let most = max_delay_secs * 1_000_000_000;
            let first = base_delay_secs * 1_000_000_000;
            let wait = policy.delay_nanos(attempt);
            let whole = first * pow2(attempt as nat);
            &&& attempt == 0 ==> wait == if first <= most { first } else { most }
            &&& attempt < 63 ==> policy.delay_nanos((attempt + 1) as u32) == if 2 * wait <= most {
                2 * wait
            } else {
                most
            }
            &&& attempt < 64 ==> wait == if whole <= most { whole } else { most }
            &&& base_delay_secs == 0 ==> policy.delay_nanos(attempt) == 0
        },
{
    if let RetryPolicy::ExponentialBackoff { base_delay_secs, max_delay_secs, .. } = policy {
        let b = base_delay_secs as int;
        vstd::arithmetic::power2::lemma2_to64();
        if attempt < 64 {
            let p = pow2(attempt as nat) as int;
            assert(b * 1000 * p * 1_000_000 == b * 1_000_000_000 * p) by (nonlinear_arith);
        }
        if attempt < 63 {
            let p = pow2(attempt as nat) as int;
            vstd::arithmetic::power2::lemma_pow2_unfold((attempt + 1) as nat);
            let q = pow2((attempt + 1) as nat) as int;
            assert(q == 2 * p);
            assert(b * 1000 * q * 1_000_000 == 2 * (b * 1000 * p * 1_000_000)) by (nonlinear_arith)
                requires
                    q == 2 * p,
            ;
        }
        assert(b == 0 ==> b * 1000 * doublings(attempt) == 0) by (nonlinear_arith);
    }
}

/// The wait before a retry can be computed unless the milliseconds of the
/// backoff, before they are cut to the maximum, are more than a `u64` holds.
pub proof fn law_waits_that_fit(policy: RetryPolicy, attempt: u32)
    ensures
        !(policy is ExponentialBackoff) ==> policy.delay_fits(attempt),
        policy matches RetryPolicy::ExponentialBackoff { base_delay_secs, .. } ==> (
        policy.delay_fits(attempt) <==> base_delay_secs == 0 || (attempt < 64 && base_delay_secs
            * 1000 * pow2(attempt as nat) <= 0xffff_ffff_ffff_ffff)),
{
    if let RetryPolicy::ExponentialBackoff { base_delay_secs, .. } = policy {
        let b = base_delay_secs as int;
        let d = doublings(attempt) as int;
        assert(b == 0 ==> b * 1000 * d == 0) by (nonlinear_arith);
        if attempt >= 64 {
            assert(b > 0 ==> b * 1000 * d > d) by (nonlinear_arith)
                requires
                    d > 0,
            ;
        }
    }
}

/// What follows on a run, in full. A success ends the execution with its data.
/// A failure or a panic, when as many retries are used up as the policy has,
/// ends it as a failure with the message. Else the same execution goes on after
/// the policy's wait for as many retries as were made.
pub proof fn law_run_is_followed_by_the_right_step(
    execution: ExecutionView,
    result: JobResultView,
    elapsed: nat,
)
    requires
        execution.attempt > 0,
    ensures
        match result {
            JobResultView::Success(data) => execution.after(result, elapsed)
                matches ExecutionStepView::Finished(end) && end.result == result
                && end.attempts == execution.attempt,
            JobResultView::Failure(message) | JobResultView::Panic(message) => if execution.attempt
                > execution.task.retry_policy.retries() {
                execution.after(result, elapsed) matches ExecutionStepView::Finished(end)
                    && end.result == JobResultView::Failure(message) && end.attempts
                    == execution.attempt
            } else {
                execution.after(result, elapsed) == (ExecutionStepView::Retry {
                    execution,
                    delay: execution.task.retry_policy.delay_nanos((execution.attempt - 1) as u32),
                })
            },
        },
        execution.may_go_on(result) <==> result is Success || execution.attempt
            > execution.task.retry_policy.retries() || execution.task.retry_policy.delay_fits(
            (execution.attempt - 1) as u32,
        ),
{
}

/// The result of an execution names the task, its attempts, the retries that it
/// had, and the whole milliseconds that it took. It hands the task back as it
/// came.
pub proof fn law_end_tells_of_the_task(
    execution: ExecutionView,
    result: JobResultView,
    elapsed: nat,
    end: TaskResultView,
)
    requires
        execution.after(result, elapsed) == ExecutionStepView::Finished(end),
    ensures
        end.task_id == execution.task.id,
        end.attempts == execution.attempt,
        end.max_attempts == execution.task.retry_policy.retries(),
        end.original_task == execution.task,
        elapsed < 18_446_744_073_709_551_616_000_000 ==> end.elapsed_ms * 1_000_000 <= elapsed
            < (end.elapsed_ms + 1) * 1_000_000,
{
}

/// What a run of the handler gave is what is reported of it.
pub proof fn law_handler_is_reported(outcome: HandlerOutcome)
    ensures
        outcome matches HandlerOutcome::Returned(Ok(data)) ==> handler_result(outcome)
            == JobResultView::Success(data@),
        outcome matches HandlerOutcome::Returned(Err(message)) ==> handler_result(outcome)
            == JobResultView::Failure(message@),
        outcome matches HandlerOutcome::Panicked(Some(message)) ==> handler_result(outcome)
            == JobResultView::Panic(message@),
        outcome matches HandlerOutcome::Panicked(None) ==> handler_result(outcome)
            == JobResultView::Panic("unknown panic"@),
{
}

// Counters and dead letters.

/// A submitted task adds one to the submitted and nothing else.
pub proof fn law_submitted_adds_one(c: MetricsCounters)
    ensures
        c.with_submitted().total_submitted == (c.total_submitted + 1) % 0x1_0000_0000_0000_0000,
        c.with_submitted().total_completed == c.total_completed,
        c.with_submitted().total_failed == c.total_failed,
        c.with_submitted().total_panicked == c.total_panicked,
        c.with_submitted().total_elapsed_us == c.total_elapsed_us,
        MetricsCounters::zero().total_submitted == 0,
        MetricsCounters::zero().total_completed == 0,
        MetricsCounters::zero().total_failed == 0,
        MetricsCounters::zero().total_panicked == 0,
        MetricsCounters::zero().total_elapsed_us == 0,
{
}

/// The end of a task adds one to the completed, the failed or the panicked, by
/// its result, and to none of the others. A completed task adds its time in
/// microseconds to the sum of the times, modulo its range; others add nothing.
pub proof fn law_end_adds_one(c: MetricsCounters, end: TaskResultView)
    requires
        end.result is Success ==> end.elapsed_ms * 1000 <= 0xffff_ffff_ffff_ffff,
    ensures
        counted(c, end).total_submitted == c.total_submitted,
        counted(c, end).total_completed == if end.result is Success {
            (c.total_completed + 1) % 0x1_0000_0000_0000_0000
        } else {
            c.total_completed as int
        },
        counted(c, end).total_failed == if end.result is Failure {
            (c.total_failed + 1) % 0x1_0000_0000_0000_0000
        } else {
            c.total_failed as int
        },
        counted(c, end).total_panicked == if end.result is Panic {
            (c.total_panicked + 1) % 0x1_0000_0000_0000_0000
        } else {
            c.total_panicked as int
        },
        counted(c, end).total_elapsed_us == if end.result is Success {
            (c.total_elapsed_us + end.elapsed_ms * 1000) % 0x1_0000_0000_0000_0000
        } else {
            c.total_elapsed_us as int
        },
{
}

/// A task is kept as a dead letter exactly if it did not succeed and more
/// attempts were made than it had retries; the letter holds the task, its last
/// message, its attempts and the time. Else the dead letters stay as they are.
pub proof fn law_unsuccessful_task_becomes_a_letter(
    letters: DeadLetterView,
    end: TaskResultView,
    failed_at: Timestamp,
)
    ensures
        given_up(end) is Some <==> !(end.result is Success) && end.attempts > end.max_attempts,
        given_up(end) is None ==> buried(letters, end, failed_at) == letters,
        given_up(end) is Some ==> {
            let after = buried(letters, end, failed_at);
            &&& after.max_size == letters.max_size
            &&& after.entries.len() > 0
            &&& after.entries.last().task == end.original_task
            &&& after.entries.last().attempts == end.attempts
            &&& after.entries.last().failed_at == failed_at
            &&& end.result matches JobResultView::Failure(message)
                ==> after.entries.last().last_error == message
            &&& end.result matches JobResultView::Panic(message)
                ==> after.entries.last().last_error == message
            &&& after.entries == pushed(letters.entries, letters.max_size, after.entries.last())
        },
{
    if let Some(message) = given_up(end) {
        let entry = DeadLetterEntryView {
            task: end.original_task,
            last_error: message,
            attempts: end.attempts,
            failed_at,
        };
        assert(pushed(letters.entries, letters.max_size, entry).last() == entry);
    }
}

/// A new dead letter comes last. With room all others stay in their places;
/// without, only the oldest is gone.
pub proof fn law_new_letter_displaces_at_most_the_oldest(
    entries: Seq<DeadLetterEntryView>,
    max_size: usize,
    entry: DeadLetterEntryView,
    i: int,
)
    ensures
        pushed(entries, max_size, entry).last() == entry,
        entries.len() < max_size || entries.len() == 0 ==> {
            &&& pushed(entries, max_size, entry).len() == entries.len() + 1
            &&& 0 <= i < entries.len() ==> pushed(entries, max_size, entry)[i] == entries[i]
        },
        entries.len() >= max_size && entries.len() > 0 ==> {
            &&& pushed(entries, max_size, entry).len() == entries.len()
            &&& 0 < i < entries.len() ==> pushed(entries, max_size, entry)[i - 1] == entries[i]
        },
{
}

/// Whatever task among the dead letters is asked for by its id, wherever its
/// entry stands, it comes back: the earliest with that id, with its attempts
/// forgotten. Exactly that entry is gone, and the others stay in their order.
pub proof fn law_any_letter_comes_back_by_id(
    pre: DeadLetterView,
    id: u128,
    task: Option<TaskView>,
    post: DeadLetterView,
    i: int,
)
    requires
        requeued_by_id(pre, id, task, post),
        0 <= i < pre.entries.len(),
        pre.entries[i].task.id == id,
    ensures
        task is Some,
        task->0.attempt == 0,
        exists|p: int|
            {
                &&& 0 <= p <= i
                &&& (#[trigger] pre.entries[p]).task.id == id
                &&& task->0 == (TaskView { attempt: 0, ..pre.entries[p].task })
                &&& post.entries == pre.entries.take(p) + pre.entries.skip(p + 1)
                &&& forall|j: int| 0 <= j < p ==> (#[trigger] pre.entries[j]).task.id != id
            },
        post.entries.len() == pre.entries.len() - 1,
        post.max_size == pre.max_size,
{
    let place = choose|place: int|
        {
            &&& #[trigger] first_entry_for(pre.entries, id, place)
            &&& task->0 == pre.entries[place].task.restarted()
            &&& post == (DeadLetterView { entries: pre.entries.remove(place), ..pre })
        };
    assert(place <= i) by {
        if place > i {
            assert(pre.entries[i].task.id != id);
        }
    }
    assert(pre.entries.remove(place) =~= pre.entries.take(place) + pre.entries.skip(place + 1));
    assert(pre.entries[place].task.id == id);
}

/// Where no dead letter has the id, none comes back and none is gone; a task
/// comes back only where one has it.
pub proof fn law_no_letter_comes_back_for_an_unknown_id(
    pre: DeadLetterView,
    id: u128,
    task: Option<TaskView>,
    post: DeadLetterView,
)
    requires
        requeued_by_id(pre, id, task, post),
    ensures
        (forall|j: int| 0 <= j < pre.entries.len() ==> (#[trigger] pre.entries[j]).task.id != id)
            ==> task is None && post == pre,
        task is Some ==> task->0.id == id && exists|j: int|
            0 <= j < pre.entries.len() && (#[trigger] pre.entries[j]).task.id == id,
{
    if task is Some {
        let place = choose|place: int|
            {
                &&& #[trigger] first_entry_for(pre.entries, id, place)
                &&& task->0 == pre.entries[place].task.restarted()
                &&& post == (DeadLetterView { entries: pre.entries.remove(place), ..pre })
            };
        assert(pre.entries[place].task.id == id);
    }
}

/// All dead letters come back as tasks, each in its place, with its attempts
/// forgotten and all else kept.
pub proof fn law_all_letters_come_back(entries: Seq<DeadLetterEntryView>, i: int)
    ensures
        restarted_tasks(entries).len() == entries.len(),
        0 <= i < entries.len() ==> {
            let t = restarted_tasks(entries)[i];
            &&& t.attempt == 0
            &&& t.id == entries[i].task.id
            &&& t.payload == entries[i].task.payload
            &&& t.priority == entries[i].task.priority
            &&& t.created_at == entries[i].task.created_at
            &&& t.retry_policy == entries[i].task.retry_policy
            &&& t.execute_after == entries[i].task.execute_after
        },
{
}

} // verus!
