//! What a call gives back and changes, said of its arguments.

use crate::channel::{channel_limit, connected, offer_met, room_shown, Offer};
use crate::dead_letter::{entry_views, DeadLetterQueue};
use crate::flows::{
    law_counting_up_and_down, law_delivery_decides_what_follows, law_dispatch_loses_nothing,
    law_first_worker_with_room, law_flush_loses_nothing, law_least_loaded_has_fewest_waiting,
    law_least_loaded_of_two_lists, law_new_workers_are_numbered_and_connected,
    law_one_task_leaves_the_queue, law_round_robin_sends_by_turn, law_scale_check_on_the_numbers,
    law_scaling_on_the_numbers, lemma_held_back_was_not_due, lemma_released_was_due,
};
use crate::laws::{
    law_flush_holds_what_is_not_due, law_flush_keeps_all_tasks, law_flush_releases_what_is_due,
    law_least_loaded_finds_the_least, law_removed_worker_is_gone, lemma_id_after,
};
use crate::metrics::{Metrics, MetricsCounters, MetricsSnapshot};
use crate::pool::{
    fresh_workers, offer_answer, scale_decision, send_answer, Pool, PoolSubmitter, PoolView,
    ScaleDecision, ScaleStep, ShutdownStep, Startup, SubmitStep,
};
use crate::queue::{views, TaskQueue};
use crate::scheduler::{
    clock_readings, dispatched, pick_least_loaded, pick_with_room, queues_flushed, released, sent,
    DispatchStep, Scheduler, SchedulerView, WorkerSlot,
};
use crate::time::{Delay, Timestamp};
use crate::types::{
    delayed_from, drawn_at_random, DeadLetterEntry, JobResult, JobResultView, PoolConfig, Priority,
    RetryPolicy, ScheduleStrategy, SubmitError, Task, TaskView,
};
use crate::values::{
    law_any_letter_comes_back_by_id, law_critical_goes_before_high_before_normal_before_low,
    law_delayed_task_waits_exactly_so_long, law_end_adds_one,
    law_new_letter_displaces_at_most_the_oldest, law_no_letter_comes_back_for_an_unknown_id,
    law_unsuccessful_task_becomes_a_letter, law_waits_of_each_policy, law_waits_that_fit,
};
use crate::worker::{
    buried, counted, run_handler, settle, settle_at, Execution, ExecutionStep, HandlerOutcome,
    TaskResult,
};
use core::cmp::Ordering;
use tokio::sync::mpsc::{Receiver, Sender};
use vstd::arithmetic::power2::pow2;
use vstd::prelude::*;

verus! {

// Lengths of time.

/// Seconds and milliseconds come out of a length of time as they went in.
pub proof fn law_delay_gives_back_what_went_in(
    secs: u64,
    nanos: u32,
    millis: u64,
    d: Delay,
    e: Delay,
    f: Delay,
    s: u64,
    n: u32,
    m: u64,
)
    requires
        call_ensures(Delay::from_secs, (secs,), d),
        call_ensures(Delay::from_millis, (millis,), e),
        call_ensures(Delay::new, (secs, nanos), f),
        nanos <= 999_999_999,
    ensures
        call_ensures(Delay::as_secs, (&d,), s) ==> s == secs,
        call_ensures(Delay::subsec_nanos, (&d,), n) ==> n == 0,
        call_ensures(Delay::as_secs, (&f,), s) ==> s == secs,
        call_ensures(Delay::subsec_nanos, (&f,), n) ==> n == nanos,
        call_ensures(Delay::as_millis_u64, (&e,), m) ==> m == millis,
        d@ == secs * 1_000_000_000,
        e@ == millis * 1_000_000,
        f@ == secs * 1_000_000_000 + nanos,
{
}

/// Of two lengths of time the shorter is picked, the longer is at least the
/// other, and what one is longer is what is left of it.
pub proof fn law_delays_compare_by_length(
    a: Delay,
    b: Delay,
    least: Delay,
    longer: bool,
    rest: Delay,
    nothing: bool,
)
    requires
        call_ensures(Delay::min, (a, b), least),
        call_ensures(Delay::at_least, (&a, &b), longer),
        call_ensures(Delay::saturating_sub, (a, b), rest),
        call_ensures(Delay::is_zero, (&a,), nothing),
    ensures
        least@ <= a@ && least@ <= b@,
        least@ == a@ || least@ == b@,
        longer <==> b@ <= a@,
        longer ==> rest@ + b@ == a@,
        !longer ==> rest@ == 0,
        nothing <==> a@ == 0,
{
}

/// One moment lies before another, or is one of the calendar, by its seconds and
/// nanoseconds. The moment some time after one lies exactly so much later.
pub proof fn law_moment_calls(
    a: Timestamp,
    b: Timestamp,
    before: bool,
    valid: bool,
    delay: Delay,
    later: Option<Timestamp>,
)
    requires
        call_ensures(Timestamp::is_before, (&a, &b), before),
        call_ensures(Timestamp::is_valid, (&a,), valid),
        call_ensures(Timestamp::after, (a, delay), later),
        delay@ <= 9_223_372_036_854_775_807_000_000,
    ensures
        before <==> a.secs < b.secs || (a.secs == b.secs && a.nanos < b.nanos),
        valid <==> -8_334_601_228_800 <= a.secs <= 8_210_266_876_799 && a.nanos <= 999_999_999,
        later is Some <==> a.secs * 1_000_000_000 + a.nanos + delay@
            <= 8_210_266_876_799_999_999_999,
        later matches Some(t) ==> t.nanos <= 999_999_999 && t.secs * 1_000_000_000 + t.nanos
            == a.secs * 1_000_000_000 + a.nanos + delay@,
{
}

// Tasks.

/// A task that is delayed waits for exactly the given time from the given moment
/// on, and is else what it was; it cannot be delayed beyond the calendar.
pub proof fn law_delay_call_from_a_moment(
    task: Task,
    now: Timestamp,
    delay: Delay,
    delayed: Option<Task>,
)
    requires
        call_ensures(Task::with_delay_from, (task, now, delay), delayed),
        now.nanos <= 999_999_999,
        delay@ <= 9_223_372_036_854_775_807_000_000,
    ensures
        delayed is Some <==> now.secs * 1_000_000_000 + now.nanos + delay@
            <= 8_210_266_876_799_999_999_999,
        delayed matches Some(t) ==> {
            &&& t.execute_after matches Some(end) && end.secs * 1_000_000_000 + end.nanos
                == now.secs * 1_000_000_000 + now.nanos + delay@ && end.nanos <= 999_999_999
            &&& t.id == task.id
            &&& t.payload@ == task.payload@
            &&& t.priority == task.priority
            &&& t.created_at == task.created_at
            &&& t.retry_policy == task.retry_policy
            &&& t.attempt == task.attempt
        },
{
    if let Some(t) = delayed {
        law_delayed_task_waits_exactly_so_long(task@, now, delay@, t@, now);
    }
}

/// A task that is delayed from now on waits for exactly the given time from a
/// moment on that the clock has shown. Until the clock shows so much more, it is
/// not ready.
pub proof fn law_delay_call_from_now(task: Task, delay: Delay, delayed: Task)
    requires
        call_ensures(Task::with_delay, (task, delay), Some(delayed)),
        delay@ <= 9_223_372_036_854_775_807_000_000,
    ensures
        exists|now: Timestamp|
            {
                &&& #[trigger] now.clock_reading()
                &&& now.from_clock()
                &&& delayed.execute_after matches Some(end) && end.secs * 1_000_000_000 + end.nanos
                    == now.secs * 1_000_000_000 + now.nanos + delay@
                &&& delay@ > 0 ==> !delayed@.due(now)
            },
        delayed@ == (TaskView { execute_after: delayed.execute_after, ..task@ }),
{
    let now = choose|now: Timestamp| #[trigger]
        now.clock_reading() && delayed_from(task@, now, delay@, delayed@);
    law_delayed_task_waits_exactly_so_long(task@, now, delay@, delayed@, now);
}

/// A task cannot be delayed from now on only where the calendar ends before a
/// moment that the clock has shown plus the delay.
pub proof fn law_delay_call_that_fails(task: Task, delay: Delay)
    requires
        call_ensures(Task::with_delay, (task, delay), None),
        delay@ <= 9_223_372_036_854_775_807_000_000,
    ensures
        exists|now: Timestamp| #[trigger]
            now.clock_reading() && now.secs * 1_000_000_000 + now.nanos + delay@
                > 8_210_266_876_799_999_999_999,
{
}

/// A task is ready at a moment exactly if it has no delay or the moment it waits
/// for is not later. Asked without a moment, the answer is that for one that
/// the clock has shown.
pub proof fn law_ready_calls(task: Task, now: Timestamp, at: bool, shown: bool)
    requires
        call_ensures(Task::is_ready_at, (&task, &now), at),
        call_ensures(Task::is_ready, (&task,), shown),
    ensures
        at <==> (match task.execute_after {
            Some(t) => t.secs < now.secs || (t.secs == now.secs && t.nanos <= now.nanos),
            None => true,
        }),
        task.execute_after is None ==> shown,
        task.execute_after matches Some(t) ==> exists|n: Timestamp|
            {
                &&& #[trigger] n.clock_reading()
                &&& n.from_clock()
                &&& shown <==> t.secs < n.secs || (t.secs == n.secs && t.nanos <= n.nanos)
            },
{
}

/// A new task has what it is given and is else plain; one with a new identity
/// has an id that was drawn at random, and was created at a moment that the
/// clock has shown.
pub proof fn law_new_task_calls(id: u128, at: Timestamp, payload: Vec<u8>, t: Task, u: Task)
    requires
        call_ensures(Task::with_identity, (id, at, payload), t),
        call_ensures(Task::new, (payload,), u),
    ensures
        t.id == id,
        t.created_at == at,
        u.created_at.from_clock(),
        drawn_at_random(u.id),
        t.payload@ == payload@ && u.payload@ == payload@,
        t.priority is Normal && u.priority is Normal,
        t.retry_policy is Never && u.retry_policy is Never,
        t.attempt == 0 && u.attempt == 0,
        t.execute_after is None && u.execute_after is None,
{
    assert(t@.payload == payload@ && u@.payload == payload@);
    assert(u@.priority == Priority::Normal);
}

/// The builders set their field and leave the others; a copy has all of them.
pub proof fn law_builder_calls(
    task: Task,
    priority: Priority,
    policy: RetryPolicy,
    p: Task,
    r: Task,
    c: Task,
)
    requires
        call_ensures(Task::with_priority, (task, priority), p),
        call_ensures(Task::with_retry_policy, (task, policy), r),
        call_ensures(Task::clone, (&task,), c),
    ensures
        p@ == (TaskView { priority, ..task@ }),
        r@ == (TaskView { retry_policy: policy, ..task@ }),
        c@ == task@,
        c.id == task.id,
        c.payload@ == task.payload@,
{
    assert(c@.payload == task@.payload && c@.id == task@.id);
}

/// Of two tasks the less urgent, or as urgent and later created, comes behind
/// and compares as less.
pub proof fn law_compare_calls(a: Task, b: Task, behind: bool, order: Ordering)
    requires
        call_ensures(Task::is_behind, (&a, &b), behind),
        call_ensures(Task::cmp, (&a, &b), order),
    ensures
        behind <==> (match a.priority {
            Priority::Low => !(b.priority is Low),
            Priority::Normal => b.priority is High || b.priority is Critical,
            Priority::High => b.priority is Critical,
            Priority::Critical => false,
        }) || (a.priority == b.priority && (a.created_at.secs > b.created_at.secs || (
        a.created_at.secs == b.created_at.secs && a.created_at.nanos > b.created_at.nanos))),
        behind <==> order == Ordering::Less,
        order == Ordering::Equal <==> a.priority == b.priority && a.created_at == b.created_at,
{
    law_critical_goes_before_high_before_normal_before_low(a@, b@);
}

/// A result is good exactly if it is a success, and bad exactly if it is not.
pub proof fn law_result_calls(r: JobResult, ok: bool, err: bool)
    requires
        call_ensures(JobResult::is_ok, (&r,), ok),
        call_ensures(JobResult::is_err, (&r,), err),
    ensures
        ok <==> r is Success,
        err <==> r is Failure || r is Panic,
        ok != err,
{
}

/// The reasons of a refusal in words.
pub proof fn law_refusal_calls(e: SubmitError, words: String)
    requires
        call_ensures(SubmitError::message, (&e,), words),
    ensures
        e is QueueFull ==> words@ == "task queue is full"@,
        e is ShuttingDown ==> words@ == "pool is shutting down"@,
{
}

// Retries.

/// A policy has as many retries as it names, whatever else it says.
pub proof fn law_retries_call(policy: RetryPolicy, n: u32)
    requires
        call_ensures(RetryPolicy::max_retries, (&policy,), n),
    ensures
        policy is Never ==> n == 0,
        policy matches RetryPolicy::Immediate { max_retries } ==> n == max_retries,
        policy matches RetryPolicy::FixedDelay { max_retries, .. } ==> n == max_retries,
        policy matches RetryPolicy::ExponentialBackoff { max_retries, .. } ==> n == max_retries,
{
}

/// The wait of a policy: none, the fixed seconds, or the base doubled for each
/// earlier retry and cut to the maximum; and whether it can be computed.
pub proof fn law_wait_call(policy: RetryPolicy, attempt: u32, d: Delay, fits: bool)
    requires
        call_ensures(RetryPolicy::delay_for_attempt, (&policy, attempt), d),
        call_ensures(RetryPolicy::has_delay_for, (&policy, attempt), fits),
    ensures
        policy is Never || policy is Immediate ==> d@ == 0 && fits,
        policy matches RetryPolicy::FixedDelay { delay_secs, .. } ==> d@ == delay_secs
            * 1_000_000_000 && fits,
        policy matches RetryPolicy::ExponentialBackoff { base_delay_secs, max_delay_secs, .. } ==> {
            let most = max_delay_secs * 1_000_000_000;
            let whole = base_delay_secs * 1_000_000_000 * pow2(attempt as nat);
            &&& fits <==> base_delay_secs == 0 || (attempt < 64 && base_delay_secs * 1000 * pow2(
                attempt as nat,
            ) <= 0xffff_ffff_ffff_ffff)
            &&& attempt < 64 ==> d@ == if whole <= most { whole } else { most }
            &&& base_delay_secs == 0 ==> d@ == 0
        },
{
    law_waits_of_each_policy(policy, attempt);
    law_waits_that_fit(policy, attempt);
}

/// An execution starts with the attempts that the task comes with. Each attempt
/// counts one more and hands out the task's whole payload.
pub proof fn law_attempt_calls(
    task: Task,
    e: Execution,
    n: u32,
    running: &mut Execution,
    payload: Vec<u8>,
)
    requires
        call_ensures(Execution::new, (task,), e),
        call_ensures(Execution::attempt, (&e,), n),
        old(running)@.attempt < u32::MAX,
        call_ensures(Execution::begin_attempt, (running,), payload),
    ensures
        n == task.attempt,
        e@.task == task@,
        final(running)@.attempt == old(running)@.attempt + 1,
        final(running)@.task == old(running)@.task,
        payload@ == old(running)@.task.payload,
{
}

/// What follows on a run: a success ends the execution with its data. A failure
/// or a panic with more attempts made than the policy names retries ends it as
/// a failure with the message. Else the same execution goes on after a wait, and
/// can always do so without a delay or with a fixed one.
pub proof fn law_run_calls(
    e: Execution,
    result: JobResult,
    elapsed: Delay,
    step: ExecutionStep,
    can: bool,
)
    requires
        call_ensures(Execution::after_run, (e, result, elapsed), step),
        call_ensures(Execution::can_go_on, (&e, &result), can),
        e@.attempt > 0,
    ensures
        ({
            let retries: int = match e@.task.retry_policy {
                RetryPolicy::Never => 0,
                RetryPolicy::Immediate { max_retries } => max_retries as int,
                RetryPolicy::FixedDelay { max_retries, .. } => max_retries as int,
                RetryPolicy::ExponentialBackoff { max_retries, .. } => max_retries as int,
            };
            &&& step is Finished <==> result is Success || e@.attempt > retries
            &&& step matches ExecutionStep::Finished(end) ==> {
                &&& end.task_id == e@.task.id
                &&& end.attempts == e@.attempt
                &&& end.max_attempts == retries
                &&& end.original_task@ == e@.task
                &&& elapsed@ < 18_446_744_073_709_551_616_000_000 ==> end.elapsed_ms * 1_000_000
                    <= elapsed@ < (end.elapsed_ms + 1) * 1_000_000
                &&& result matches JobResult::Success(data) ==> end.result@
                    == JobResultView::Success(data@)
                &&& result matches JobResult::Failure(message) ==> end.result@
                    == JobResultView::Failure(message@)
                &&& result matches JobResult::Panic(message) ==> end.result@
                    == JobResultView::Failure(message@)
            }
            &&& step matches ExecutionStep::Retry { execution, delay } ==> {
                &&& execution@ == e@
                &&& e@.task.retry_policy is Immediate ==> delay@ == 0
                &&& e@.task.retry_policy matches RetryPolicy::FixedDelay { delay_secs, .. }
                    ==> delay@ == delay_secs * 1_000_000_000
                &&& e@.task.retry_policy matches RetryPolicy::ExponentialBackoff {
                    base_delay_secs,
                    max_delay_secs,
                    ..
                } ==> {
                    let most = max_delay_secs * 1_000_000_000;
                    let whole = base_delay_secs * 1_000_000_000 * pow2((e@.attempt - 1) as nat);
                    &&& e@.attempt <= 64 ==> delay@ == if whole <= most { whole } else { most }
                    &&& base_delay_secs == 0 ==> delay@ == 0
                }
            }
            &&& can <==> result is Success || e@.attempt > retries
                || e@.task.retry_policy.delay_fits((e@.attempt - 1) as u32)
        }),
{
    law_waits_of_each_policy(e@.task.retry_policy, (e@.attempt - 1) as u32);
}

/// What the handler gave is what is reported of it; a panic without a text is
/// reported as unknown.
pub proof fn law_handler_call(outcome: HandlerOutcome, r: JobResult)
    requires
        call_ensures(run_handler, (outcome,), r),
    ensures
        outcome matches HandlerOutcome::Returned(Ok(data)) ==> (r matches JobResult::Success(d)
            && d@ == data@),
        outcome matches HandlerOutcome::Returned(Err(message)) ==> (r matches JobResult::Failure(m)
            && m@ == message@),
        outcome matches HandlerOutcome::Panicked(Some(message)) ==> (r matches JobResult::Panic(m)
            && m@ == message@),
        outcome matches HandlerOutcome::Panicked(None) ==> (r matches JobResult::Panic(m) && m@
            == "unknown panic"@),
{
}

/// The end of a task counts once, by its result, and leaves a dead letter
/// exactly if the task did not succeed and its retries are used up; at the given
/// time, or at one that the clock has shown.
pub proof fn law_settle_calls(
    result: TaskResult,
    c: &mut MetricsCounters,
    d: &mut DeadLetterQueue,
    at: Timestamp,
    c2: &mut MetricsCounters,
    d2: &mut DeadLetterQueue,
    given_up: bool,
)
    requires
        result.result is Success ==> result.elapsed_ms * 1000 <= 0xffff_ffff_ffff_ffff,
        call_ensures(settle_at, (result, c, d, at), ()),
        call_ensures(settle, (result, c2, d2), ()),
        call_ensures(TaskResult::is_given_up, (&result,), given_up),
    ensures
        given_up <==> !(result.result is Success) && result.attempts > result.max_attempts,
        !given_up ==> final(d)@ == old(d)@ && final(d2)@ == old(d2)@,
        given_up ==> {
            &&& final(d)@.entries.len() > 0 && final(d2)@.entries.len() > 0
            &&& final(d)@.entries.last().task == result.original_task@
            &&& final(d2)@.entries.last().task == result.original_task@
            &&& final(d)@.entries.last().attempts == result.attempts
            &&& final(d2)@.entries.last().attempts == result.attempts
            &&& final(d)@.entries.last().failed_at == at
            &&& final(d2)@.entries.last().failed_at.from_clock()
            &&& result.result matches JobResult::Failure(m) ==> final(d)@.entries.last().last_error
                == m@ && final(d2)@.entries.last().last_error == m@
            &&& result.result matches JobResult::Panic(m) ==> final(d)@.entries.last().last_error
                == m@ && final(d2)@.entries.last().last_error == m@
        },
        final(c).total_completed == if result.result is Success {
            (old(c).total_completed + 1) % 0x1_0000_0000_0000_0000
        } else {
            old(c).total_completed as int
        },
        final(c).total_failed == if result.result is Failure {
            (old(c).total_failed + 1) % 0x1_0000_0000_0000_0000
        } else {
            old(c).total_failed as int
        },
        final(c).total_panicked == if result.result is Panic {
            (old(c).total_panicked + 1) % 0x1_0000_0000_0000_0000
        } else {
            old(c).total_panicked as int
        },
        final(c).total_elapsed_us == if result.result is Success {
            (old(c).total_elapsed_us + result.elapsed_ms * 1000) % 0x1_0000_0000_0000_0000
        } else {
            old(c).total_elapsed_us as int
        },
        final(c).total_submitted == old(c).total_submitted,
        *old(c2) == *old(c) ==> *final(c2) == *final(c),
{
    law_end_adds_one(*old(c), result@);
    law_unsuccessful_task_becomes_a_letter(old(d)@, result@, at);
    let shown = choose|shown: Timestamp| #[trigger]
        shown.clock_reading() && final(d2)@ == buried(old(d2)@, result@, shown);
    law_unsuccessful_task_becomes_a_letter(old(d2)@, result@, shown);
}

// Dead letters.

/// Whatever dead letter is asked for by the id of its task, wherever it stands,
/// the earliest with that id comes back with its attempts forgotten, and only
/// its entry is gone.
pub proof fn law_requeue_call(q: &mut DeadLetterQueue, id: u128, task: Option<Task>, i: int)
    requires
        call_ensures(DeadLetterQueue::requeue_by_id, (q, id), task),
        0 <= i < old(q)@.entries.len(),
        old(q)@.entries[i].task.id == id,
    ensures
        task is Some,
        exists|p: int|
            {
                &&& 0 <= p <= i
                &&& (#[trigger] old(q)@.entries[p]).task.id == id
                &&& task->0@ == (TaskView { attempt: 0, ..old(q)@.entries[p].task })
                &&& final(q)@.entries == old(q)@.entries.take(p) + old(q)@.entries.skip(p + 1)
                &&& forall|j: int| 0 <= j < p ==> (#[trigger] old(q)@.entries[j]).task.id != id
            },
        final(q)@.max_size == old(q)@.max_size,
{
    let found: Option<TaskView> = match task {
        Some(t) => Some(t@),
        None => None,
    };
    law_any_letter_comes_back_by_id(old(q)@, id, found, final(q)@, i);
}

/// Asking for an id that no dead letter has gives nothing and changes nothing.
pub proof fn law_requeue_call_for_an_unknown_id(
    q: &mut DeadLetterQueue,
    id: u128,
    task: Option<Task>,
)
    requires
        call_ensures(DeadLetterQueue::requeue_by_id, (q, id), task),
        forall|j: int|
            0 <= j < old(q)@.entries.len() ==> (#[trigger] old(q)@.entries[j]).task.id != id,
    ensures
        task is None,
        final(q)@ == old(q)@,
{
    let found: Option<TaskView> = match task {
        Some(t) => Some(t@),
        None => None,
    };
    law_no_letter_comes_back_for_an_unknown_id(old(q)@, id, found, final(q)@);
}

/// All dead letters come back at once as tasks, each in its place with its
/// attempts forgotten, and none is left.
pub proof fn law_requeue_all_call(q: &mut DeadLetterQueue, tasks: Vec<Task>, i: int)
    requires
        call_ensures(DeadLetterQueue::requeue_all, (q,), tasks),
    ensures
        tasks@.len() == old(q)@.entries.len(),
        0 <= i < tasks@.len() ==> tasks@[i]@ == (TaskView {
            attempt: 0,
            ..old(q)@.entries[i].task
        }),
        final(q)@.entries.len() == 0,
        final(q)@.max_size == old(q)@.max_size,
{
    let seen = views(tasks@);
    assert(seen.len() == tasks@.len());
    if 0 <= i < tasks@.len() {
        assert(seen[i] == tasks@[i]@);
    }
}

/// A failed task comes last among the dead letters, with all that is said of it.
/// With room all others stay; without, only the oldest goes.
pub proof fn law_push_calls(
    q: &mut DeadLetterQueue,
    r: &mut DeadLetterQueue,
    task: Task,
    error: String,
    attempts: u32,
    at: Timestamp,
    i: int,
)
    requires
        call_ensures(DeadLetterQueue::push_at, (q, task, error, attempts, at), ()),
        call_ensures(DeadLetterQueue::push, (r, task, error, attempts), ()),
    ensures
        ({
            let before = old(q)@.entries;
            let after = final(q)@.entries;
            &&& after.len() > 0
            &&& after.last().task == task@
            &&& after.last().last_error == error@
            &&& after.last().attempts == attempts
            &&& after.last().failed_at == at
            &&& before.len() < old(q)@.max_size || before.len() == 0 ==> after.len()
                == before.len() + 1 && (0 <= i < before.len() ==> after[i] == before[i])
            &&& before.len() >= old(q)@.max_size && before.len() > 0 ==> after.len()
                == before.len() && (0 < i < before.len() ==> after[i - 1] == before[i])
            &&& final(q)@.max_size == old(q)@.max_size
        }),
        ({
            let before = old(r)@.entries;
            let after = final(r)@.entries;
            &&& after.len() > 0
            &&& after.last().task == task@
            &&& after.last().last_error == error@
            &&& after.last().attempts == attempts
            &&& after.last().failed_at.from_clock()
            &&& before.len() < old(r)@.max_size || before.len() == 0 ==> after.len()
                == before.len() + 1 && (0 <= i < before.len() ==> after[i] == before[i])
            &&& before.len() >= old(r)@.max_size && before.len() > 0 ==> after.len()
                == before.len() && (0 < i < before.len() ==> after[i - 1] == before[i])
            &&& final(r)@.max_size == old(r)@.max_size
        }),
{
    law_new_letter_displaces_at_most_the_oldest(
        old(q)@.entries,
        old(q)@.max_size,
        final(q)@.entries.last(),
        i,
    );
    law_new_letter_displaces_at_most_the_oldest(
        old(r)@.entries,
        old(r)@.max_size,
        final(r)@.entries.last(),
        i,
    );
}

/// The list of the dead letters has each in its place; their number and whether
/// there are any agree with it. A new queue, and one that was cleared, has none.
pub proof fn law_list_calls(
    q: DeadLetterQueue,
    list: Vec<DeadLetterEntry>,
    len: usize,
    empty: bool,
    size: usize,
    fresh: DeadLetterQueue,
    cleared: &mut DeadLetterQueue,
    i: int,
)
    requires
        call_ensures(DeadLetterQueue::list, (&q,), list),
        call_ensures(DeadLetterQueue::len, (&q,), len),
        call_ensures(DeadLetterQueue::is_empty, (&q,), empty),
        call_ensures(DeadLetterQueue::new, (size,), fresh),
        call_ensures(DeadLetterQueue::clear, (cleared,), ()),
    ensures
        list@.len() == len == q@.entries.len(),
        0 <= i < len ==> list@[i]@ == q@.entries[i],
        empty <==> len == 0,
        fresh@.entries.len() == 0 && fresh@.max_size == size,
        final(cleared)@.entries.len() == 0,
        final(cleared)@.max_size == old(cleared)@.max_size,
{
    let seen = entry_views(list@);
    assert(seen.len() == list@.len());
    if 0 <= i < len {
        assert(seen[i] == list@[i]@);
    }
}

// The queue.

/// What was put into the queue comes out of it, the one that comes behind no
/// other first.
pub proof fn law_queue_calls(
    q: &mut TaskQueue,
    task: Task,
    p: &mut TaskQueue,
    out: Option<Task>,
    r: TaskQueue,
    n: usize,
    u: TaskView,
)
    requires
        call_ensures(TaskQueue::push, (q, task), ()),
        call_ensures(TaskQueue::pop, (p,), out),
        call_ensures(TaskQueue::len, (&r,), n),
    ensures
        final(q)@ == old(q)@.insert(task@),
        out is None <==> old(p)@.len() == 0,
        out is None ==> final(p)@ == old(p)@,
        out matches Some(t) ==> {
            &&& old(p)@.count(t@) > 0
            &&& final(p)@ == old(p)@.remove(t@)
            &&& old(p)@.count(u) > 0 ==> !t@.behind(u)
        },
        n == r@.len(),
{
    if let Some(t) = out {
        assert(old(p)@.contains(t@));
        if old(p)@.count(u) > 0 {
            assert(old(p)@.contains(u));
        }
    }
}

// Scheduling.

/// Workers come last, go by their id, and are listed in their order. Their
/// number and the numbers of tasks are read off as they are.
pub proof fn law_worker_calls(
    s: &mut Scheduler,
    id: usize,
    tx: Sender<Task>,
    r: &mut Scheduler,
    w: WorkerSlot,
    t: Scheduler,
    count: usize,
    any: bool,
    ids: Vec<usize>,
    i: usize,
    end: &Sender<Task>,
)
    requires
        call_ensures(Scheduler::add_worker, (s, id, tx), ()),
        call_ensures(Scheduler::remove_worker, (r, id), ()),
        call_ensures(Scheduler::worker_count, (&t,), count),
        call_ensures(Scheduler::has_workers, (&t,), any),
        call_ensures(Scheduler::worker_ids, (&t,), ids),
        i < t@.workers.len(),
        call_ensures(Scheduler::worker_tx, (&t, i), end),
    ensures
        final(s)@ == (SchedulerView {
            workers: old(s)@.workers.push(WorkerSlot { id, tx }),
            ..old(s)@
        }),
        final(r)@.workers.contains(w) <==> old(r)@.workers.contains(w) && w.id != id,
        final(r)@ == (SchedulerView { workers: final(r)@.workers, ..old(r)@ }),
        count == t@.workers.len(),
        any <==> count > 0,
        ids@.len() == count,
        ids@[i as int] == t@.workers[i as int].id,
        *end == t@.workers[i as int].tx,
{
    law_removed_worker_is_gone(old(r)@.workers, id, w);
}

/// The numbers of tasks: those pending, those that wait in the queues, and both
/// together.
pub proof fn law_number_calls(
    s: Scheduler,
    pending: usize,
    queued: usize,
    any: bool,
    load: Option<usize>,
    d: &mut Scheduler,
    strategy: ScheduleStrategy,
    n: usize,
    fresh: Scheduler,
)
    requires
        call_ensures(Scheduler::total_pending, (&s,), pending),
        s@.queue.len() + s@.delayed.len() <= usize::MAX,
        call_ensures(Scheduler::queued_count, (&s,), queued),
        call_ensures(Scheduler::has_queued, (&s,), any),
        call_ensures(Scheduler::load, (&s,), load),
        call_ensures(Scheduler::task_done, (d,), ()),
        call_ensures(Scheduler::new, (strategy, n), fresh),
    ensures
        pending == s@.pending,
        queued == s@.queue.len() + s@.delayed.len(),
        any <==> queued > 0,
        load is Some <==> pending + queued <= usize::MAX,
        load matches Some(l) ==> l == pending + queued,
        old(d)@.pending > 0 ==> final(d)@.pending == old(d)@.pending - 1,
        final(d)@ == (SchedulerView { pending: final(d)@.pending, ..old(d)@ }),
        fresh@.strategy == strategy,
        fresh@.pending == n,
        fresh@.rr_index == 0,
        fresh@.workers.len() == 0,
        fresh@.queue.len() == 0,
        fresh@.delayed.len() == 0,
{
    broadcast use vstd::multiset::group_multiset_axioms;

}

/// A task is put into the queue by priority, and with delays where it is due;
/// else with delays it waits, and without queues it is dropped.
pub proof fn law_enqueue_calls(
    s: &mut Scheduler,
    task: Task,
    now: Timestamp,
    r: &mut Scheduler,
)
    requires
        call_ensures(Scheduler::enqueue_at, (s, task, &now), ()),
        call_ensures(Scheduler::enqueue, (r, task), ()),
    ensures
        ({
            let due = match task.execute_after {
                Some(t) => t.secs < now.secs || (t.secs == now.secs && t.nanos <= now.nanos),
                None => true,
            };
            final(s)@ == match old(s)@.strategy {
                ScheduleStrategy::Priority => SchedulerView {
                    queue: old(s)@.queue.insert(task@),
                    ..old(s)@
                },
                ScheduleStrategy::DelayedQueue => if due {
                    SchedulerView { queue: old(s)@.queue.insert(task@), ..old(s)@ }
                } else {
                    SchedulerView { delayed: old(s)@.delayed.push(task@), ..old(s)@ }
                },
                _ => old(s)@,
            }
        }),
        old(r)@.strategy == ScheduleStrategy::Priority || (old(r)@.strategy
            == ScheduleStrategy::DelayedQueue && task.execute_after is None) ==> final(r)@ == (
        SchedulerView { queue: old(r)@.queue.insert(task@), ..old(r)@ }),
        old(r)@.strategy == ScheduleStrategy::RoundRobin || old(r)@.strategy
            == ScheduleStrategy::LeastLoaded ==> final(r)@ == old(r)@,
        old(r)@.strategy == ScheduleStrategy::DelayedQueue ==> (exists|n: Timestamp| #[trigger]
            n.clock_reading() && task@.due(n) && final(r)@ == (SchedulerView {
                queue: old(r)@.queue.insert(task@),
                ..old(r)@
            })) || (exists|n: Timestamp| #[trigger]
            n.clock_reading() && !task@.due(n) && final(r)@ == (SchedulerView {
                delayed: old(r)@.delayed.push(task@),
                ..old(r)@
            })),
{
}

/// A dispatch by load, with rooms that hold still, goes to the first worker that
/// has the fewest tasks waiting; the task is the one that was given.
pub proof fn law_least_loaded_call(
    s: &mut Scheduler,
    task: Task,
    step: DispatchStep,
    rooms: Seq<usize>,
)
    requires
        call_ensures(Scheduler::dispatch, (s, task), step),
        old(s)@.strategy == ScheduleStrategy::LeastLoaded,
        old(s)@.workers.len() > 0,
        rooms.len() == old(s)@.workers.len(),
        forall|j: int, n: usize|
            0 <= j < rooms.len() && #[trigger] room_shown(old(s)@.workers[j].tx, n) ==> n
                == rooms[j],
    ensures
        step matches DispatchStep::Send { worker, task: out } && {
            let all = old(s)@.workers;
            let w = worker as int;
            &&& out@ == task@
            &&& w < all.len()
            &&& forall|j: int|
                0 <= j < all.len() ==> channel_limit(all[w].tx) - rooms[w] <= channel_limit(
                    (#[trigger] all[j]).tx,
                ) - rooms[j]
            &&& forall|j: int|
                0 <= j < w ==> channel_limit(all[w].tx) - rooms[w] < channel_limit(
                    (#[trigger] all[j]).tx,
                ) - rooms[j]
        },
        final(s)@ == (SchedulerView { pending: final(s)@.pending, ..old(s)@ }),
        final(s)@.pending == (old(s)@.pending + 1) % (usize::MAX + 1),
{
    law_least_loaded_has_fewest_waiting(old(s)@, task@, final(s)@, step@, rooms);
}

/// A dispatch by turn goes to the worker whose turn it is, with the task that
/// was given.
pub proof fn law_round_robin_call(s: &mut Scheduler, task: Task, step: DispatchStep)
    requires
        call_ensures(Scheduler::dispatch, (s, task), step),
        old(s)@.strategy == ScheduleStrategy::RoundRobin,
        0 < old(s)@.workers.len() <= usize::MAX,
    ensures
        step matches DispatchStep::Send { worker, task: out } && out@ == task@ && worker
            == old(s)@.rr_index as int % old(s)@.workers.len() as int,
        final(s)@.rr_index == (old(s)@.rr_index + 1) % (usize::MAX + 1),
        final(s)@.pending == (old(s)@.pending + 1) % (usize::MAX + 1),
        final(s)@.workers == old(s)@.workers,
{
    law_round_robin_sends_by_turn(old(s)@, task@, final(s)@, step@);
}

/// A dispatch by turn or by load without workers is refused and changes nothing.
pub proof fn law_dispatch_call_without_workers(s: &mut Scheduler, task: Task, step: DispatchStep)
    requires
        call_ensures(Scheduler::dispatch, (s, task), step),
        old(s)@.strategy == ScheduleStrategy::RoundRobin || old(s)@.strategy
            == ScheduleStrategy::LeastLoaded,
        old(s)@.workers.len() == 0,
    ensures
        step == DispatchStep::Finished(false),
        final(s)@ == old(s)@,
{
}

/// A dispatch by queues, with a worker there, neither loses nor doubles a task;
/// so does a flush.
pub proof fn law_queue_dispatch_calls(
    s: &mut Scheduler,
    task: Task,
    step: DispatchStep,
    r: &mut Scheduler,
    next: DispatchStep,
)
    requires
        call_ensures(Scheduler::dispatch, (s, task), step),
        old(s)@.strategy == ScheduleStrategy::Priority || old(s)@.strategy
            == ScheduleStrategy::DelayedQueue,
        old(s)@.workers.len() > 0,
        call_ensures(Scheduler::flush_queues, (r,), next),
        old(r)@.workers.len() > 0,
    ensures
        step matches DispatchStep::Send { task: out, .. } ==> final(s)@.queue.add(
            final(s)@.delayed.to_multiset(),
        ).insert(out@) == old(s)@.queue.add(old(s)@.delayed.to_multiset()).insert(task@),
        step matches DispatchStep::Finished(ok) ==> ok && final(s)@.queue.len() == 0 && final(s)@.delayed.to_multiset() =~= old(s)@.queue.add(old(s)@.delayed.to_multiset()).insert(
            task@,
        ),
        next matches DispatchStep::Send { task: out, .. } ==> final(r)@.queue.add(
            final(r)@.delayed.to_multiset(),
        ).insert(out@) == old(r)@.queue.add(old(r)@.delayed.to_multiset()),
        next matches DispatchStep::Finished(ok) ==> ok && final(r)@.queue.len() == 0,
        final(s)@.pending == (old(s)@.pending + 1) % (usize::MAX + 1),
        final(r)@.pending == old(r)@.pending,
        final(s)@.workers == old(s)@.workers,
        final(r)@.workers == old(r)@.workers,
{
    broadcast use {
        vstd::multiset::group_multiset_axioms,
        vstd::multiset::group_multiset_properties,
    };

    law_dispatch_loses_nothing(old(s)@, task@, final(s)@, step@);
    law_flush_loses_nothing(old(r)@, final(r)@, next@);
}

/// The first worker with room, of those whose rooms are given; and the first
/// that carries on the second list what is the least on the first.
pub proof fn law_pick_calls(
    rooms: Vec<usize>,
    w: usize,
    loads: Vec<usize>,
    again: Vec<usize>,
    least: Option<usize>,
    j: int,
)
    requires
        rooms@.len() > 0,
        call_ensures(pick_with_room, (&rooms,), w),
        loads@.len() > 0,
        call_ensures(pick_least_loaded, (&loads, &again), least),
        0 <= j,
    ensures
        w < rooms@.len(),
        j < rooms@.len() && rooms@[j] > 0 ==> w <= j && rooms@[w as int] > 0,
        rooms@[w as int] == 0 ==> w == 0,
        least matches Some(k) ==> {
            &&& k < again@.len()
            &&& j < loads@.len() ==> again@[k as int] <= loads@[j]
            &&& loads@.contains(again@[k as int])
            &&& j < k ==> again@[j] != again@[k as int]
        },
{
    law_least_loaded_of_two_lists(loads@, again@, least);
    if j < rooms@.len() {
        law_first_worker_with_room(rooms@, w as int, j);
    } else {
        law_first_worker_with_room(rooms@, w as int, 0);
    }
    if let Some(k) = least {
        let m = choose|m: int|
            {
                &&& 0 <= m < loads@.len()
                &&& forall|i: int|
                    0 <= i < loads@.len() ==> #[trigger] loads@[m] <= #[trigger] loads@[i]
                &&& again@[k as int] == loads@[m]
            };
        assert(loads@[m] == again@[k as int]);
        if j < loads@.len() {
            assert(loads@[m] <= loads@[j]);
        }
    }
}

/// What follows on a send by turn or by load is the end of the dispatch, well or
/// ill as the delivery was; by queues a failure ends it.
pub proof fn law_after_send_call(s: &mut Scheduler, delivered: bool, step: DispatchStep)
    requires
        call_ensures(Scheduler::after_send, (s, delivered), step),
    ensures
        old(s)@.strategy == ScheduleStrategy::RoundRobin || old(s)@.strategy
            == ScheduleStrategy::LeastLoaded ==> {
            &&& step == DispatchStep::Finished(delivered)
            &&& delivered ==> final(s)@ == old(s)@
            &&& !delivered && old(s)@.pending > 0 ==> final(s)@ == (SchedulerView {
                pending: (old(s)@.pending - 1) as usize,
                ..old(s)@
            })
        },
        (old(s)@.strategy == ScheduleStrategy::Priority || old(s)@.strategy
            == ScheduleStrategy::DelayedQueue) && !delivered ==> step == DispatchStep::Finished(
            true,
        ) && final(s)@ == old(s)@,
        (old(s)@.strategy == ScheduleStrategy::Priority || old(s)@.strategy
            == ScheduleStrategy::DelayedQueue) && delivered && old(s)@.workers.len() > 0 ==> {
            &&& old(s)@.queue.len() > 0 ==> step is Send
            &&& old(s)@.queue.len() == 0 ==> step == DispatchStep::Finished(true)
            &&& step matches DispatchStep::Send { task, .. } ==> old(s)@.queue.contains(task@)
                && final(s)@.queue == old(s)@.queue.remove(task@)
            &&& final(s)@ == (SchedulerView { queue: final(s)@.queue, ..old(s)@ })
        },
{
    law_delivery_decides_what_follows(old(s)@, delivered, final(s)@, step@);
    law_counting_up_and_down(old(s)@.pending);
}

/// A flush at given looks hands exactly the delayed tasks to the queue that are
/// due at the moment of the flush or at their own look, and holds the others.
pub proof fn law_flush_delayed_at_call(
    s: &mut Scheduler,
    now: Timestamp,
    looks: Vec<Timestamp>,
    t: TaskView,
    i: int,
)
    requires
        looks@.len() == old(s)@.delayed.len(),
        call_ensures(Scheduler::flush_delayed_at, (s, &now, &looks), ()),
        0 <= i < looks@.len(),
        t == old(s)@.delayed[i],
    ensures
        t.due(now) || t.due(looks@[i]) ==> final(s)@.queue.contains(t),
        !t.due(now) && !t.due(looks@[i]) ==> final(s)@.delayed.contains(t),
        final(s)@.queue.add(final(s)@.delayed.to_multiset()) == old(s)@.queue.add(
            old(s)@.delayed.to_multiset(),
        ),
        final(s)@ == (SchedulerView {
            queue: final(s)@.queue,
            delayed: final(s)@.delayed,
            ..old(s)@
        }),
{
    broadcast use {
        vstd::seq_lib::group_to_multiset_ensures,
        vstd::multiset::group_multiset_axioms,
        vstd::multiset::group_multiset_properties,
    };

    law_flush_keeps_all_tasks(old(s)@, now, looks@);
    if t.due(now) || t.due(looks@[i]) {
        law_flush_releases_what_is_due(old(s)@.delayed, now, looks@, i);
    } else {
        law_flush_holds_what_is_not_due(old(s)@.delayed, now, looks@, i);
    }
}

/// A flush hands to the queue only what the clock has shown to be due, holds
/// only what it has shown not to be, and loses nothing.
pub proof fn law_flush_delayed_call(s: &mut Scheduler, t: TaskView)
    requires
        call_ensures(Scheduler::flush_delayed, (s,), ()),
    ensures
        final(s)@.queue.contains(t) ==> old(s)@.queue.contains(t) || (old(s)@.delayed.contains(t)
            && exists|n: Timestamp| #[trigger] n.clock_reading() && t.due(n)),
        final(s)@.delayed.contains(t) ==> old(s)@.delayed.contains(t) && exists|n: Timestamp|
            #[trigger] n.clock_reading() && !t.due(n),
        final(s)@.queue.add(final(s)@.delayed.to_multiset()) == old(s)@.queue.add(
            old(s)@.delayed.to_multiset(),
        ),
        final(s)@ == (SchedulerView {
            queue: final(s)@.queue,
            delayed: final(s)@.delayed,
            ..old(s)@
        }),
{
    broadcast use {
        vstd::seq_lib::group_to_multiset_ensures,
        vstd::multiset::group_multiset_axioms,
        vstd::multiset::group_multiset_properties,
    };

    let delayed = old(s)@.delayed;
    let (now, looks) = choose|now: Timestamp, looks: Seq<Timestamp>|
        {
            &&& now.clock_reading()
            &&& clock_readings(looks) && looks.len() == delayed.len()
            &&& final(s)@ == #[trigger] old(s)@.flushed(now, looks)
        };
    law_flush_keeps_all_tasks(old(s)@, now, looks);
    if final(s)@.queue.contains(t) && !old(s)@.queue.contains(t) {
        let out = released(delayed, now, looks);
        assert(out.to_multiset().contains(t));
        let i = lemma_released_was_due(delayed, now, looks, t);
        assert(looks[i].clock_reading());
    }
    if final(s)@.delayed.contains(t) {
        let i = lemma_held_back_was_not_due(delayed, now, looks, t);
        assert(now.clock_reading() && !t.due(now));
    }
}

/// With given rooms the foremost task of the queue goes to the first worker with
/// room; with given loads a task goes to the first that has the least.
pub proof fn law_sends_by_given_numbers(
    s: &mut Scheduler,
    rooms: Vec<usize>,
    step: DispatchStep,
    r: Scheduler,
    task: Task,
    loads: Vec<usize>,
    next: DispatchStep,
    j: int,
    u: TaskView,
)
    requires
        rooms@.len() == old(s)@.workers.len(),
        call_ensures(Scheduler::send_next_by, (s, &rooms), step),
        loads@.len() == r@.workers.len() > 0,
        call_ensures(Scheduler::dispatch_least_loaded_by, (&r, task, &loads, &loads), next),
        0 <= j,
    ensures
        old(s)@.queue.len() == 0 ==> step == DispatchStep::Finished(true) && final(s)@ == old(s)@,
        old(s)@.queue.len() > 0 && old(s)@.workers.len() > 0 ==> step is Send,
        step matches DispatchStep::Send { worker, task: out } ==> {
            &&& worker < rooms@.len()
            &&& j < rooms@.len() && rooms@[j] > 0 ==> worker <= j && rooms@[worker as int] > 0
            &&& rooms@[worker as int] == 0 ==> worker == 0
            &&& old(s)@.queue.count(out@) > 0
            &&& old(s)@.queue.count(u) > 0 ==> !out@.behind(u)
            &&& final(s)@ == (SchedulerView { queue: old(s)@.queue.remove(out@), ..old(s)@ })
        },
        next matches DispatchStep::Send { worker, task: out } && {
            &&& out@ == task@
            &&& worker < loads@.len()
            &&& j < loads@.len() ==> loads@[worker as int] <= loads@[j]
            &&& j < worker ==> loads@[worker as int] < loads@[j]
        },
{
    law_one_task_leaves_the_queue(old(s)@, rooms@, final(s)@, step@);
    if let DispatchStep::Send { worker, task: out } = step {
        if j < rooms@.len() {
            law_first_worker_with_room(rooms@, worker as int, j);
        } else {
            law_first_worker_with_room(rooms@, worker as int, 0);
        }
    }
    let picked: Option<usize> = match next {
        DispatchStep::Send { worker, .. } => Some(worker),
        DispatchStep::Finished(_) => None,
    };
    law_least_loaded_finds_the_least(loads@, picked);
    law_least_loaded_of_two_lists(loads@, loads@, picked);
    let w = picked->0 as int;
    if j < w {
        assert(loads@[j] != loads@[w]);
    }
}

// The pool.

/// A new pool is open and idle, with channels and dead letters of the configured
/// size.
pub proof fn law_new_pool_call(config: PoolConfig, now: Delay, p: Pool)
    requires
        call_ensures(Pool::new, (config, now), p),
    ensures
        p@.config == config,
        p@.task_tx matches Some(tx) && channel_limit(tx) == config.max_queue_size,
        p@.task_rx matches Some(rx) && connected(p@.task_tx->0, rx),
        p@.scheduler.strategy == config.schedule_strategy,
        p@.scheduler.workers.len() == 0,
        p@.scheduler.queue.len() == 0,
        p@.scheduler.delayed.len() == 0,
        p@.scheduler.pending == 0,
        p@.counters.total_submitted == 0,
        p@.counters.total_completed == 0,
        p@.counters.total_failed == 0,
        p@.counters.total_panicked == 0,
        p@.counters.total_elapsed_us == 0,
        p@.dead_letter.entries.len() == 0,
        p@.dead_letter.max_size == config.max_queue_size,
        !p@.shutting_down,
        p@.next_worker_id == 0,
        p@.active_workers == 0,
        p@.last_activity == now@,
{
    broadcast use vstd::multiset::group_multiset_axioms;

}

/// The pool flushes and goes on as its scheduler does, and changes nothing else;
/// it can look at its load where that fits a number and a pool that is to grow
/// has a threshold.
pub proof fn law_pool_flush_calls(
    p: &mut Pool,
    first: DispatchStep,
    q: &mut Pool,
    delivered: bool,
    next: DispatchStep,
    r: Pool,
    can: bool,
)
    requires
        call_ensures(Pool::flush_queues, (p,), first),
        call_ensures(Pool::after_send, (q, delivered), next),
        call_ensures(Pool::can_scale, (&r,), can),
        r@.scheduler.workers.len() <= usize::MAX,
    ensures
        queues_flushed(old(p)@.scheduler, final(p)@.scheduler, first@),
        final(p)@ == (PoolView { scheduler: final(p)@.scheduler, ..old(p)@ }),
        sent(old(q)@.scheduler, delivered, final(q)@.scheduler, next@),
        final(q)@ == (PoolView { scheduler: final(q)@.scheduler, ..old(q)@ }),
        can <==> r@.shutting_down || ({
            let load = r@.scheduler.pending + r@.scheduler.queue.len() + r@.scheduler.delayed.len();
            load <= usize::MAX && (r@.config.scale_up_threshold > 0 || load == 0
                || r@.scheduler.workers.len() >= r@.config.max_workers)
        }),
{
}

/// The decision on scaling, on the numbers: up to one worker for each full
/// threshold of tasks, as far as allowed and by one at least; down to the fewest
/// workers when idle.
pub proof fn law_scale_decision_call(
    config: PoolConfig,
    pending: usize,
    workers: usize,
    idle: Delay,
    decision: ScaleDecision,
)
    requires
        config.scale_up_threshold > 0,
        call_ensures(scale_decision, (&config, pending, workers, &idle), decision),
    ensures
        ({
            let threshold = config.scale_up_threshold as int;
            let up = pending > threshold && workers < config.max_workers;
            let down = pending == 0 && workers > config.min_workers && idle@
                >= config.idle_timeout_secs * 1_000_000_000;
            &&& decision is Up <==> up
            &&& decision is Down <==> down
            &&& decision matches ScaleDecision::Down(count) ==> count == workers
                - config.min_workers
            &&& decision matches ScaleDecision::Up(count) ==> {
                &&& count >= 1
                &&& workers + count <= config.max_workers
                &&& workers + count == config.max_workers || (workers + count + 1) * threshold
                    > pending
                &&& count == 1 || (workers + count) * threshold <= pending
            }
        }),
{
    law_scaling_on_the_numbers(config, pending, workers, idle@);
}

/// A look at the load of a pool that does not shut down hands out workers, or
/// removes those registered last, exactly as the numbers say.
pub proof fn law_scale_check_call(p: &mut Pool, now: Delay, step: ScaleStep)
    requires
        call_ensures(Pool::scale_check, (p, now), step),
        !old(p)@.shutting_down,
        old(p)@.config.scale_up_threshold > 0,
        old(p)@.scheduler.workers.len() <= usize::MAX,
        old(p)@.scheduler.pending + old(p)@.scheduler.queue.len()
            + old(p)@.scheduler.delayed.len() <= usize::MAX,
    ensures
        ({
            let pre = old(p)@;
            let load = pre.scheduler.pending + pre.scheduler.queue.len()
                + pre.scheduler.delayed.len();
            let workers = pre.scheduler.workers.len() as int;
            let threshold = pre.config.scale_up_threshold as int;
            &&& step is Spawn <==> load > threshold && workers < pre.config.max_workers
            &&& step matches ScaleStep::Spawn(new) ==> {
                let after = workers + new@.len();
                &&& new@.len() >= 1
                &&& after <= pre.config.max_workers
                &&& after == pre.config.max_workers || (after + 1) * threshold > load
                &&& new@.len() == 1 || after * threshold <= load
                &&& fresh_workers(new@, pre.next_worker_id)
            }
            &&& step is Removed <==> load == 0 && workers > pre.config.min_workers && (now@
                - pre.last_activity >= pre.config.idle_timeout_secs * 1_000_000_000
                || pre.config.idle_timeout_secs == 0)
            &&& step matches ScaleStep::Removed(ids) ==> ids@.len() == workers
                - pre.config.min_workers
            &&& step is Hold ==> final(p)@ == pre
        }),
{
    law_scale_check_on_the_numbers(old(p)@, now@, final(p)@, step);
}

/// While the pool shuts down: it is over when no worker runs, goes on in steps
/// of a tenth of a second until the timeout, and then says how many are left.
pub proof fn law_shutdown_progress_call(p: Pool, waited: Delay, step: ShutdownStep)
    requires
        call_ensures(Pool::shutdown_progress, (&p, waited), step),
    ensures
        p@.active_workers == 0 ==> step is Complete,
        p@.active_workers > 0 && waited@ < p@.config.shutdown_timeout_secs * 1_000_000_000
            ==> (step matches ShutdownStep::Wait(pause) && pause@ == 100_000_000),
        p@.active_workers > 0 && waited@ >= p@.config.shutdown_timeout_secs * 1_000_000_000
            ==> step == ShutdownStep::TimedOut(p@.active_workers),
{
}

/// The steps that only count or switch do just that.
pub proof fn law_small_pool_calls(
    a: &mut Pool,
    b: &mut Pool,
    c: &mut Pool,
    d: &mut Pool,
    e: &mut Pool,
    slot: WorkerSlot,
)
    requires
        call_ensures(Pool::worker_started, (a,), ()),
        call_ensures(Pool::worker_stopped, (b,), ()),
        call_ensures(Pool::request_shutdown, (c,), ()),
        call_ensures(Pool::shutdown, (d,), ()),
        call_ensures(Pool::add_worker, (e, slot), ()),
    ensures
        old(a)@.active_workers < usize::MAX ==> final(a)@.active_workers == old(a)@.active_workers
            + 1,
        final(a)@ == (PoolView { active_workers: final(a)@.active_workers, ..old(a)@ }),
        old(b)@.active_workers > 0 ==> final(b)@.active_workers == old(b)@.active_workers - 1,
        final(b)@ == (PoolView { active_workers: final(b)@.active_workers, ..old(b)@ }),
        final(c)@ == (PoolView { shutting_down: true, ..old(c)@ }),
        final(d)@.shutting_down,
        final(d)@.task_tx is None,
        final(d)@.scheduler.workers.len() == 0,
        final(d)@.scheduler.queue.len() == 0,
        final(d)@.scheduler.delayed.len() == 0,
        final(d)@.scheduler.pending == old(d)@.scheduler.pending,
        final(d)@.counters == old(d)@.counters,
        final(d)@.dead_letter == old(d)@.dead_letter,
        final(d)@.active_workers == old(d)@.active_workers,
        final(d)@.config == old(d)@.config,
        final(e)@.scheduler.workers == old(e)@.scheduler.workers.push(slot),
        final(e)@ == (PoolView {
            scheduler: SchedulerView {
                workers: final(e)@.scheduler.workers,
                ..old(e)@.scheduler
            },
            ..old(e)@
        }),
{
    broadcast use vstd::multiset::group_multiset_axioms;

}

/// What the pool says of itself is so.
pub proof fn law_pool_getter_calls(
    p: Pool,
    open: bool,
    start: bool,
    down: bool,
    flush: bool,
    config: PoolConfig,
    s: &Scheduler,
)
    requires
        call_ensures(Pool::is_open, (&p,), open),
        call_ensures(Pool::can_start, (&p,), start),
        call_ensures(Pool::shutting_down, (&p,), down),
        call_ensures(Pool::can_flush, (&p,), flush),
        call_ensures(Pool::config, (&p,), config),
        call_ensures(Pool::scheduler, (&p,), s),
    ensures
        open <==> p@.task_tx is Some,
        start <==> p@.task_rx is Some,
        down <==> p@.shutting_down,
        flush <==> p@.scheduler.workers.len() > 0 && (p@.scheduler.queue.len() > 0
            || p@.scheduler.delayed.len() > 0),
        config == p@.config,
        s@ == p@.scheduler,
{
}

/// A dispatch by the pool counts one more submitted task, whatever comes of it,
/// and is that of its scheduler.
pub proof fn law_pool_dispatch_call(p: &mut Pool, task: Task, step: DispatchStep)
    requires
        call_ensures(Pool::dispatch, (p, task), step),
    ensures
        final(p)@.counters.total_submitted == (old(p)@.counters.total_submitted + 1)
            % 0x1_0000_0000_0000_0000,
        final(p)@.counters.total_completed == old(p)@.counters.total_completed,
        final(p)@.counters.total_failed == old(p)@.counters.total_failed,
        final(p)@.counters.total_panicked == old(p)@.counters.total_panicked,
        final(p)@.counters.total_elapsed_us == old(p)@.counters.total_elapsed_us,
        final(p)@ == (PoolView {
            scheduler: final(p)@.scheduler,
            counters: final(p)@.counters,
            ..old(p)@
        }),
        dispatched(
            old(p)@.scheduler,
            task@,
            final(p)@.scheduler,
            step@,
        ),
{
}

/// The end of a task is booked as it settles, takes one off the pending tasks
/// and is the last activity.
pub proof fn law_pool_end_calls(
    p: &mut Pool,
    result: TaskResult,
    now: Delay,
    at: Timestamp,
    q: &mut Pool,
)
    requires
        result.result is Success ==> result.elapsed_ms * 1000 <= 0xffff_ffff_ffff_ffff,
        call_ensures(Pool::task_finished_at, (p, result, now, at), ()),
        call_ensures(Pool::task_finished, (q, result, now), ()),
    ensures
        final(p)@.last_activity == now@,
        final(q)@.last_activity == now@,
        old(p)@.scheduler.pending > 0 ==> final(p)@.scheduler.pending == old(p)@.scheduler.pending
            - 1,
        old(q)@.scheduler.pending > 0 ==> final(q)@.scheduler.pending == old(q)@.scheduler.pending
            - 1,
        final(p)@.counters == counted(old(p)@.counters, result@),
        final(q)@.counters == counted(old(q)@.counters, result@),
        result.result is Success || result.attempts <= result.max_attempts ==> final(p)@.dead_letter == old(p)@.dead_letter && final(q)@.dead_letter == old(q)@.dead_letter,
        !(result.result is Success) && result.attempts > result.max_attempts ==> {
            &&& final(p)@.dead_letter.entries.len() > 0
            &&& final(p)@.dead_letter.entries.last().task == result.original_task@
            &&& final(p)@.dead_letter.entries.last().attempts == result.attempts
            &&& final(p)@.dead_letter.entries.last().failed_at == at
            &&& final(q)@.dead_letter.entries.len() > 0
            &&& final(q)@.dead_letter.entries.last().task == result.original_task@
            &&& final(q)@.dead_letter.entries.last().attempts == result.attempts
            &&& final(q)@.dead_letter.entries.last().failed_at.from_clock()
        },
{
    law_unsuccessful_task_becomes_a_letter(old(p)@.dead_letter, result@, at);
    let shown = choose|shown: Timestamp| #[trigger]
        shown.clock_reading() && final(q)@ == old(q)@.after_task(result@, now@, shown);
    law_unsuccessful_task_becomes_a_letter(old(q)@.dead_letter, result@, shown);
}

/// The start hands out as many workers as the fewest, numbered from the next id
/// on, and the receiving end of the pool.
pub proof fn law_pool_start_call(p: &mut Pool, startup: Startup, i: int)
    requires
        call_ensures(Pool::start, (p,), startup),
        old(p)@.next_worker_id + old(p)@.config.min_workers <= usize::MAX,
    ensures
        startup.workers@.len() == old(p)@.config.min_workers,
        old(p)@.task_rx == Some(startup.task_rx),
        final(p)@.task_rx is None,
        final(p)@.next_worker_id == old(p)@.next_worker_id + old(p)@.config.min_workers,
        0 <= i < startup.workers@.len() ==> {
            &&& startup.workers@[i].slot.id == old(p)@.next_worker_id + i
            &&& channel_limit(startup.workers@[i].slot.tx) == 256
            &&& connected(startup.workers@[i].slot.tx, startup.workers@[i].rx)
        },
{
    lemma_id_after(
        old(p)@.next_worker_id,
        old(p)@.config.min_workers as nat,
    );
    if 0 <= i < startup.workers@.len() {
        law_new_workers_are_numbered_and_connected(
            startup.workers@,
            old(p)@.next_worker_id,
            i,
        );
    }
}

/// A pool that shuts down refuses every task. Else the task itself is to be sent
/// or is offered to the pool's channel, and the answer is that of the channel.
pub proof fn law_submit_calls(
    s: PoolSubmitter,
    task: Task,
    down: bool,
    step: SubmitStep,
    answer: Result<(), SubmitError>,
    delivered: bool,
    sent: Result<(), SubmitError>,
)
    requires
        call_ensures(PoolSubmitter::submit, (&s, task, down), step),
        call_ensures(PoolSubmitter::try_submit, (&s, task, down), answer),
        call_ensures(send_answer, (delivered,), sent),
    ensures
        down ==> step == SubmitStep::Refused(SubmitError::ShuttingDown),
        !down ==> step == SubmitStep::Send(task),
        down ==> answer == Err::<(), SubmitError>(SubmitError::ShuttingDown),
        !down && answer is Ok ==> offer_met(s.task_tx, task@, Offer::Sent),
        !down && answer == Err::<(), SubmitError>(SubmitError::QueueFull) ==> offer_met(
            s.task_tx,
            task@,
            Offer::Full,
        ),
        !down && answer == Err::<(), SubmitError>(SubmitError::ShuttingDown) ==> offer_met(
            s.task_tx,
            task@,
            Offer::Closed,
        ),
        delivered <==> sent is Ok,
        !delivered ==> sent == Err::<(), SubmitError>(SubmitError::ShuttingDown),
{
}

/// An offer that was taken is accepted; the reason of a refusal is that of the
/// channel.
pub proof fn law_offer_answer_call(outcome: Offer, answer: Result<(), SubmitError>)
    requires
        call_ensures(offer_answer, (outcome,), answer),
    ensures
        outcome is Sent <==> answer is Ok,
        outcome is Full <==> answer == Err::<(), SubmitError>(SubmitError::QueueFull),
        outcome is Closed <==> answer == Err::<(), SubmitError>(SubmitError::ShuttingDown),
{
}

/// All handles for submitting lead into the pool's own channel.
pub proof fn law_submitter_calls(
    p: Pool,
    s: PoolSubmitter,
    copy: PoolSubmitter,
    rx: Receiver<Task>,
)
    requires
        p@.task_tx is Some,
        call_ensures(Pool::submitter, (&p,), s),
        call_ensures(PoolSubmitter::clone, (&s,), copy),
    ensures
        channel_limit(s.task_tx) == channel_limit(p@.task_tx->0),
        channel_limit(copy.task_tx) == channel_limit(p@.task_tx->0),
        connected(p@.task_tx->0, rx) <==> connected(s.task_tx, rx),
        connected(p@.task_tx->0, rx) <==> connected(copy.task_tx, rx),
{
}

/// A snapshot has each number from where it is counted, the pending tasks with
/// those that wait, and the average as the sum of the times and the number of
/// the completed.
pub proof fn law_snapshot_call(m: Metrics<'_>, s: MetricsSnapshot)
    requires
        call_ensures(Metrics::snapshot, (&m,), s),
    ensures
        s.total_submitted == m.counters.total_submitted,
        s.total_completed == m.counters.total_completed,
        s.total_failed == m.counters.total_failed,
        s.total_panicked == m.counters.total_panicked,
        s.pending == m.scheduler@.pending + m.scheduler@.queue.len() + m.scheduler@.delayed.len(),
        s.active_workers == m.active_workers,
        s.dead_letter_count == m.dead_letter@.entries.len(),
        m.counters.total_completed == 0 ==> s.avg_elapsed_us is None,
        m.counters.total_completed > 0 ==> s.avg_elapsed_us == Some(
            (m.counters.total_elapsed_us, m.counters.total_completed),
        ),
{
}

/// The metrics of a pool are read off that pool.
pub proof fn law_metrics_call(p: Pool, m: Metrics<'_>, s: MetricsSnapshot)
    requires
        call_ensures(Pool::metrics, (&p,), m),
        call_ensures(Metrics::snapshot, (&m,), s),
    ensures
        s.total_submitted == p@.counters.total_submitted,
        s.total_completed == p@.counters.total_completed,
        s.total_failed == p@.counters.total_failed,
        s.total_panicked == p@.counters.total_panicked,
        s.pending == p@.scheduler.pending + p@.scheduler.queue.len() + p@.scheduler.delayed.len(),
        s.active_workers == p@.active_workers,
        s.dead_letter_count == p@.dead_letter.entries.len(),
{
}

} // verus!
