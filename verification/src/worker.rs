//! What a worker makes of a task.

use crate::dead_letter::{pushed, DeadLetterQueue, DeadLetterView};
use crate::metrics::MetricsCounters;
use crate::time::{lemma_clock_shows_a_moment, utc_now, Delay, Timestamp, NANOS_PER_MILLI};
use crate::types::{DeadLetterEntryView, JobResult, JobResultView, Task, TaskView};
use vstd::prelude::*;

verus! {

/// How one call of the handler ended.
pub enum HandlerOutcome {
    Returned(Result<Vec<u8>, String>),
    /// The handler panicked, with a message where the panic carried text.
    Panicked(Option<String>),
}

/// The result of a run of the handler.
pub open spec fn handler_result(outcome: HandlerOutcome) -> JobResultView {
    match outcome {
        HandlerOutcome::Returned(Ok(data)) => JobResultView::Success(data@),
        HandlerOutcome::Returned(Err(message)) => JobResultView::Failure(message@),
        HandlerOutcome::Panicked(Some(message)) => JobResultView::Panic(message@),
        HandlerOutcome::Panicked(None) => JobResultView::Panic("unknown panic"@),
    }
}

/// The result of a run of the handler.
pub fn run_handler(outcome: HandlerOutcome) -> (result: JobResult)
    ensures
        result@ == handler_result(outcome),
{
    match outcome {
        HandlerOutcome::Returned(Ok(data)) => JobResult::Success(data),
        HandlerOutcome::Returned(Err(message)) => JobResult::Failure(message),
        HandlerOutcome::Panicked(Some(message)) => JobResult::Panic(message),
        HandlerOutcome::Panicked(None) => JobResult::Panic("unknown panic".to_owned()),
    }
}

/// What became of a task, retries included.
#[derive(Debug)]
pub struct TaskResult {
    pub task_id: u128,
    pub result: JobResult,
    pub attempts: u32,
    pub max_attempts: u32,
    pub elapsed_ms: u64,
    pub original_task: Task,
}

/// What a `TaskResult` holds.
#[verifier::ext_equal]
pub struct TaskResultView {
    pub task_id: u128,
    pub result: JobResultView,
    pub attempts: u32,
    pub max_attempts: u32,
    pub elapsed_ms: u64,
    pub original_task: TaskView,
}

impl View for TaskResult {
    type V = TaskResultView;

    open spec fn view(&self) -> TaskResultView {
        TaskResultView {
            task_id: self.task_id,
            result: self.result@,
            attempts: self.attempts,
            max_attempts: self.max_attempts,
            elapsed_ms: self.elapsed_ms,
            original_task: self.original_task@,
        }
    }
}

/// What an `Execution` holds: the task as it came, and how many attempts were
/// begun on it.
#[verifier::ext_equal]
pub struct ExecutionView {
    pub task: TaskView,
    pub attempt: u32,
}

/// What follows on a run of the handler.
pub enum ExecutionStep {
    /// Wait for `delay`, then begin the next attempt.
    Retry { execution: Execution, delay: Delay },
    Finished(TaskResult),
}

/// What an `ExecutionStep` holds; the delay in nanoseconds.
pub enum ExecutionStepView {
    Retry { execution: ExecutionView, delay: int },
    Finished(TaskResultView),
}

impl View for ExecutionStep {
    type V = ExecutionStepView;

    open spec fn view(&self) -> ExecutionStepView {
        match self {
            ExecutionStep::Retry { execution, delay } => ExecutionStepView::Retry {
                execution: execution@,
                delay: delay@ as int,
            },
            ExecutionStep::Finished(result) => ExecutionStepView::Finished(result@),
        }
    }
}

/// The milliseconds of `nanos` nanoseconds, modulo the range of a `u64`.
pub open spec fn millis_u64(nanos: nat) -> u64 {
    ((nanos / NANOS_PER_MILLI as nat) % 0x1_0000_0000_0000_0000) as u64
}

impl ExecutionView {
    /// The execution is over, with `result`.
    pub open spec fn finished(self, result: JobResultView, elapsed: nat) -> TaskResultView {
        TaskResultView {
            task_id: self.task.id,
            result,
            attempts: self.attempt,
            max_attempts: self.task.retry_policy.retries(),
            elapsed_ms: millis_u64(elapsed),
            original_task: self.task,
        }
    }

    /// No retry is left.
    pub open spec fn exhausted(self) -> bool {
        self.attempt > self.task.retry_policy.retries()
    }

    /// The execution is over after a run with `result`, or the delay before the
    /// next attempt can be computed.
    pub open spec fn may_go_on(self, result: JobResultView) -> bool {
        ||| result is Success
        ||| self.exhausted()
        ||| self.task.retry_policy.delay_fits((self.attempt - 1) as u32)
    }

    /// What follows on a run with `result`. A success ends the execution. So
    /// does a failure or a panic when the retries are used up; it then counts
    /// as a failure. Else the task is tried again after the policy's delay.
    pub open spec fn after(self, result: JobResultView, elapsed: nat) -> ExecutionStepView {
        match result {
            JobResultView::Success(_) => ExecutionStepView::Finished(
                self.finished(result, elapsed),
            ),
            JobResultView::Failure(message) | JobResultView::Panic(message) => if self.exhausted() {
                ExecutionStepView::Finished(
                    self.finished(JobResultView::Failure(message), elapsed),
                )
            } else {
                ExecutionStepView::Retry {
                    execution: self,
                    delay: self.task.retry_policy.delay_nanos((self.attempt - 1) as u32),
                }
            },
        }
    }
}

/// A task in the hands of a worker.
pub struct Execution {
    task: Task,
    attempt: u32,
}

impl View for Execution {
    type V = ExecutionView;

    closed spec fn view(&self) -> ExecutionView {
        ExecutionView { task: self.task@, attempt: self.attempt }
    }
}

impl Execution {
    /// Takes up a task. Attempts made earlier count.
    pub fn new(task: Task) -> (e: Execution)
        ensures
            e@ == (ExecutionView { task: task@, attempt: task.attempt }),
    {
        let attempt: u32 = task.attempt;
        Execution { task, attempt }
    }

    /// How many attempts were begun.
    pub fn attempt(&self) -> (n: u32)
        ensures
            n == self@.attempt,
    {
        self.attempt
    }

    /// Begins the next attempt, and hands out the payload for the handler.
    pub fn begin_attempt(&mut self) -> (payload: Vec<u8>)
        requires
            old(self)@.attempt < u32::MAX,
        ensures
            final(self)@ == (ExecutionView {
                attempt: (old(self)@.attempt + 1) as u32,
                ..old(self)@
            }),
            payload@ == old(self)@.task.payload,
    {
        self.attempt = self.attempt + 1;
        let payload = self.task.payload.clone();
        assert(payload@ =~= self.task.payload@);
        payload
    }

    /// Can the execution go on after a run that ended with `result`? Not where
    /// the delay before the next attempt is too long to be computed.
    pub fn can_go_on(&self, result: &JobResult) -> (b: bool)
        requires
            self@.attempt > 0,
        ensures
            b == self@.may_go_on(result@),
    {
        result.is_ok() || self.attempt > self.task.retry_policy.max_retries()
            || self.task.retry_policy.has_delay_for(self.attempt - 1)
    }

    /// Goes on after a run of the handler that ended with `result`, `elapsed`
    /// after the task was taken up.
    pub fn after_run(self, result: JobResult, elapsed: Delay) -> (step: ExecutionStep)
        requires
            self@.attempt > 0,
            self@.may_go_on(result@),
        ensures
            step@ == self@.after(result@, elapsed@),
    {
        let max_retries: u32 = self.task.retry_policy.max_retries();
        match result {
            JobResult::Success(data) => {
                ExecutionStep::Finished(self.finish(JobResult::Success(data), elapsed))
            },
            JobResult::Failure(message) | JobResult::Panic(message) => {
                if self.attempt > max_retries {
                    return ExecutionStep::Finished(
                        self.finish(JobResult::Failure(message), elapsed),
                    );
                }
                let delay = self.task.retry_policy.delay_for_attempt(self.attempt - 1);
                ExecutionStep::Retry { execution: self, delay }
            },
        }
    }

    fn finish(self, result: JobResult, elapsed: Delay) -> (r: TaskResult)
        ensures
            r@ == self@.finished(result@, elapsed@),
    {
        TaskResult {
            task_id: self.task.id,
            result,
            attempts: self.attempt,
            max_attempts: self.task.retry_policy.max_retries(),
            elapsed_ms: elapsed.as_millis_u64(),
            original_task: self.task,
        }
    }
}

/// The counters after `result` was settled.
pub open spec fn counted(counters: MetricsCounters, result: TaskResultView) -> MetricsCounters {
    match result.result {
        JobResultView::Success(_) => counters.with_completed((result.elapsed_ms * 1000) as u64),
        JobResultView::Failure(_) => counters.with_failed(),
        JobResultView::Panic(_) => counters.with_panicked(),
    }
}

/// The message under which the task of `result` is given up; `None` where it
/// is not. A task that failed or panicked is given up once its retries are used
/// up.
pub open spec fn given_up(result: TaskResultView) -> Option<Seq<char>> {
    match result.result {
        JobResultView::Success(_) => None,
        JobResultView::Failure(message) | JobResultView::Panic(message) => if result.attempts
            > result.max_attempts {
            Some(message)
        } else {
            None
        },
    }
}

/// The dead letters after `result` was settled at `failed_at`.
pub open spec fn buried(
    dead_letter: DeadLetterView,
    result: TaskResultView,
    failed_at: Timestamp,
) -> DeadLetterView {
    match given_up(result) {
        Some(message) => DeadLetterView {
            entries: pushed(
                dead_letter.entries,
                dead_letter.max_size,
                DeadLetterEntryView {
                    task: result.original_task,
                    last_error: message,
                    attempts: result.attempts,
                    failed_at,
                },
            ),
            ..dead_letter
        },
        None => dead_letter,
    }
}

impl TaskResult {
    /// Is the task given up?
    pub fn is_given_up(&self) -> (b: bool)
        ensures
            b == (given_up(self@) is Some),
    {
        self.result.is_err() && self.attempts > self.max_attempts
    }

    /// Counts the end of a task.
    fn count(&self, counters: &mut MetricsCounters)
        requires
            self@.result is Success ==> self.elapsed_ms * 1000 <= u64::MAX,
        ensures
            *final(counters) == counted(*old(counters), self@),
    {
        match &self.result {
            JobResult::Success(_) => counters.count_completed(self.elapsed_ms * 1000),
            JobResult::Failure(_) => counters.count_failed(),
            JobResult::Panic(_) => counters.count_panicked(),
        }
    }

    /// Keeps a task that is given up among the dead letters, as of `failed_at`.
    fn bury_at(self, dead_letter: &mut DeadLetterQueue, failed_at: Timestamp)
        requires
            given_up(self@) is Some,
        ensures
            final(dead_letter)@ == buried(old(dead_letter)@, self@, failed_at),
    {
        match self.result {
            JobResult::Success(_) => {},
            JobResult::Failure(message) | JobResult::Panic(message) => {
                dead_letter.push_at(self.original_task, message, self.attempts, failed_at);
            },
        }
    }
}

/// Books the end of a task: counts it and, where it is given up, keeps it
/// among the dead letters as of `failed_at`.
pub fn settle_at(
    result: TaskResult,
    counters: &mut MetricsCounters,
    dead_letter: &mut DeadLetterQueue,
    failed_at: Timestamp,
)
    requires
        result@.result is Success ==> result.elapsed_ms * 1000 <= u64::MAX,
    ensures
        *final(counters) == counted(*old(counters), result@),
        final(dead_letter)@ == buried(old(dead_letter)@, result@, failed_at),
{
    result.count(counters);
    if result.is_given_up() {
        result.bury_at(dead_letter, failed_at);
    }
}

/// Books the end of a task now. The clock is read only where the task is given
/// up.
pub fn settle(
    result: TaskResult,
    counters: &mut MetricsCounters,
    dead_letter: &mut DeadLetterQueue,
)
    requires
        result@.result is Success ==> result.elapsed_ms * 1000 <= u64::MAX,
    ensures
        *final(counters) == counted(*old(counters), result@),
        given_up(result@) is None ==> final(dead_letter)@ == old(dead_letter)@,
        exists|failed_at: Timestamp| #[trigger]
            failed_at.clock_reading() && final(dead_letter)@ == buried(
                old(dead_letter)@,
                result@,
                failed_at,
            ),
{
    proof {
        lemma_clock_shows_a_moment();
    }
    result.count(counters);
    if result.is_given_up() {
        let failed_at = utc_now();
        result.bury_at(dead_letter, failed_at);
    }
}

} // verus!
