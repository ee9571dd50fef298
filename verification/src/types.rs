//! The values that the pool works on.

use crate::time::{
    capped_delay, last_moment, lemma_clock_shows_a_moment, utc_now, Delay, Timestamp,
    NANOS_PER_MILLI, NANOS_PER_SEC,
};
use core::cmp::Ordering;
use uuid::Uuid;
use vstd::arithmetic::power2::pow2;
use vstd::prelude::*;

verus! {

/// How urgent a task is.
#[derive(Debug, Clone, Copy, PartialEq, Eq, PartialOrd, Ord, Hash, Structural)]
pub enum Priority {
    Low,
    Normal,
    High,
    Critical,
}

impl Priority {
    /// The place of the priority among the four, from the least urgent up.
    pub open spec fn rank_spec(self) -> int {
        match self {
            Priority::Low => 0,
            Priority::Normal => 1,
            Priority::High => 2,
            Priority::Critical => 3,
        }
    }

    /// The place of the priority among the four, from the least urgent up.
    pub fn rank(&self) -> (r: u8)
        ensures
            r == self.rank_spec(),
    {
        match self {
            Priority::Low => 0,
            Priority::Normal => 1,
            Priority::High => 2,
            Priority::Critical => 3,
        }
    }
}

impl Default for Priority {
    fn default() -> (p: Priority)
        ensures
            p == Priority::Normal,
    {
        Priority::Normal
    }
}

/// Whether and when a failed task is tried again.
#[derive(Debug, Clone, Copy, PartialEq, Eq, Structural)]
pub enum RetryPolicy {
    Never,
    Immediate { max_retries: u32 },
    FixedDelay { max_retries: u32, delay_secs: u64 },
    ExponentialBackoff { max_retries: u32, base_delay_secs: u64, max_delay_secs: u64 },
}

impl Default for RetryPolicy {
    fn default() -> (p: RetryPolicy)
        ensures
            p == RetryPolicy::Never,
    {
        RetryPolicy::Never
    }
}

/// Two to the power of `attempt`, cut to what a `u64` holds.
pub open spec fn doublings(attempt: u32) -> nat {
    if attempt < 64 {
        pow2(attempt as nat)
    } else {
        u64::MAX as nat
    }
}

impl RetryPolicy {
    /// How often a task may be tried again.
    pub open spec fn retries(self) -> u32 {
        match self {
            RetryPolicy::Never => 0,
            RetryPolicy::Immediate { max_retries } => max_retries,
            RetryPolicy::FixedDelay { max_retries, .. } => max_retries,
            RetryPolicy::ExponentialBackoff { max_retries, .. } => max_retries,
        }
    }

    /// The milliseconds to wait after `attempt` earlier retries fit a `u64`
    /// before they are cut to the policy's maximum.
    pub open spec fn delay_fits(self, attempt: u32) -> bool {
        match self {
            RetryPolicy::ExponentialBackoff { base_delay_secs, .. } => base_delay_secs * 1000
                * doublings(attempt) <= u64::MAX,
            _ => true,
        }
    }

    /// The nanoseconds to wait after `attempt` earlier retries.
    pub open spec fn delay_nanos(self, attempt: u32) -> int {
        match self {
            RetryPolicy::Never => 0,
            RetryPolicy::Immediate { .. } => 0,
            RetryPolicy::FixedDelay { delay_secs, .. } => delay_secs * NANOS_PER_SEC,
            RetryPolicy::ExponentialBackoff { base_delay_secs, max_delay_secs, .. } => {
                let backoff = base_delay_secs * 1000 * doublings(attempt) * NANOS_PER_MILLI;
                let most = max_delay_secs * NANOS_PER_SEC;
                if backoff <= most {
                    backoff
                } else {
                    most
                }
            },
        }
    }

    /// How often a task may be tried again.
    pub fn max_retries(&self) -> (n: u32)
        ensures
            n == self.retries(),
    {
        match self {
            RetryPolicy::Never => 0,
            RetryPolicy::Immediate { max_retries } => *max_retries,
            RetryPolicy::FixedDelay { max_retries, .. } => *max_retries,
            RetryPolicy::ExponentialBackoff { max_retries, .. } => *max_retries,
        }
    }

    /// Can `delay_for_attempt` compute the delay after `attempt` earlier
    /// retries?
    pub fn has_delay_for(&self, attempt: u32) -> (b: bool)
        ensures
            b == self.delay_fits(attempt),
    {
        match self {
            RetryPolicy::ExponentialBackoff { base_delay_secs, .. } => {
                let exp: u64 = saturating_pow2(attempt);
                match base_delay_secs.checked_mul(1000) {
                    Some(base) => base.checked_mul(exp).is_some(),
                    None => {
                        proof {
                            lemma_doublings_positive(attempt);
                            assert(base_delay_secs * 1000 * doublings(attempt) >= base_delay_secs
                                * 1000) by (nonlinear_arith)
                                requires
                                    doublings(attempt) >= 1,
                            ;
                        }
                        false
                    },
                }
            },
            _ => true,
        }
    }

    /// How long to wait before the next try, after `attempt` earlier retries.
    pub fn delay_for_attempt(&self, attempt: u32) -> (d: Delay)
        requires
            self.delay_fits(attempt),
        ensures
            d@ == self.delay_nanos(attempt),
    {
        match self {
            RetryPolicy::Never | RetryPolicy::Immediate { .. } => Delay::zero(),
            RetryPolicy::FixedDelay { delay_secs, .. } => Delay::from_secs(*delay_secs),
            RetryPolicy::ExponentialBackoff { base_delay_secs, max_delay_secs, .. } => {
                let exp: u64 = saturating_pow2(attempt);
                proof {
                    lemma_doublings_positive(attempt);
                    assert(base_delay_secs * 1000 * doublings(attempt) >= base_delay_secs * 1000)
                        by (nonlinear_arith)
                        requires
                            doublings(attempt) >= 1,
                    ;
                }
                let delay_ms: u64 = (*base_delay_secs) * 1000 * exp;
                Delay::from_millis(delay_ms).min(Delay::from_secs(*max_delay_secs))
            },
        }
    }
}

proof fn lemma_doublings_positive(attempt: u32)
    ensures
        1 <= doublings(attempt) <= u64::MAX,
{
    if attempt < 64 {
        vstd::arithmetic::power2::lemma_pow2_pos(attempt as nat);
        vstd::bits::lemma_u64_pow2_no_overflow(attempt as nat);
    }
}

/// Two to the power of `attempt`, cut to what a `u64` holds.
fn saturating_pow2(attempt: u32) -> (p: u64)
    ensures
        p == doublings(attempt),
{
    if attempt < 64 {
        proof {
            lemma_doublings_positive(attempt);
            vstd::bits::lemma_u64_shl_is_mul(1, attempt as u64);
        }
        1u64 << attempt
    } else {
        u64::MAX
    }
}

/// How the scheduler picks a worker for a task.
#[derive(Debug, Clone, Copy, PartialEq, Eq, Structural)]
pub enum ScheduleStrategy {
    RoundRobin,
    LeastLoaded,
    Priority,
    DelayedQueue,
}

impl Default for ScheduleStrategy {
    fn default() -> (s: ScheduleStrategy)
        ensures
            s == ScheduleStrategy::RoundRobin,
    {
        ScheduleStrategy::RoundRobin
    }
}

/// A unit of work.
#[derive(Debug, PartialEq, Eq)]
pub struct Task {
    /// The bits of the task's UUID.
    pub id: u128,
    pub payload: Vec<u8>,
    pub priority: Priority,
    pub created_at: Timestamp,
    pub retry_policy: RetryPolicy,
    pub attempt: u32,
    pub execute_after: Option<Timestamp>,
}

/// What a `Task` holds.
#[verifier::ext_equal]
pub struct TaskView {
    pub id: u128,
    pub payload: Seq<u8>,
    pub priority: Priority,
    pub created_at: Timestamp,
    pub retry_policy: RetryPolicy,
    pub attempt: u32,
    pub execute_after: Option<Timestamp>,
}

impl View for Task {
    type V = TaskView;

    open spec fn view(&self) -> TaskView {
        TaskView {
            id: self.id,
            payload: self.payload@,
            priority: self.priority,
            created_at: self.created_at,
            retry_policy: self.retry_policy,
            attempt: self.attempt,
            execute_after: self.execute_after,
        }
    }
}

impl TaskView {
    /// A task as it starts out: of normal priority, never tried, not to be
    /// retried and due at once.
    pub open spec fn fresh(id: u128, created_at: Timestamp, payload: Seq<u8>) -> TaskView {
        TaskView {
            id,
            payload,
            priority: Priority::Normal,
            created_at,
            retry_policy: RetryPolicy::Never,
            attempt: 0,
            execute_after: None,
        }
    }

    /// The task may run at `now`.
    pub open spec fn due(self, now: Timestamp) -> bool {
        match self.execute_after {
            Some(t) => !now.before(t),
            None => true,
        }
    }

    /// The task comes behind `other`: it is less urgent, or as urgent and
    /// created later.
    pub open spec fn behind(self, other: TaskView) -> bool {
        ||| self.priority.rank_spec() < other.priority.rank_spec()
        ||| self.priority == other.priority && other.created_at.before(self.created_at)
    }

    /// The place of the task relative to `other`.
    pub open spec fn order(self, other: TaskView) -> Ordering {
        if self.behind(other) {
            Ordering::Less
        } else if other.behind(self) {
            Ordering::Greater
        } else {
            Ordering::Equal
        }
    }

    /// The task with its attempts forgotten.
    pub open spec fn restarted(self) -> TaskView {
        TaskView { attempt: 0, ..self }
    }
}

/// The bits that mark a random UUID: version 4, RFC variant.
pub open spec fn random_uuid_bits(id: u128) -> bool {
    (id >> 76) & 0xf == 4 && (id >> 62) & 0x3 == 2
}

/// The id was drawn at random. What can be drawn is known here alone:
/// elsewhere only `random_id` yields such an id, and none can be made up.
pub closed spec fn drawn_at_random(id: u128) -> bool {
    random_uuid_bits(id)
}

/// `uuid::Uuid::new_v4`: the bits of a new random UUID. Trusted: version and
/// variant are those of a random UUID. The other bits are left to chance;
/// nothing is said of them, nor that two calls differ.
#[verifier::external_body]
pub(crate) fn random_id() -> (id: u128)
    ensures
        random_uuid_bits(id),
        drawn_at_random(id),
{
    Uuid::new_v4().as_u128()
}

impl Task {
    /// A task with the given identity.
    pub fn with_identity(id: u128, created_at: Timestamp, payload: Vec<u8>) -> (t: Task)
        ensures
            t@ == TaskView::fresh(id, created_at, payload@),
    {
        Task {
            id,
            payload,
            priority: Priority::default(),
            created_at,
            retry_policy: RetryPolicy::default(),
            attempt: 0,
            execute_after: None,
        }
    }

    pub fn with_priority(self, priority: Priority) -> (t: Task)
        ensures
            t@ == (TaskView { priority, ..self@ }),
    {
        Task { priority, ..self }
    }

    pub fn with_retry_policy(self, policy: RetryPolicy) -> (t: Task)
        ensures
            t@ == (TaskView { retry_policy: policy, ..self@ }),
    {
        Task { retry_policy: policy, ..self }
    }

    /// The task, not due until `delay` after `now`; `None` where the calendar
    /// ends before that.
    pub fn with_delay_from(self, now: Timestamp, delay: Delay) -> (t: Option<Task>)
        requires
            now.valid(),
        ensures
            t is Some <==> now.since_epoch() + capped_delay(delay@) <= last_moment().since_epoch(),
            t matches Some(t) ==> delayed_from(self@, now, delay@, t@),
    {
        match now.after(delay) {
            Some(moment) => Some(Task { execute_after: Some(moment), ..self }),
            None => None,
        }
    }

    /// The task, not due until `delay` from now; `None` where the calendar
    /// ends before that.
    pub fn with_delay(self, delay: Delay) -> (t: Option<Task>)
        ensures
            exists|now: Timestamp| #[trigger]
                now.clock_reading() && match t {
                    Some(t) => delayed_from(self@, now, delay@, t@),
                    None => now.since_epoch() + capped_delay(delay@)
                        > last_moment().since_epoch(),
                },
    {
        let now = utc_now();
        self.with_delay_from(now, delay)
    }

    /// May the task run at `now`?
    pub fn is_ready_at(&self, now: &Timestamp) -> (b: bool)
        ensures
            b == self@.due(*now),
    {
        match self.execute_after {
            Some(t) => !now.is_before(&t),
            None => true,
        }
    }

    /// May the task run now? The clock is read only for a task with a delay.
    pub fn is_ready(&self) -> (b: bool)
        ensures
            self.execute_after is None ==> b,
            exists|now: Timestamp| #[trigger] now.clock_reading() && b == self@.due(now),
    {
        match self.execute_after {
            Some(_) => {
                let now = utc_now();
                self.is_ready_at(&now)
            },
            None => {
                proof {
                    lemma_clock_shows_a_moment();
                }
                true
            },
        }
    }

    /// Does the task come behind `other`?
    pub fn is_behind(&self, other: &Task) -> (b: bool)
        ensures
            b == self@.behind(other@),
    {
        let mine: u8 = self.priority.rank();
        let theirs: u8 = other.priority.rank();
        mine < theirs || (mine == theirs && other.created_at.is_before(&self.created_at))
    }

    /// The place of the task relative to `other`: the more urgent is the
    /// greater, and of two equally urgent ones that created earlier.
    pub fn cmp(&self, other: &Task) -> (o: Ordering)
        ensures
            o == self@.order(other@),
    {
        if self.is_behind(other) {
            Ordering::Less
        } else if other.is_behind(self) {
            Ordering::Greater
        } else {
            Ordering::Equal
        }
    }
}

impl Clone for Task {
    fn clone(&self) -> (t: Task)
        ensures
            t@ == self@,
    {
        let payload = self.payload.clone();
        assert(payload@ =~= self.payload@);
        Task {
            id: self.id,
            payload,
            priority: self.priority,
            created_at: self.created_at,
            retry_policy: self.retry_policy,
            attempt: self.attempt,
            execute_after: self.execute_after,
        }
    }
}

impl PartialOrd for Task {
    fn partial_cmp(&self, other: &Task) -> (o: Option<Ordering>) {
        Some(Task::cmp(self, other))
    }
}

impl vstd::std_specs::cmp::PartialOrdSpecImpl for Task {
    open spec fn obeys_partial_cmp_spec() -> bool {
        true
    }

    open spec fn partial_cmp_spec(&self, other: &Task) -> Option<Ordering> {
        Some(self@.order(other@))
    }
}

/// `after` is `before`, not due until `delay` nanoseconds after `now`.
pub open spec fn delayed_from(
    before: TaskView,
    now: Timestamp,
    delay: nat,
    after: TaskView,
) -> bool {
    &&& after.execute_after is Some
    &&& after == (TaskView { execute_after: after.execute_after, ..before })
    &&& after.execute_after->0.valid()
    &&& after.execute_after->0.since_epoch() == now.since_epoch() + capped_delay(delay)
}

/// What became of one run of the handler, or of a task.
#[derive(Debug)]
pub enum JobResult {
    Success(Vec<u8>),
    Failure(String),
    Panic(String),
}

/// What a `JobResult` holds.
pub enum JobResultView {
    Success(Seq<u8>),
    Failure(Seq<char>),
    Panic(Seq<char>),
}

impl View for JobResult {
    type V = JobResultView;

    open spec fn view(&self) -> JobResultView {
        match self {
            JobResult::Success(data) => JobResultView::Success(data@),
            JobResult::Failure(message) => JobResultView::Failure(message@),
            JobResult::Panic(message) => JobResultView::Panic(message@),
        }
    }
}

impl JobResult {
    pub fn is_ok(&self) -> (b: bool)
        ensures
            b == (self@ is Success),
    {
        matches!(self, JobResult::Success(_))
    }

    pub fn is_err(&self) -> (b: bool)
        ensures
            b == (self@ is Failure || self@ is Panic),
    {
        matches!(self, JobResult::Failure(_) | JobResult::Panic(_))
    }
}

impl Clone for JobResult {
    fn clone(&self) -> (r: JobResult)
        ensures
            r@ == self@,
    {
        match self {
            JobResult::Success(data) => {
                let copy = data.clone();
                assert(copy@ =~= data@);
                JobResult::Success(copy)
            },
            JobResult::Failure(message) => JobResult::Failure(message.clone()),
            JobResult::Panic(message) => JobResult::Panic(message.clone()),
        }
    }
}

/// The record of a finished task.
#[derive(Debug)]
pub struct TaskReceipt {
    pub task_id: u128,
    pub result: JobResult,
    pub attempts: u32,
    pub completed_at: Timestamp,
    pub elapsed_ms: u64,
}

/// What a `TaskReceipt` holds.
#[verifier::ext_equal]
pub struct TaskReceiptView {
    pub task_id: u128,
    pub result: JobResultView,
    pub attempts: u32,
    pub completed_at: Timestamp,
    pub elapsed_ms: u64,
}

impl View for TaskReceipt {
    type V = TaskReceiptView;

    open spec fn view(&self) -> TaskReceiptView {
        TaskReceiptView {
            task_id: self.task_id,
            result: self.result@,
            attempts: self.attempts,
            completed_at: self.completed_at,
            elapsed_ms: self.elapsed_ms,
        }
    }
}

impl Clone for TaskReceipt {
    fn clone(&self) -> (r: TaskReceipt)
        ensures
            r@ == self@,
    {
        TaskReceipt {
            task_id: self.task_id,
            result: self.result.clone(),
            attempts: self.attempts,
            completed_at: self.completed_at,
            elapsed_ms: self.elapsed_ms,
        }
    }
}

/// A task that was given up, with what it failed of.
#[derive(Debug)]
pub struct DeadLetterEntry {
    pub task: Task,
    pub last_error: String,
    pub attempts: u32,
    pub failed_at: Timestamp,
}

/// What a `DeadLetterEntry` holds.
#[verifier::ext_equal]
pub struct DeadLetterEntryView {
    pub task: TaskView,
    pub last_error: Seq<char>,
    pub attempts: u32,
    pub failed_at: Timestamp,
}

impl View for DeadLetterEntry {
    type V = DeadLetterEntryView;

    open spec fn view(&self) -> DeadLetterEntryView {
        DeadLetterEntryView {
            task: self.task@,
            last_error: self.last_error@,
            attempts: self.attempts,
            failed_at: self.failed_at,
        }
    }
}

impl Clone for DeadLetterEntry {
    fn clone(&self) -> (e: DeadLetterEntry)
        ensures
            e@ == self@,
    {
        DeadLetterEntry {
            task: self.task.clone(),
            last_error: self.last_error.clone(),
            attempts: self.attempts,
            failed_at: self.failed_at,
        }
    }
}

/// The limits and intervals of a pool.
#[derive(Debug, Clone, Copy, PartialEq, Eq, Structural)]
pub struct PoolConfig {
    pub min_workers: usize,
    pub max_workers: usize,
    pub max_queue_size: usize,
    pub scale_up_threshold: usize,
    pub idle_timeout_secs: u64,
    pub scale_check_interval_secs: u64,
    pub shutdown_timeout_secs: u64,
    pub schedule_strategy: ScheduleStrategy,
}

impl Default for PoolConfig {
    fn default() -> (c: PoolConfig)
        ensures
            c == (PoolConfig {
                min_workers: 2,
                max_workers: 16,
                max_queue_size: 10000,
                scale_up_threshold: 100,
                idle_timeout_secs: 60,
                scale_check_interval_secs: 5,
                shutdown_timeout_secs: 30,
                schedule_strategy: ScheduleStrategy::RoundRobin,
            }),
    {
        PoolConfig {
            min_workers: 2,
            max_workers: 16,
            max_queue_size: 10000,
            scale_up_threshold: 100,
            idle_timeout_secs: 60,
            scale_check_interval_secs: 5,
            shutdown_timeout_secs: 30,
            schedule_strategy: ScheduleStrategy::RoundRobin,
        }
    }
}

/// Why a task was not accepted.
#[derive(Debug, Clone, Copy, PartialEq, Eq, Structural)]
pub enum SubmitError {
    QueueFull,
    ShuttingDown,
}

impl SubmitError {
    /// The reason in words.
    pub fn message(&self) -> (s: String)
        ensures
            s@ == match self {
                SubmitError::QueueFull => "task queue is full"@,
                SubmitError::ShuttingDown => "pool is shutting down"@,
            },
    {
        match self {
            SubmitError::QueueFull => "task queue is full".to_owned(),
            SubmitError::ShuttingDown => "pool is shutting down".to_owned(),
        }
    }
}

} // verus!
