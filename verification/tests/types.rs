use chrono::{DateTime, TimeDelta, Utc};
use std::cmp::Ordering;
use task_pool::time::{MAX_TIMESTAMP_SECS, MIN_TIMESTAMP_SECS};
use task_pool::{
    DeadLetterEntry, Delay, JobResult, PoolConfig, Priority, RetryPolicy, ScheduleStrategy,
    SubmitError, Task, TaskReceipt, Timestamp,
};
use uuid::Uuid;

fn at(secs: i64) -> Timestamp {
    Timestamp { secs, nanos: 0 }
}

fn task(id: u128, priority: Priority, created: i64) -> Task {
    Task::with_identity(id, at(created), vec![1, 2, 3]).with_priority(priority)
}

#[test]
fn defaults() {
    assert_eq!(Priority::default(), Priority::Normal);
    assert_eq!(RetryPolicy::default(), RetryPolicy::Never);
    assert_eq!(ScheduleStrategy::default(), ScheduleStrategy::RoundRobin);
    let config = PoolConfig::default();
    assert_eq!(config.min_workers, 2);
    assert_eq!(config.max_workers, 16);
    assert_eq!(config.max_queue_size, 10000);
    assert_eq!(config.scale_up_threshold, 100);
    assert_eq!(config.idle_timeout_secs, 60);
    assert_eq!(config.scale_check_interval_secs, 5);
    assert_eq!(config.shutdown_timeout_secs, 30);
    assert_eq!(config.schedule_strategy, ScheduleStrategy::RoundRobin);
}

#[test]
fn priorities_are_ordered() {
    assert!(Priority::Low < Priority::Normal);
    assert!(Priority::Normal < Priority::High);
    assert!(Priority::High < Priority::Critical);
    assert_eq!(Priority::Critical.rank(), 3);
}

#[test]
fn retries_of_each_policy() {
    assert_eq!(RetryPolicy::Never.max_retries(), 0);
    assert_eq!(RetryPolicy::Immediate { max_retries: 4 }.max_retries(), 4);
    assert_eq!(RetryPolicy::FixedDelay { max_retries: 5, delay_secs: 9 }.max_retries(), 5);
    let backoff =
        RetryPolicy::ExponentialBackoff { max_retries: 6, base_delay_secs: 1, max_delay_secs: 2 };
    assert_eq!(backoff.max_retries(), 6);
}

#[test]
fn delays_of_each_policy() {
    assert!(RetryPolicy::Never.delay_for_attempt(7).is_zero());
    assert!(RetryPolicy::Immediate { max_retries: 3 }.delay_for_attempt(7).is_zero());
    let fixed = RetryPolicy::FixedDelay { max_retries: 3, delay_secs: 9 };
    assert_eq!(fixed.delay_for_attempt(0), Delay::from_secs(9));
    assert_eq!(fixed.delay_for_attempt(100), Delay::from_secs(9));
    let backoff =
        RetryPolicy::ExponentialBackoff { max_retries: 9, base_delay_secs: 3, max_delay_secs: 20 };
    assert_eq!(backoff.delay_for_attempt(0), Delay::from_secs(3));
    assert_eq!(backoff.delay_for_attempt(1), Delay::from_secs(6));
    assert_eq!(backoff.delay_for_attempt(2), Delay::from_secs(12));
    assert_eq!(backoff.delay_for_attempt(3), Delay::from_secs(20));
    assert_eq!(backoff.delay_for_attempt(4), Delay::from_secs(20));
}

#[test]
fn backoff_without_base_waits_for_nothing() {
    let backoff =
        RetryPolicy::ExponentialBackoff { max_retries: 3, base_delay_secs: 0, max_delay_secs: 5 };
    assert!(backoff.has_delay_for(u32::MAX));
    assert!(backoff.delay_for_attempt(u32::MAX).is_zero());
}

#[test]
fn backoff_that_does_not_fit() {
    let backoff =
        RetryPolicy::ExponentialBackoff { max_retries: 99, base_delay_secs: 1, max_delay_secs: 5 };
    assert!(backoff.has_delay_for(54));
    assert_eq!(backoff.delay_for_attempt(54), Delay::from_secs(5));
    assert!(!backoff.has_delay_for(55));
    assert!(!backoff.has_delay_for(64));
    let huge = RetryPolicy::ExponentialBackoff {
        max_retries: 1,
        base_delay_secs: u64::MAX,
        max_delay_secs: 5,
    };
    assert!(!huge.has_delay_for(0));
}

#[test]
fn delay_arithmetic() {
    let d = Delay::new(3, 999_999_999);
    assert_eq!(d.as_secs(), 3);
    assert_eq!(d.subsec_nanos(), 999_999_999);
    assert_eq!(d.as_millis_u64(), 3999);
    assert_eq!(Delay::from_millis(1500), Delay::new(1, 500_000_000));
    assert_eq!(Delay::from_secs(2).min(Delay::from_millis(1999)), Delay::from_millis(1999));
    assert!(Delay::from_secs(2).at_least(&Delay::from_secs(2)));
    assert!(!Delay::from_secs(1).at_least(&Delay::from_secs(2)));
    assert_eq!(Delay::from_secs(5).saturating_sub(Delay::from_secs(3)), Delay::from_secs(2));
    assert!(Delay::from_secs(3).saturating_sub(Delay::from_secs(5)).is_zero());
    assert!(Delay::zero().is_zero());
    // 2^64 seconds less one are 1000 milliseconds short of 1000 times 2^64.
    let wrapped = (u64::MAX as u128 * 1000 % (1u128 << 64)) as u64;
    assert_eq!(Delay::from_secs(u64::MAX).as_millis_u64(), wrapped);
}

#[test]
fn new_task_is_fresh() {
    let before = Utc::now();
    let t = Task::new(b"payload".to_vec());
    let after = Utc::now();
    let created = DateTime::<Utc>::from_timestamp(t.created_at.secs, t.created_at.nanos).unwrap();
    assert!(before <= created && created <= after);
    assert_eq!(t.payload, b"payload".to_vec());
    assert_eq!(t.priority, Priority::Normal);
    assert_eq!(t.retry_policy, RetryPolicy::Never);
    assert_eq!(t.attempt, 0);
    assert_eq!(t.execute_after, None);
    assert!(t.is_ready());
}

#[test]
fn new_task_has_a_random_id() {
    let a = Task::new(Vec::new());
    let b = Task::new(Vec::new());
    assert_eq!(Uuid::from_u128(a.id).get_version_num(), 4);
    assert_eq!(Uuid::from_u128(a.id).get_variant(), uuid::Variant::RFC4122);
    assert_ne!(a.id, b.id);
}

#[test]
fn builders_set_one_field_each() {
    let t = task(5, Priority::Low, 10);
    let u = t.clone().with_priority(Priority::Critical);
    assert_eq!(u.priority, Priority::Critical);
    assert_eq!(u.clone().with_priority(Priority::Low), t);
    let policy = RetryPolicy::Immediate { max_retries: 2 };
    let v = t.clone().with_retry_policy(policy);
    assert_eq!(v.retry_policy, policy);
    assert_eq!(v.with_retry_policy(RetryPolicy::Never), t);
}

#[test]
fn delay_counts_from_the_given_moment() {
    let now = Timestamp { secs: 100, nanos: 999_999_999 };
    let t = task(1, Priority::Normal, 0).with_delay_from(now, Delay::new(2, 1)).unwrap();
    assert_eq!(t.execute_after, Some(Timestamp { secs: 103, nanos: 0 }));
    assert!(!t.is_ready_at(&Timestamp { secs: 102, nanos: 999_999_999 }));
    assert!(t.is_ready_at(&Timestamp { secs: 103, nanos: 0 }));
    assert!(t.is_ready_at(&Timestamp { secs: 103, nanos: 1 }));
}

#[test]
fn delay_before_the_epoch() {
    let now = Timestamp { secs: -2, nanos: 600_000_000 };
    let t = task(1, Priority::Normal, 0).with_delay_from(now, Delay::from_millis(500)).unwrap();
    assert_eq!(t.execute_after, Some(Timestamp { secs: -1, nanos: 100_000_000 }));
}

#[test]
fn delay_up_to_the_end_of_the_calendar() {
    let t = task(1, Priority::Normal, 0);
    let last = at(MAX_TIMESTAMP_SECS);
    let t1 = t.clone().with_delay_from(last, Delay::new(0, 999_999_999)).unwrap();
    assert_eq!(
        t1.execute_after,
        Some(Timestamp { secs: MAX_TIMESTAMP_SECS, nanos: 999_999_999 })
    );
    assert!(t.clone().with_delay_from(last, Delay::from_secs(1)).is_none());
    let span = (MAX_TIMESTAMP_SECS - MIN_TIMESTAMP_SECS) as u64;
    let first = at(MIN_TIMESTAMP_SECS);
    assert!(t.clone().with_delay_from(first, Delay::from_secs(span)).is_some());
    assert!(t.clone().with_delay_from(first, Delay::from_secs(span + 1)).is_none());
    assert!(t.clone().with_delay_from(first, Delay::from_millis(i64::MAX as u64)).is_none());
    assert!(t.with_delay_from(first, Delay::from_secs(u64::MAX)).is_none());
}

#[test]
fn calendar_limits_are_those_of_the_calendar() {
    assert_eq!(DateTime::<Utc>::MAX_UTC.timestamp(), MAX_TIMESTAMP_SECS);
    assert_eq!(DateTime::<Utc>::MIN_UTC.timestamp(), MIN_TIMESTAMP_SECS);
    assert_eq!(TimeDelta::MAX.num_milliseconds(), i64::MAX);
    assert!(at(MAX_TIMESTAMP_SECS).is_valid());
    assert!(!at(MAX_TIMESTAMP_SECS + 1).is_valid());
    assert!(!Timestamp { secs: 0, nanos: 1_000_000_000 }.is_valid());
}

#[test]
fn delay_from_now() {
    let before = Utc::now();
    let t = Task::new(Vec::new()).with_delay(Delay::from_secs(3600)).unwrap();
    let after = Utc::now();
    let due = t.execute_after.unwrap();
    let due = DateTime::<Utc>::from_timestamp(due.secs, due.nanos).unwrap();
    let hour = TimeDelta::try_seconds(3600).unwrap();
    assert!(before + hour <= due && due <= after + hour);
    assert!(!t.is_ready());
    assert!(Task::new(Vec::new()).with_delay(Delay::zero()).unwrap().is_ready());
    assert!(Task::new(Vec::new()).with_delay(Delay::from_secs(u64::MAX)).is_none());
}

#[test]
fn order_of_tasks() {
    let old_low = task(1, Priority::Low, 1);
    let new_high = task(2, Priority::High, 9);
    let old_high = task(3, Priority::High, 5);
    let twin = task(4, Priority::High, 5);
    assert_eq!(old_low.cmp(&new_high), Ordering::Less);
    assert_eq!(new_high.cmp(&old_low), Ordering::Greater);
    assert_eq!(old_high.cmp(&new_high), Ordering::Greater);
    assert_eq!(old_high.cmp(&twin), Ordering::Equal);
    assert_eq!(old_high.partial_cmp(&twin), Some(Ordering::Equal));
    assert!(old_low < new_high && new_high < old_high && old_low < old_high);
    assert!(old_low.is_behind(&old_high) && !old_high.is_behind(&old_low));
    assert!(!twin.is_behind(&old_high) && !old_high.is_behind(&twin));
    let a_nano = Task::with_identity(1, Timestamp { secs: 1, nanos: 1 }, Vec::new());
    let no_nano = Task::with_identity(1, at(1), Vec::new());
    assert!(a_nano < no_nano);
}

#[test]
fn due_stays_due() {
    let mut t = task(1, Priority::Normal, 0);
    t.execute_after = Some(at(50));
    assert!(!t.is_ready_at(&at(49)));
    for secs in 50..60 {
        assert!(t.is_ready_at(&at(secs)));
    }
}

#[test]
fn job_results() {
    assert!(JobResult::Success(vec![1]).is_ok());
    assert!(!JobResult::Success(vec![1]).is_err());
    assert!(JobResult::Failure("no".to_string()).is_err());
    assert!(!JobResult::Failure("no".to_string()).is_ok());
    assert!(JobResult::Panic("oh".to_string()).is_err());
    assert!(!JobResult::Panic("oh".to_string()).is_ok());
    assert!(matches!(JobResult::Panic("oh".to_string()).clone(), JobResult::Panic(m) if m == "oh"));
}

#[test]
fn copies_hold_the_same() {
    let entry = DeadLetterEntry {
        task: task(8, Priority::High, 3),
        last_error: "broken".to_string(),
        attempts: 4,
        failed_at: at(77),
    };
    let copy = entry.clone();
    assert_eq!(copy.task, entry.task);
    assert_eq!(copy.last_error, "broken");
    assert_eq!((copy.attempts, copy.failed_at), (4, at(77)));
    let receipt = TaskReceipt {
        task_id: 8,
        result: JobResult::Success(vec![9]),
        attempts: 1,
        completed_at: at(5),
        elapsed_ms: 6,
    };
    let copy = receipt.clone();
    assert!(matches!(copy.result, JobResult::Success(d) if d == vec![9]));
    assert_eq!((copy.task_id, copy.attempts, copy.elapsed_ms), (8, 1, 6));
    assert_eq!(copy.completed_at, at(5));
}

#[test]
fn submit_errors_in_words() {
    assert_eq!(SubmitError::QueueFull.message(), "task queue is full");
    assert_eq!(SubmitError::ShuttingDown.message(), "pool is shutting down");
}
