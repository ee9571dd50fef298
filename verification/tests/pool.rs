use task_pool::channel::Offer;
use task_pool::pool::{
    offer_answer, scale_decision, send_answer, NewWorker, ScaleDecision, ScaleStep, ShutdownStep,
    SubmitStep,
};
use task_pool::scheduler::{DispatchStep, WorkerSlot};
use task_pool::worker::{run_handler, settle, settle_at, Execution, ExecutionStep, HandlerOutcome, TaskResult};
use task_pool::{
    DeadLetterQueue, Delay, JobResult, Metrics, MetricsCounters, MetricsSnapshot, Pool, PoolConfig,
    PoolSubmitter, Priority, RetryPolicy, ScheduleStrategy, Scheduler, SubmitError, Task,
    Timestamp,
};
use tokio::sync::mpsc::error::TryRecvError;
use tokio::sync::mpsc::{channel, Receiver};

fn at(secs: i64) -> Timestamp {
    Timestamp { secs, nanos: 0 }
}

fn secs(n: u64) -> Delay {
    Delay::from_secs(n)
}

fn task(id: u128) -> Task {
    Task::with_identity(id, at(id as i64), vec![id as u8])
}

fn echo(payload: Vec<u8>) -> HandlerOutcome {
    HandlerOutcome::Returned(Ok(payload))
}

fn panics(_payload: Vec<u8>) -> HandlerOutcome {
    HandlerOutcome::Panicked(Some("intentional".to_string()))
}

/// A started pool, with its workers at hand.
struct Run {
    pool: Pool,
    task_rx: Receiver<Task>,
    workers: Vec<Receiver<Task>>,
    runs: usize,
}

impl Run {
    fn begin(config: PoolConfig) -> (Run, PoolSubmitter) {
        let mut pool = Pool::new(config, Delay::zero());
        let submitter = pool.submitter();
        let startup = pool.start();
        let mut run =
            Run { pool, task_rx: startup.task_rx, workers: Vec::new(), runs: 0 };
        run.spawn(startup.workers);
        (run, submitter)
    }

    fn spawn(&mut self, workers: Vec<NewWorker>) {
        for worker in workers {
            self.pool.add_worker(worker.slot);
            self.pool.worker_started();
            self.workers.push(worker.rx);
        }
    }

    /// Dispatches all submitted tasks.
    fn dispatch(&mut self) {
        while let Ok(task) = self.task_rx.try_recv() {
            let step = self.pool.dispatch(task);
            self.send_all(step);
        }
    }

    /// Empties the queues without a new task.
    fn flush(&mut self) {
        let step = self.pool.flush_queues();
        self.send_all(step);
    }

    fn send_all(&mut self, first: DispatchStep) {
        let mut step = first;
        while let DispatchStep::Send { worker, task } = step {
            let tx = self.pool.scheduler().worker_tx(worker).clone();
            step = self.pool.after_send(tx.try_send(task).is_ok());
        }
    }

    /// Lets the workers run all tasks they have, and stop where their channels
    /// are closed.
    fn work(&mut self, handler: fn(Vec<u8>) -> HandlerOutcome, now: Delay) {
        let mut open = Vec::new();
        for mut rx in std::mem::take(&mut self.workers) {
            loop {
                match rx.try_recv() {
                    Ok(task) => {
                        let result = self.execute(task, handler);
                        self.pool.task_finished(result, now);
                    }
                    Err(TryRecvError::Empty) => {
                        open.push(rx);
                        break;
                    }
                    Err(TryRecvError::Disconnected) => {
                        self.pool.worker_stopped();
                        break;
                    }
                }
            }
        }
        self.workers = open;
    }

    fn execute(&mut self, task: Task, handler: fn(Vec<u8>) -> HandlerOutcome) -> TaskResult {
        let mut execution = Execution::new(task);
        loop {
            let payload = execution.begin_attempt();
            self.runs += 1;
            let result = run_handler(handler(payload));
            assert!(execution.can_go_on(&result));
            match execution.after_run(result, Delay::from_millis(2)) {
                ExecutionStep::Retry { execution: again, .. } => execution = again,
                ExecutionStep::Finished(result) => return result,
            }
        }
    }

    fn snapshot(&self) -> MetricsSnapshot {
        self.pool.metrics().snapshot()
    }
}

fn submit(submitter: &PoolSubmitter, task: Task) {
    assert_eq!(submitter.try_submit(task, false), Ok(()));
}

fn config(strategy: ScheduleStrategy) -> PoolConfig {
    PoolConfig {
        min_workers: 2,
        max_workers: 4,
        max_queue_size: 1000,
        scale_up_threshold: 50,
        idle_timeout_secs: 60,
        scale_check_interval_secs: 1,
        shutdown_timeout_secs: 5,
        schedule_strategy: strategy,
    }
}

#[test]
fn test_r1_bug1_pending_decrements() {
    let (mut run, submitter) = Run::begin(config(ScheduleStrategy::RoundRobin));
    for i in 0..20u32 {
        submit(&submitter, Task::new(format!("t{}", i).into_bytes()));
    }
    run.dispatch();
    assert_eq!(run.snapshot().pending, 20);
    run.work(echo, secs(1));
    let snap = run.snapshot();
    assert_eq!(snap.total_submitted, 20, "all 20 submitted");
    assert_eq!(snap.total_completed, 20, "all 20 completed");
    assert_eq!(snap.pending, 0);
    run.pool.shutdown();
}

#[test]
fn test_r1_bug2_scale_down_actual_removes_multiple() {
    let (mut run, submitter) = Run::begin(PoolConfig {
        min_workers: 2,
        max_workers: 8,
        max_queue_size: 10000,
        scale_up_threshold: 5,
        idle_timeout_secs: 1,
        scale_check_interval_secs: 1,
        shutdown_timeout_secs: 30,
        schedule_strategy: ScheduleStrategy::Priority,
    });
    for i in 0..100u32 {
        submit(&submitter, Task::new(format!("t{}", i).into_bytes()));
    }
    run.dispatch();
    assert!(run.pool.can_scale());
    match run.pool.scale_check(secs(1)) {
        ScaleStep::Spawn(workers) => {
            let ids: Vec<usize> = workers.iter().map(|w| w.slot.id).collect();
            assert_eq!(ids, vec![2, 3, 4, 5, 6, 7]);
            run.spawn(workers);
        }
        _ => panic!("the pool should grow"),
    }
    assert!(run.snapshot().active_workers > 2);
    run.work(echo, secs(3));
    assert_eq!(run.snapshot().total_completed, 100);
    assert!(matches!(run.pool.scale_check(Delay::new(3, 999_999_999)), ScaleStep::Hold));
    match run.pool.scale_check(secs(4)) {
        ScaleStep::Removed(ids) => assert_eq!(ids, vec![7, 6, 5, 4, 3, 2]),
        _ => panic!("the pool should shrink"),
    }
    run.work(echo, secs(4));
    assert_eq!(run.snapshot().active_workers, 2);
    assert_eq!(run.pool.scheduler().worker_ids(), vec![0, 1]);
    run.pool.shutdown();
}

#[test]
fn test_r1_bug3_shutdown_closes_channels() {
    let (mut run, submitter) = Run::begin(PoolConfig {
        shutdown_timeout_secs: 3,
        ..config(ScheduleStrategy::RoundRobin)
    });
    for i in 0..5u32 {
        submit(&submitter, Task::new(format!("t{}", i).into_bytes()));
    }
    run.dispatch();
    run.pool.shutdown();
    assert!(matches!(run.pool.shutdown_progress(Delay::zero()), ShutdownStep::Wait(_)));
    run.work(echo, secs(1));
    let snap = run.snapshot();
    assert_eq!(snap.active_workers, 0);
    assert_eq!(snap.total_completed, 5);
    assert_eq!(snap.pending, 0);
    assert_eq!(run.pool.shutdown_progress(Delay::from_millis(100)), ShutdownStep::Complete);
}

#[test]
fn test_r1_bug4_idle_timeout_used() {
    let (mut run, submitter) = Run::begin(PoolConfig {
        min_workers: 1,
        scale_up_threshold: 100,
        idle_timeout_secs: 3,
        ..config(ScheduleStrategy::RoundRobin)
    });
    submit(&submitter, Task::new(b"trigger".to_vec()));
    run.dispatch();
    run.work(echo, Delay::from_millis(100));
    assert_eq!(run.snapshot().active_workers, 1);
    assert!(matches!(run.pool.scale_check(secs(1)), ScaleStep::Hold));
    assert!(matches!(run.pool.scale_check(secs(2)), ScaleStep::Hold));
    assert_eq!(run.snapshot().active_workers, 1);
    run.pool.shutdown();
}

#[test]
fn test_r2_regression_a_panic_no_retry() {
    let (mut run, submitter) = Run::begin(PoolConfig {
        min_workers: 1,
        max_workers: 1,
        max_queue_size: 100,
        scale_up_threshold: 1000,
        scale_check_interval_secs: 5,
        ..config(ScheduleStrategy::RoundRobin)
    });
    submit(
        &submitter,
        Task::new(b"panic-me".to_vec())
            .with_retry_policy(RetryPolicy::Immediate { max_retries: 3 }),
    );
    run.dispatch();
    run.work(panics, secs(1));
    // With three retries the task is tried four times in all.
    assert_eq!(run.runs, 4);
    let snap = run.snapshot();
    assert_eq!(snap.total_failed, 1);
    assert_eq!(snap.total_panicked, 0);
    assert_eq!(snap.dead_letter_count, 1);
    let entries = run.pool.dead_letter().list();
    assert_eq!(entries[0].attempts, 4);
    assert_eq!(entries[0].last_error, "intentional");
    run.pool.shutdown();
}

#[test]
fn test_r2_regression_b_delayed_queue_only_progresses_on_submit() {
    let (mut run, submitter) = Run::begin(PoolConfig {
        min_workers: 1,
        max_workers: 1,
        max_queue_size: 100,
        scale_up_threshold: 1000,
        scale_check_interval_secs: 5,
        ..config(ScheduleStrategy::DelayedQueue)
    });
    let delayed = Task::new(b"delayed".to_vec()).with_delay(secs(1)).unwrap();
    let probe = delayed.clone();
    submit(&submitter, delayed);
    run.dispatch();
    run.work(echo, secs(0));
    assert_eq!(run.snapshot().total_completed, 0);
    assert_eq!(run.snapshot().pending, 2);
    while !probe.is_ready() {}
    assert!(run.pool.can_flush());
    run.flush();
    run.work(echo, secs(2));
    assert_eq!(run.snapshot().total_completed, 1);
    assert_eq!(run.snapshot().pending, 0);
    submit(&submitter, Task::new(b"trigger".to_vec()));
    run.dispatch();
    run.work(echo, secs(2));
    assert!(run.snapshot().total_completed >= 1);
    assert_eq!(run.snapshot().total_completed, 2);
    assert_eq!(run.snapshot().pending, 0);
    run.pool.shutdown();
}

#[test]
fn new_pool_is_idle() {
    let mut pool = Pool::new(config(ScheduleStrategy::LeastLoaded), secs(7));
    assert!(!pool.shutting_down());
    assert_eq!(pool.config(), config(ScheduleStrategy::LeastLoaded));
    assert!(!pool.scheduler().has_workers());
    assert!(pool.dead_letter().is_empty());
    let snap = pool.metrics().snapshot();
    assert_eq!(snap.total_submitted, 0);
    assert_eq!(snap.active_workers, 0);
    assert_eq!(snap.avg_elapsed_us, None);
}

#[test]
fn channels_have_their_sizes() {
    let mut pool = Pool::new(config(ScheduleStrategy::RoundRobin), Delay::zero());
    let submitter = pool.submitter();
    assert_eq!(submitter.task_tx.max_capacity(), 1000);
    assert!(pool.can_start());
    let startup = pool.start();
    assert!(!pool.can_start());
    assert_eq!(startup.task_rx.max_capacity(), 1000);
    assert_eq!(startup.workers.len(), 2);
    for (i, worker) in startup.workers.iter().enumerate() {
        assert_eq!(worker.slot.id, i);
        assert_eq!(worker.slot.tx.max_capacity(), 256);
    }
}

#[test]
fn ends_of_a_new_worker_are_one_channel() {
    let mut pool = Pool::new(config(ScheduleStrategy::RoundRobin), Delay::zero());
    let mut startup = pool.start();
    startup.workers[0].slot.tx.try_send(task(1)).unwrap();
    assert_eq!(startup.workers[0].rx.try_recv().unwrap().id, 1);
    assert!(startup.workers[1].rx.try_recv().is_err());
}

#[test]
fn submitters_reach_the_pool() {
    let mut pool = Pool::new(config(ScheduleStrategy::RoundRobin), Delay::zero());
    let first = pool.submitter();
    let second = first.clone();
    let mut startup = pool.start();
    submit(&first, task(1));
    submit(&second, task(2));
    assert_eq!(startup.task_rx.try_recv(), Ok(task(1)));
    assert_eq!(startup.task_rx.try_recv(), Ok(task(2)));
}

#[test]
fn full_pool_refuses() {
    let pool = Pool::new(
        PoolConfig { max_queue_size: 2, ..config(ScheduleStrategy::RoundRobin) },
        Delay::zero(),
    );
    let submitter = pool.submitter();
    assert_eq!(submitter.try_submit(task(1), false), Ok(()));
    assert_eq!(submitter.try_submit(task(2), false), Ok(()));
    assert_eq!(submitter.try_submit(task(3), false), Err(SubmitError::QueueFull));
    assert_eq!(submitter.try_submit(task(3), true), Err(SubmitError::ShuttingDown));
}

#[test]
fn pool_that_is_gone_refuses() {
    let pool = Pool::new(config(ScheduleStrategy::RoundRobin), Delay::zero());
    let submitter = pool.submitter();
    drop(pool);
    assert_eq!(submitter.try_submit(task(1), false), Err(SubmitError::ShuttingDown));
}

#[test]
fn submit_refuses_only_while_shutting_down() {
    let pool = Pool::new(config(ScheduleStrategy::RoundRobin), Delay::zero());
    let submitter = pool.submitter();
    assert!(matches!(submitter.submit(task(1), false), SubmitStep::Send(t) if t == task(1)));
    assert!(matches!(
        submitter.submit(task(1), true),
        SubmitStep::Refused(SubmitError::ShuttingDown)
    ));
    assert_eq!(send_answer(true), Ok(()));
    assert_eq!(send_answer(false), Err(SubmitError::ShuttingDown));
    assert_eq!(offer_answer(Offer::Sent), Ok(()));
    assert_eq!(offer_answer(Offer::Full), Err(SubmitError::QueueFull));
    assert_eq!(offer_answer(Offer::Closed), Err(SubmitError::ShuttingDown));
}

#[test]
fn scaling_by_the_rule() {
    let c = PoolConfig {
        min_workers: 2,
        max_workers: 8,
        scale_up_threshold: 50,
        idle_timeout_secs: 5,
        ..PoolConfig::default()
    };
    let idle = secs(5);
    assert_eq!(scale_decision(&c, 50, 2, &idle), ScaleDecision::Hold);
    assert_eq!(scale_decision(&c, 51, 2, &idle), ScaleDecision::Up(1));
    assert_eq!(scale_decision(&c, 249, 2, &idle), ScaleDecision::Up(2));
    assert_eq!(scale_decision(&c, 250, 2, &idle), ScaleDecision::Up(3));
    assert_eq!(scale_decision(&c, 100_000, 2, &idle), ScaleDecision::Up(6));
    assert_eq!(scale_decision(&c, 100_000, 8, &idle), ScaleDecision::Hold);
    assert_eq!(scale_decision(&c, 0, 8, &idle), ScaleDecision::Down(6));
    assert_eq!(scale_decision(&c, 0, 8, &Delay::new(4, 999_999_999)), ScaleDecision::Hold);
    assert_eq!(scale_decision(&c, 1, 8, &idle), ScaleDecision::Hold);
    assert_eq!(scale_decision(&c, 0, 2, &idle), ScaleDecision::Hold);
}

#[test]
fn pool_without_a_threshold_cannot_grow() {
    let (mut run, submitter) = Run::begin(PoolConfig {
        scale_up_threshold: 0,
        ..config(ScheduleStrategy::RoundRobin)
    });
    assert!(run.pool.can_scale());
    submit(&submitter, task(1));
    run.dispatch();
    assert!(!run.pool.can_scale());
    run.pool.request_shutdown();
    assert!(run.pool.can_scale());
    assert!(matches!(run.pool.scale_check(secs(1)), ScaleStep::Stop));
}

#[test]
fn shutdown_request_keeps_the_workers() {
    let (mut run, _submitter) = Run::begin(config(ScheduleStrategy::RoundRobin));
    run.pool.request_shutdown();
    assert!(run.pool.shutting_down());
    assert_eq!(run.pool.scheduler().worker_count(), 2);
    assert!(run.pool.is_open());
    run.pool.shutdown();
    assert!(!run.pool.is_open());
    assert_eq!(run.pool.scheduler().worker_count(), 0);
}

#[test]
fn shutdown_lets_go_of_tasks_that_wait() {
    let (mut run, submitter) = Run::begin(config(ScheduleStrategy::DelayedQueue));
    submit(&submitter, Task::new(Vec::new()).with_delay(secs(3600)).unwrap());
    run.dispatch();
    assert_eq!(run.snapshot().pending, 2);
    run.pool.shutdown();
    assert_eq!(run.snapshot().pending, 1);
    assert!(matches!(run.pool.dispatch(task(1)), DispatchStep::Finished(true)));
}

#[test]
fn shutdown_waits_until_the_timeout() {
    let (mut run, _submitter) = Run::begin(config(ScheduleStrategy::RoundRobin));
    run.pool.shutdown();
    assert_eq!(
        run.pool.shutdown_progress(Delay::new(4, 999_999_999)),
        ShutdownStep::Wait(Delay::from_millis(100))
    );
    assert_eq!(run.pool.shutdown_progress(secs(5)), ShutdownStep::TimedOut(2));
    run.pool.worker_stopped();
    assert_eq!(run.pool.shutdown_progress(secs(5)), ShutdownStep::TimedOut(1));
    run.pool.worker_stopped();
    assert_eq!(run.pool.shutdown_progress(secs(5)), ShutdownStep::Complete);
}

#[test]
fn pending_balances_in_any_order() {
    let (mut run, submitter) = Run::begin(config(ScheduleStrategy::Priority));
    for round in 0..5u128 {
        for i in 0..=round {
            submit(&submitter, task(i).with_priority(Priority::High));
        }
        run.dispatch();
        assert_eq!(run.snapshot().pending, round as usize + 1);
        run.work(echo, secs(1));
        assert_eq!(run.snapshot().pending, 0);
    }
    assert_eq!(run.snapshot().total_submitted, 15);
}

#[test]
fn workers_added_by_hand() {
    let mut pool = Pool::new(config(ScheduleStrategy::RoundRobin), Delay::zero());
    let (tx, mut rx) = channel(3);
    pool.add_worker(WorkerSlot { id: 9, tx });
    match pool.dispatch(task(4)) {
        DispatchStep::Send { worker, task } => {
            assert_eq!(worker, 0);
            pool.scheduler().worker_tx(worker).try_send(task).unwrap();
        }
        DispatchStep::Finished(_) => panic!("there is a worker"),
    }
    assert!(matches!(pool.after_send(true), DispatchStep::Finished(true)));
    assert_eq!(rx.try_recv(), Ok(task(4)));
    assert_eq!(pool.scheduler().total_pending(), 1);
}

#[test]
fn finished_task_at_a_given_time() {
    let mut pool = Pool::new(config(ScheduleStrategy::RoundRobin), Delay::zero());
    pool.task_finished_at(
        TaskResult {
            task_id: 1,
            result: JobResult::Failure("broken".to_string()),
            attempts: 1,
            max_attempts: 0,
            elapsed_ms: 1,
            original_task: task(1),
        },
        secs(2),
        at(55),
    );
    let entries = pool.dead_letter().list();
    assert_eq!(entries.len(), 1);
    assert_eq!(entries[0].failed_at, at(55));
    assert_eq!(entries[0].task, task(1));
    assert_eq!(pool.dead_letter().requeue_by_id(1), Some(task(1)));
    assert!(pool.dead_letter().is_empty());
}

#[test]
fn outcomes_of_the_handler() {
    assert!(matches!(run_handler(echo(vec![1])), JobResult::Success(d) if d == vec![1]));
    assert!(matches!(
        run_handler(HandlerOutcome::Returned(Err("no".to_string()))),
        JobResult::Failure(m) if m == "no"
    ));
    assert!(matches!(run_handler(panics(Vec::new())), JobResult::Panic(m) if m == "intentional"));
    assert!(matches!(
        run_handler(HandlerOutcome::Panicked(None)),
        JobResult::Panic(m) if m == "unknown panic"
    ));
}

#[test]
fn success_ends_the_execution() {
    let t = task(3).with_retry_policy(RetryPolicy::Immediate { max_retries: 5 });
    let mut e = Execution::new(t.clone());
    assert_eq!(e.attempt(), 0);
    assert_eq!(e.begin_attempt(), vec![3]);
    assert_eq!(e.attempt(), 1);
    match e.after_run(JobResult::Success(vec![9]), Delay::new(1, 234_999_999)) {
        ExecutionStep::Finished(r) => {
            assert_eq!((r.task_id, r.attempts, r.max_attempts, r.elapsed_ms), (3, 1, 5, 1234));
            assert!(matches!(r.result, JobResult::Success(d) if d == vec![9]));
            assert_eq!(r.original_task, t);
        }
        ExecutionStep::Retry { .. } => panic!("a success is not tried again"),
    }
}

#[test]
fn retries_wait_for_their_delays() {
    let policy =
        RetryPolicy::ExponentialBackoff { max_retries: 4, base_delay_secs: 2, max_delay_secs: 7 };
    let mut e = Execution::new(task(1).with_retry_policy(policy));
    let mut delays = Vec::new();
    loop {
        e.begin_attempt();
        let result = JobResult::Failure("no".to_string());
        assert!(e.can_go_on(&result));
        match e.after_run(result, Delay::zero()) {
            ExecutionStep::Retry { execution, delay } => {
                delays.push(delay);
                e = execution;
            }
            ExecutionStep::Finished(r) => {
                assert_eq!((r.attempts, r.max_attempts), (5, 4));
                break;
            }
        }
    }
    assert_eq!(delays, vec![secs(2), secs(4), secs(7), secs(7)]);
}

#[test]
fn earlier_attempts_count() {
    let mut t = task(1).with_retry_policy(RetryPolicy::Immediate { max_retries: 3 });
    t.attempt = 2;
    let mut e = Execution::new(t);
    e.begin_attempt();
    match e.after_run(JobResult::Panic("a".to_string()), Delay::zero()) {
        ExecutionStep::Retry { execution, delay } => {
            assert!(delay.is_zero());
            e = execution;
        }
        ExecutionStep::Finished(_) => panic!("one retry is left"),
    }
    e.begin_attempt();
    match e.after_run(JobResult::Panic("b".to_string()), Delay::zero()) {
        ExecutionStep::Finished(r) => {
            assert_eq!(r.attempts, 4);
            assert!(matches!(r.result, JobResult::Failure(m) if m == "b"));
        }
        ExecutionStep::Retry { .. } => panic!("no retry is left"),
    }
}

#[test]
fn execution_whose_delay_does_not_fit() {
    let policy = RetryPolicy::ExponentialBackoff {
        max_retries: 4,
        base_delay_secs: u64::MAX,
        max_delay_secs: 7,
    };
    let mut e = Execution::new(task(1).with_retry_policy(policy));
    e.begin_attempt();
    assert!(!e.can_go_on(&JobResult::Failure("no".to_string())));
    assert!(e.can_go_on(&JobResult::Success(Vec::new())));
}

fn ended(result: JobResult, attempts: u32) -> TaskResult {
    TaskResult {
        task_id: 1,
        result,
        attempts,
        max_attempts: 2,
        elapsed_ms: 3,
        original_task: task(1),
    }
}

#[test]
fn ends_are_booked() {
    let mut counters = MetricsCounters::default();
    let mut dead = DeadLetterQueue::new(10);
    settle_at(ended(JobResult::Success(Vec::new()), 1), &mut counters, &mut dead, at(1));
    settle_at(ended(JobResult::Failure("a".to_string()), 2), &mut counters, &mut dead, at(2));
    settle_at(ended(JobResult::Failure("b".to_string()), 3), &mut counters, &mut dead, at(3));
    settle_at(ended(JobResult::Panic("d".to_string()), 2), &mut counters, &mut dead, at(4));
    settle(ended(JobResult::Panic("c".to_string()), 3), &mut counters, &mut dead);
    assert_eq!(
        counters,
        MetricsCounters {
            total_submitted: 0,
            total_completed: 1,
            total_failed: 2,
            total_panicked: 2,
            total_elapsed_us: 3000,
        }
    );
    let entries = dead.list();
    assert_eq!(entries.len(), 2);
    assert_eq!((entries[0].last_error.as_str(), entries[0].attempts), ("b", 3));
    assert_eq!(entries[0].failed_at, at(3));
    assert_eq!((entries[1].last_error.as_str(), entries[1].attempts), ("c", 3));
    assert!(entries[1].failed_at.secs > 1_500_000_000);
}

#[test]
fn counters_start_over() {
    let mut counters = MetricsCounters {
        total_submitted: u64::MAX,
        total_completed: u64::MAX,
        total_failed: u64::MAX,
        total_panicked: u64::MAX,
        total_elapsed_us: u64::MAX,
    };
    counters.count_submitted();
    counters.count_completed(5);
    counters.count_failed();
    counters.count_panicked();
    assert_eq!(counters, MetricsCounters { total_elapsed_us: 4, ..MetricsCounters::default() });
}

#[test]
fn snapshot_of_the_parts() {
    let mut counters = MetricsCounters::default();
    counters.count_submitted();
    counters.count_submitted();
    counters.count_completed(1500);
    counters.count_completed(500);
    counters.count_failed();
    counters.count_panicked();
    let mut scheduler = Scheduler::new(ScheduleStrategy::Priority, 7);
    scheduler.enqueue(task(1));
    let mut dead = DeadLetterQueue::new(4);
    dead.push(task(2), "e".to_string(), 1);
    let snap = Metrics::new(&counters, &scheduler, 3, &dead).snapshot();
    assert_eq!(
        snap,
        MetricsSnapshot {
            total_submitted: 2,
            total_completed: 2,
            total_failed: 1,
            total_panicked: 1,
            pending: 8,
            active_workers: 3,
            dead_letter_count: 1,
            avg_elapsed_us: Some((2000, 2)),
        }
    );
}

#[test]
fn flush_without_reason() {
    let (mut run, submitter) = Run::begin(config(ScheduleStrategy::DelayedQueue));
    assert!(!run.pool.can_flush());
    assert!(matches!(run.pool.flush_queues(), DispatchStep::Finished(true)));
    submit(&submitter, Task::new(Vec::new()).with_delay(secs(3600)).unwrap());
    run.dispatch();
    assert!(run.pool.can_flush());
    assert!(matches!(run.pool.flush_queues(), DispatchStep::Finished(true)));
    assert_eq!(run.pool.scheduler().queued_count(), 1);
    run.pool.shutdown();
    assert!(!run.pool.can_flush());
}

#[test]
fn due_tasks_leave_in_order_and_others_stay() {
    let (mut run, submitter) = Run::begin(PoolConfig {
        min_workers: 1,
        ..config(ScheduleStrategy::DelayedQueue)
    });
    let mut last = Task::new(Vec::new());
    for (i, priority) in [Priority::Low, Priority::Critical, Priority::High].iter().enumerate() {
        last = Task::new(vec![i as u8])
            .with_priority(*priority)
            .with_delay(Delay::from_millis(200))
            .unwrap();
        submit(&submitter, last.clone());
    }
    submit(&submitter, Task::new(vec![9]).with_delay(secs(3600)).unwrap());
    run.dispatch();
    assert_eq!(run.pool.scheduler().queued_count(), 4);
    while !last.is_ready() {}
    run.flush();
    assert_eq!(run.pool.scheduler().queued_count(), 1);
    assert_eq!(run.pool.scheduler().total_pending(), 4);
    assert_eq!(run.pool.scheduler().worker_ids(), vec![0]);
    let mut payloads = Vec::new();
    while let Ok(task) = run.workers[0].try_recv() {
        payloads.push(task.payload[0]);
    }
    assert_eq!(payloads, vec![1, 2, 0]);
}

#[test]
fn worker_ids_are_never_used_again() {
    let (mut run, submitter) = Run::begin(PoolConfig {
        scale_up_threshold: 5,
        idle_timeout_secs: 1,
        ..config(ScheduleStrategy::RoundRobin)
    });
    let mut expected: Vec<usize> = vec![2, 3];
    for round in 0..3u64 {
        for i in 0..40u128 {
            submit(&submitter, task(i));
        }
        run.dispatch();
        match run.pool.scale_check(secs(10 * round)) {
            ScaleStep::Spawn(workers) => {
                let ids: Vec<usize> = workers.iter().map(|w| w.slot.id).collect();
                assert_eq!(ids, expected);
                run.spawn(workers);
            }
            _ => panic!("the pool should grow"),
        }
        run.work(echo, secs(10 * round + 1));
        match run.pool.scale_check(secs(10 * round + 2)) {
            ScaleStep::Removed(ids) => {
                assert_eq!(ids, vec![expected[1], expected[0]]);
            }
            _ => panic!("the pool should shrink"),
        }
        run.work(echo, secs(10 * round + 2));
        assert_eq!(run.pool.scheduler().worker_ids(), vec![0, 1]);
        expected = expected.iter().map(|id| id + 2).collect();
    }
}

#[test]
fn refused_tasks_count_as_submitted() {
    let (mut run, submitter) = Run::begin(PoolConfig {
        min_workers: 0,
        ..config(ScheduleStrategy::RoundRobin)
    });
    for i in 0..7u128 {
        submit(&submitter, task(i));
    }
    run.dispatch();
    let snap = run.snapshot();
    assert_eq!(snap.total_submitted, 7);
    assert_eq!(snap.pending, 0);
    assert_eq!(snap.total_completed, 0);
}

#[test]
fn round_robin_from_a_new_pool() {
    let (mut run, submitter) = Run::begin(PoolConfig {
        min_workers: 3,
        ..config(ScheduleStrategy::RoundRobin)
    });
    for i in 0..8u128 {
        submit(&submitter, task(i));
    }
    run.dispatch();
    for (w, rx) in run.workers.iter_mut().enumerate() {
        let mut ids = Vec::new();
        while let Ok(task) = rx.try_recv() {
            ids.push(task.id as usize);
        }
        let expected: Vec<usize> = (0..8).filter(|k| k % 3 == w).collect();
        assert_eq!(ids, expected);
    }
}

#[test]
fn handles_until_shutdown() {
    let (mut run, first) = Run::begin(config(ScheduleStrategy::RoundRobin));
    let second = run.pool.submitter();
    assert!(first.task_tx.same_channel(&second.task_tx));
    assert_eq!(second.task_tx.max_capacity(), 1000);
    run.pool.request_shutdown();
    assert!(run.pool.is_open());
    assert!(run.pool.submitter().task_tx.same_channel(&first.task_tx));
    run.pool.shutdown();
    assert!(!run.pool.is_open());
}

#[test]
fn active_workers_are_those_started_less_those_stopped() {
    let (mut run, submitter) = Run::begin(config(ScheduleStrategy::RoundRobin));
    assert_eq!(run.snapshot().active_workers, 2);
    run.pool.worker_started();
    run.pool.worker_started();
    run.pool.worker_stopped();
    assert_eq!(run.snapshot().active_workers, 3);
    submit(&submitter, task(1));
    run.dispatch();
    run.work(panics, secs(1));
    run.pool.request_shutdown();
    assert_eq!(run.snapshot().active_workers, 3);
    run.pool.shutdown();
    assert_eq!(run.snapshot().active_workers, 3);
    run.work(echo, secs(1));
    assert_eq!(run.snapshot().active_workers, 1);
}

#[test]
fn given_up_only_when_retries_are_used_up() {
    assert!(!ended(JobResult::Success(Vec::new()), 3).is_given_up());
    assert!(!ended(JobResult::Failure("a".to_string()), 2).is_given_up());
    assert!(ended(JobResult::Failure("a".to_string()), 3).is_given_up());
    assert!(!ended(JobResult::Panic("a".to_string()), 2).is_given_up());
    assert!(ended(JobResult::Panic("a".to_string()), 3).is_given_up());
}
