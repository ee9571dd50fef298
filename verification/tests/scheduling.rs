use task_pool::scheduler::{pick_least_loaded, pick_with_room, DispatchStep};
use task_pool::{Delay, Priority, ScheduleStrategy, Scheduler, Task, Timestamp};
use tokio::sync::mpsc::{channel, Receiver};

fn at(secs: i64) -> Timestamp {
    Timestamp { secs, nanos: 0 }
}

fn task(id: u128, priority: Priority, created: i64) -> Task {
    Task::with_identity(id, at(created), Vec::new()).with_priority(priority)
}

fn normal(id: u128) -> Task {
    task(id, Priority::Normal, id as i64)
}

/// A scheduler with a worker for each size, whose channel holds that many.
fn with_workers(strategy: ScheduleStrategy, sizes: &[usize]) -> (Scheduler, Vec<Receiver<Task>>) {
    let mut s = Scheduler::new(strategy, 0);
    let mut rxs = Vec::new();
    for (id, size) in sizes.iter().enumerate() {
        let (tx, rx) = channel(*size);
        s.add_worker(id, tx);
        rxs.push(rx);
    }
    (s, rxs)
}

/// Performs a dispatch to its end; the worker and the task of each send.
fn run(s: &mut Scheduler, first: DispatchStep) -> (Vec<(usize, u128)>, bool) {
    let mut sends = Vec::new();
    let mut step = first;
    loop {
        match step {
            DispatchStep::Finished(accepted) => return (sends, accepted),
            DispatchStep::Send { worker, task } => {
                sends.push((worker, task.id));
                let delivered = s.worker_tx(worker).try_send(task).is_ok();
                step = s.after_send(delivered);
            }
        }
    }
}

fn dispatch(s: &mut Scheduler, task: Task) -> (Vec<(usize, u128)>, bool) {
    let step = s.dispatch(task);
    run(s, step)
}

#[test]
fn workers_come_and_go() {
    let (mut s, _rxs) = with_workers(ScheduleStrategy::RoundRobin, &[4, 4, 4]);
    assert_eq!(s.worker_count(), 3);
    assert!(s.has_workers());
    assert_eq!(s.worker_ids(), vec![0, 1, 2]);
    s.remove_worker(1);
    assert_eq!(s.worker_ids(), vec![0, 2]);
    s.remove_worker(9);
    assert_eq!(s.worker_ids(), vec![0, 2]);
    s.remove_worker(0);
    s.remove_worker(2);
    assert!(!s.has_workers());
}

#[test]
fn removing_takes_every_worker_of_that_id() {
    let mut s = Scheduler::new(ScheduleStrategy::RoundRobin, 0);
    for id in [5usize, 6, 5, 7, 5] {
        let (tx, _rx) = channel(1);
        s.add_worker(id, tx);
    }
    s.remove_worker(5);
    assert_eq!(s.worker_ids(), vec![6, 7]);
}

#[test]
fn removed_worker_finds_its_channel_closed() {
    let (mut s, mut rxs) = with_workers(ScheduleStrategy::RoundRobin, &[4, 4]);
    s.remove_worker(1);
    assert_eq!(rxs[1].try_recv(), Err(tokio::sync::mpsc::error::TryRecvError::Disconnected));
    assert_eq!(rxs[0].try_recv(), Err(tokio::sync::mpsc::error::TryRecvError::Empty));
}

#[test]
fn round_robin_takes_turns() {
    let (mut s, _rxs) = with_workers(ScheduleStrategy::RoundRobin, &[9, 9, 9]);
    let mut workers = Vec::new();
    for i in 0..6u128 {
        let (sends, accepted) = dispatch(&mut s, normal(i));
        assert!(accepted);
        assert_eq!(sends.len(), 1);
        assert_eq!(sends[0].1, i);
        workers.push(sends[0].0);
    }
    assert_eq!(workers, vec![0, 1, 2, 0, 1, 2]);
    assert_eq!(s.total_pending(), 6);
    assert_eq!(s.queued_count(), 0);
}

#[test]
fn no_worker_refuses_the_task() {
    for strategy in [ScheduleStrategy::RoundRobin, ScheduleStrategy::LeastLoaded] {
        let mut s = Scheduler::new(strategy, 3);
        assert_eq!(dispatch(&mut s, normal(1)), (vec![], false));
        assert_eq!(s.total_pending(), 3);
    }
}

#[test]
fn undelivered_task_is_not_pending() {
    for strategy in [ScheduleStrategy::RoundRobin, ScheduleStrategy::LeastLoaded] {
        let (mut s, rxs) = with_workers(strategy, &[4]);
        drop(rxs);
        let (sends, accepted) = dispatch(&mut s, normal(1));
        assert_eq!(sends, vec![(0, 1)]);
        assert!(!accepted);
        assert_eq!(s.total_pending(), 0);
    }
}

#[test]
fn least_loaded_worker_gets_the_task() {
    let (mut s, mut rxs) = with_workers(ScheduleStrategy::LeastLoaded, &[8, 8, 8]);
    for i in 0..3u128 {
        dispatch(&mut s, normal(i));
    }
    // Each has one task now; worker 1 takes its own.
    assert_eq!(rxs[1].try_recv().unwrap().id, 1);
    assert_eq!(dispatch(&mut s, normal(3)), (vec![(1, 3)], true));
    assert_eq!(dispatch(&mut s, normal(4)), (vec![(0, 4)], true));
    assert_eq!(s.total_pending(), 5);
}

#[test]
fn load_is_measured_against_the_channel_size() {
    let (mut s, _rxs) = with_workers(ScheduleStrategy::LeastLoaded, &[2, 100]);
    let mut workers = Vec::new();
    for i in 0..4u128 {
        workers.push(dispatch(&mut s, normal(i)).0[0].0);
    }
    assert_eq!(workers, vec![0, 1, 0, 1]);
}

#[test]
fn least_loaded_by_given_readings() {
    assert_eq!(pick_least_loaded(&vec![3, 1, 1], &vec![3, 1, 1]), Some(1));
    assert_eq!(pick_least_loaded(&vec![3, 1, 1], &vec![1, 2, 1]), Some(0));
    assert_eq!(pick_least_loaded(&vec![3, 1, 1], &vec![3, 2, 0]), None);
    let (s, _rxs) = with_workers(ScheduleStrategy::LeastLoaded, &[8, 8]);
    let step = s.dispatch_least_loaded_by(normal(1), &vec![0, 0], &vec![1, 1]);
    assert!(matches!(step, DispatchStep::Finished(false)));
}

#[test]
fn room_by_given_readings() {
    assert_eq!(pick_with_room(&vec![0, 0, 2, 1]), 2);
    assert_eq!(pick_with_room(&vec![5, 0]), 0);
    assert_eq!(pick_with_room(&vec![0, 0]), 0);
}

#[test]
fn queue_goes_to_the_first_worker_with_room() {
    let (mut s, _rxs) = with_workers(ScheduleStrategy::Priority, &[1, 2]);
    assert_eq!(dispatch(&mut s, normal(1)), (vec![(0, 1)], true));
    assert_eq!(dispatch(&mut s, normal(2)), (vec![(1, 2)], true));
    assert_eq!(dispatch(&mut s, normal(3)), (vec![(1, 3)], true));
    // No room anywhere: the first worker, whose channel is full, is tried.
    assert_eq!(dispatch(&mut s, normal(4)), (vec![(0, 4)], true));
    assert_eq!(s.queued_count(), 0);
    assert_eq!(s.total_pending(), 4);
}

#[test]
fn enqueued_tasks_are_sent_most_urgent_first() {
    let (mut s, mut rxs) = with_workers(ScheduleStrategy::Priority, &[9]);
    s.enqueue(task(1, Priority::Low, 1));
    s.enqueue(task(2, Priority::High, 9));
    s.enqueue(task(3, Priority::High, 5));
    assert_eq!(s.queued_count(), 3);
    assert_eq!(s.total_pending(), 0);
    let (sends, _) = dispatch(&mut s, task(4, Priority::Critical, 30));
    assert_eq!(sends, vec![(0, 4), (0, 3), (0, 2), (0, 1)]);
    assert_eq!(rxs[0].try_recv().unwrap().id, 4);
    assert_eq!(s.queued_count(), 0);
}

#[test]
fn sending_stops_at_the_first_failure() {
    let (mut s, rxs) = with_workers(ScheduleStrategy::Priority, &[9]);
    drop(rxs);
    s.enqueue(task(1, Priority::Low, 1));
    let (sends, accepted) = dispatch(&mut s, task(2, Priority::High, 1));
    assert_eq!(sends, vec![(0, 2)]);
    assert!(accepted);
    assert_eq!(s.queued_count(), 1);
    assert_eq!(s.total_pending(), 1);
}

#[test]
fn queue_without_workers_loses_the_foremost_task() {
    let mut s = Scheduler::new(ScheduleStrategy::Priority, 0);
    s.enqueue(task(1, Priority::Low, 1));
    assert_eq!(dispatch(&mut s, task(2, Priority::High, 1)), (vec![], true));
    assert_eq!(s.queued_count(), 1);
}

#[test]
fn strategies_without_queues_drop_what_is_enqueued() {
    let mut s = Scheduler::new(ScheduleStrategy::RoundRobin, 0);
    s.enqueue(normal(1));
    assert_eq!(s.queued_count(), 0);
}

#[test]
fn priority_strategy_does_not_delay() {
    let mut s = Scheduler::new(ScheduleStrategy::Priority, 0);
    let mut t = normal(1);
    t.execute_after = Some(at(i64::MAX));
    s.enqueue_at(t, &at(0));
    assert!(matches!(s.send_next_by(&Vec::new()), DispatchStep::Finished(true)));
    assert_eq!(s.queued_count(), 0);
}

#[test]
fn delayed_task_waits_until_it_is_due() {
    let (mut s, _rxs) = with_workers(ScheduleStrategy::DelayedQueue, &[9]);
    let mut t = normal(1);
    t.execute_after = Some(at(100));
    s.enqueue_at(t, &at(99));
    let looks = vec![at(99)];
    s.flush_delayed_at(&at(99), &looks);
    assert!(matches!(s.send_next_by(&vec![9]), DispatchStep::Finished(true)));
    assert_eq!(s.queued_count(), 1);
    s.flush_delayed_at(&at(100), &looks);
    assert!(matches!(
        s.send_next_by(&vec![9]),
        DispatchStep::Send { worker: 0, task } if task.id == 1
    ));
    assert_eq!(s.queued_count(), 0);
}

#[test]
fn flush_parts_the_delayed_tasks() {
    let mut s = Scheduler::new(ScheduleStrategy::DelayedQueue, 0);
    for i in 1..5u128 {
        let mut t = normal(i);
        t.execute_after = Some(at(i as i64 * 10));
        s.enqueue_at(t, &at(0));
    }
    let looks = vec![at(25); 4];
    s.flush_delayed_at(&at(25), &looks);
    assert_eq!(s.queued_count(), 4);
    let (tx, _rx) = channel(9);
    s.add_worker(0, tx);
    let step = s.send_next_by(&vec![9]);
    assert_eq!(run(&mut s, step).0, vec![(0, 1), (0, 2)]);
    assert_eq!(s.queued_count(), 2);
}

#[test]
fn task_that_becomes_due_during_a_flush_is_released() {
    let mut s = Scheduler::new(ScheduleStrategy::DelayedQueue, 0);
    let mut t = normal(1);
    t.execute_after = Some(at(100));
    s.enqueue_at(t, &at(0));
    s.flush_delayed_at(&at(98), &vec![at(99)]);
    assert!(matches!(s.send_next_by(&Vec::new()), DispatchStep::Finished(true)));
    assert_eq!(s.queued_count(), 1);
    s.flush_delayed_at(&at(99), &vec![at(100)]);
    assert_eq!(s.queued_count(), 1);
    let (tx, _rx) = channel(9);
    s.add_worker(0, tx);
    let step = s.send_next_by(&vec![9]);
    assert_eq!(run(&mut s, step).0, vec![(0, 1)]);
}

#[test]
fn flush_by_the_clock() {
    let (mut s, _rxs) = with_workers(ScheduleStrategy::DelayedQueue, &[9]);
    let soon = Task::new(Vec::new()).with_delay(Delay::from_millis(100)).unwrap();
    let late = Task::new(Vec::new()).with_delay(Delay::from_secs(3600)).unwrap();
    let soon_id = soon.id;
    let probe = soon.clone();
    assert_eq!(dispatch(&mut s, soon), (vec![], true));
    assert_eq!(dispatch(&mut s, late), (vec![], true));
    assert_eq!(s.queued_count(), 2);
    while !probe.is_ready() {}
    let step = s.flush_queues();
    assert_eq!(run(&mut s, step), (vec![(0, soon_id)], true));
    assert_eq!(s.queued_count(), 1);
}

#[test]
fn finished_tasks_are_not_pending() {
    let (mut s, _rxs) = with_workers(ScheduleStrategy::RoundRobin, &[64]);
    for i in 0..20u128 {
        dispatch(&mut s, normal(i));
    }
    assert_eq!(s.total_pending(), 20);
    assert_eq!(s.load(), Some(20));
    for _ in 0..20 {
        s.task_done();
    }
    assert_eq!(s.total_pending(), 0);
}

#[test]
fn pending_wraps_like_a_counter() {
    let mut s = Scheduler::new(ScheduleStrategy::Priority, 0);
    s.task_done();
    assert_eq!(s.total_pending(), usize::MAX);
    s.enqueue(normal(1));
    assert_eq!(s.load(), None);
}

#[test]
fn flush_neither_loses_nor_doubles() {
    let (mut s, _rxs) = with_workers(ScheduleStrategy::DelayedQueue, &[64]);
    for i in 1..21u128 {
        let mut t = normal(i);
        t.execute_after = Some(at(i as i64));
        s.enqueue_at(t, &at(0));
    }
    let mut sent = Vec::new();
    for round in 0..5i64 {
        let waiting = s.queued_count();
        let looks: Vec<Timestamp> = (0..waiting).map(|k| at(4 * round + k as i64 % 3)).collect();
        s.flush_delayed_at(&at(4 * round), &looks);
        assert_eq!(s.queued_count(), waiting);
        let step = s.send_next_by(&vec![64]);
        for (_, id) in run(&mut s, step).0 {
            sent.push(id);
        }
        assert_eq!(s.queued_count() + sent.len(), 20);
    }
    s.flush_delayed_at(&at(20), &vec![at(20); s.queued_count()]);
    let step = s.send_next_by(&vec![64]);
    for (_, id) in run(&mut s, step).0 {
        sent.push(id);
    }
    sent.sort();
    assert_eq!(sent, (1..21u128).collect::<Vec<u128>>());
}

#[test]
fn flush_sends_to_workers_that_there_are() {
    let mut s = Scheduler::new(ScheduleStrategy::Priority, 0);
    s.enqueue(normal(1));
    s.enqueue(normal(2));
    assert!(matches!(s.flush_queues(), DispatchStep::Finished(true)));
    let (tx, _rx) = channel(4);
    s.add_worker(7, tx);
    let step = s.flush_queues();
    assert!(matches!(step, DispatchStep::Send { worker: 0, .. }));
    assert_eq!(run(&mut s, step), (vec![(0, 2)], true));
}
