use task_pool::queue::TaskQueue;
use task_pool::{DeadLetterQueue, Priority, Task, Timestamp};

fn at(secs: i64) -> Timestamp {
    Timestamp { secs, nanos: 0 }
}

fn task(id: u128, priority: Priority, created: i64) -> Task {
    Task::with_identity(id, at(created), Vec::new()).with_priority(priority)
}

fn priority(n: u64) -> Priority {
    match n % 4 {
        0 => Priority::Critical,
        1 => Priority::High,
        2 => Priority::Normal,
        _ => Priority::Low,
    }
}

#[test]
fn empty_queue_has_nothing() {
    let mut q = TaskQueue::new();
    assert_eq!(q.len(), 0);
    assert!(q.pop().is_none());
}

#[test]
fn most_urgent_first_then_earliest() {
    let mut q = TaskQueue::new();
    q.push(task(1, Priority::Low, 1));
    q.push(task(2, Priority::High, 9));
    q.push(task(3, Priority::High, 5));
    q.push(task(4, Priority::Critical, 30));
    q.push(task(5, Priority::Normal, 2));
    assert_eq!(q.len(), 5);
    let mut ids = Vec::new();
    while let Some(t) = q.pop() {
        ids.push(t.id);
    }
    assert_eq!(ids, vec![4, 3, 2, 5, 1]);
}

#[test]
fn many_tasks_come_out_in_order() {
    let mut q = TaskQueue::new();
    let mut n: u64 = 12345;
    for i in 0..500u128 {
        n = n.wrapping_mul(6364136223846793005).wrapping_add(1442695040888963407);
        q.push(task(i, priority(n >> 33), ((n >> 40) % 50) as i64));
    }
    let mut seen = vec![false; 500];
    let mut last: Option<Task> = None;
    while let Some(t) = q.pop() {
        assert!(!seen[t.id as usize]);
        seen[t.id as usize] = true;
        if let Some(before) = &last {
            assert!(!before.is_behind(&t));
        }
        last = Some(t);
    }
    assert!(seen.iter().all(|s| *s));
}

#[test]
fn dead_letters_in_order_of_failing() {
    let mut q = DeadLetterQueue::new(10);
    assert!(q.is_empty());
    q.push_at(task(1, Priority::Low, 1), "first".to_string(), 1, at(100));
    q.push_at(task(2, Priority::High, 2), "second".to_string(), 2, at(200));
    assert!(!q.is_empty());
    assert_eq!(q.len(), 2);
    let list = q.list();
    assert_eq!(list[0].last_error, "first");
    assert_eq!(list[0].task, task(1, Priority::Low, 1));
    assert_eq!(list[1].attempts, 2);
    assert_eq!(list[1].failed_at, at(200));
    assert_eq!(q.len(), 2);
}

#[test]
fn full_dead_letter_queue_gives_up_the_oldest() {
    let mut q = DeadLetterQueue::new(3);
    for i in 0..5u128 {
        q.push_at(task(i, Priority::Low, 1), "e".to_string(), 1, at(1));
        assert!(q.len() <= 3);
    }
    let ids: Vec<u128> = q.list().iter().map(|e| e.task.id).collect();
    assert_eq!(ids, vec![2, 3, 4]);
}

#[test]
fn dead_letter_queue_of_size_zero_keeps_the_newest() {
    let mut q = DeadLetterQueue::new(0);
    q.push_at(task(1, Priority::Low, 1), "e".to_string(), 1, at(1));
    q.push_at(task(2, Priority::Low, 1), "e".to_string(), 1, at(1));
    let ids: Vec<u128> = q.list().iter().map(|e| e.task.id).collect();
    assert_eq!(ids, vec![2]);
}

#[test]
fn dead_letter_bears_the_time() {
    let before = chrono::Utc::now().timestamp();
    let mut q = DeadLetterQueue::new(3);
    q.push(task(1, Priority::Low, 1), "e".to_string(), 7);
    let entry = &q.list()[0];
    let after = chrono::Utc::now().timestamp();
    assert!(before <= entry.failed_at.secs && entry.failed_at.secs <= after);
    assert_eq!(entry.attempts, 7);
}

#[test]
fn requeue_all_forgets_attempts() {
    let mut q = DeadLetterQueue::new(3);
    for i in 0..3u128 {
        let mut t = task(i, Priority::Low, 1);
        t.attempt = 5;
        q.push_at(t, "e".to_string(), 6, at(1));
    }
    let tasks = q.requeue_all();
    assert!(q.is_empty());
    assert_eq!(tasks.len(), 3);
    for (i, t) in tasks.iter().enumerate() {
        assert_eq!(*t, task(i as u128, Priority::Low, 1));
    }
    assert!(q.requeue_all().is_empty());
}

#[test]
fn requeue_by_id_takes_the_first() {
    let mut q = DeadLetterQueue::new(9);
    for (id, created) in [(1u128, 10i64), (2, 20), (1, 30)] {
        let mut t = task(id, Priority::Low, created);
        t.attempt = 2;
        q.push_at(t, "e".to_string(), 3, at(1));
    }
    assert!(q.requeue_by_id(7).is_none());
    assert_eq!(q.len(), 3);
    assert_eq!(q.requeue_by_id(1), Some(task(1, Priority::Low, 10)));
    assert_eq!(q.requeue_by_id(1), Some(task(1, Priority::Low, 30)));
    assert_eq!(q.requeue_by_id(1), None);
    assert_eq!(q.len(), 1);
}

#[test]
fn given_up_task_comes_back() {
    let mut q = DeadLetterQueue::new(2);
    q.push_at(task(1, Priority::Low, 1), "e".to_string(), 3, at(1));
    q.push_at(task(2, Priority::Low, 1), "e".to_string(), 3, at(1));
    let mut t = task(3, Priority::Low, 1);
    t.attempt = 9;
    q.push_at(t, "e".to_string(), 10, at(1));
    assert_eq!(q.requeue_by_id(3), Some(task(3, Priority::Low, 1)));
    let ids: Vec<u128> = q.list().iter().map(|e| e.task.id).collect();
    assert_eq!(ids, vec![2]);
}

#[test]
fn clear_forgets_all() {
    let mut q = DeadLetterQueue::new(2);
    q.push_at(task(1, Priority::Low, 1), "e".to_string(), 3, at(1));
    q.clear();
    assert!(q.is_empty());
    assert!(q.list().is_empty());
}
