use worker_pool::queue::BoundedTaskQueue;
use worker_pool::queue::SubmitOutcome;
use worker_pool::task::Task;

#[test]
fn new_queue_is_empty() {
    let q = BoundedTaskQueue::new(20);
    assert!(q.is_empty());
    assert_eq!(q.len(), 0);
    assert_eq!(q.capacity(), 20);
}

#[test]
fn push_appends_until_capacity_then_discards() {
    let mut q = BoundedTaskQueue::new(3);
    assert_eq!(q.try_push(Task::new(1, 5)), SubmitOutcome::Accepted);
    assert_eq!(q.try_push(Task::new(2, 6)), SubmitOutcome::Accepted);
    assert_eq!(q.try_push(Task::new(3, 7)), SubmitOutcome::Accepted);
    assert_eq!(q.len(), 3);
    assert_eq!(q.try_push(Task::new(4, 8)), SubmitOutcome::Discarded);
    assert_eq!(q.try_push(Task::new(5, 9)), SubmitOutcome::Discarded);
    assert_eq!(q.len(), 3);
}

#[test]
fn length_never_exceeds_capacity() {
    let mut q = BoundedTaskQueue::new(4);
    for i in 0..50u8 {
        q.try_push(Task::new(i, 5));
        assert!(q.len() <= q.capacity());
    }
    assert_eq!(q.len(), 4);
}

#[test]
fn pop_returns_tasks_in_fifo_order() {
    let mut q = BoundedTaskQueue::new(10);
    let a = Task::new(10, 5);
    let b = Task::new(11, 6);
    let c = Task::new(12, 7);
    q.try_push(a);
    q.try_push(b);
    q.try_push(c);
    assert_eq!(q.pop_front(), Some(a));
    assert_eq!(q.pop_front(), Some(b));
    assert_eq!(q.pop_front(), Some(c));
    assert_eq!(q.pop_front(), None);
}

#[test]
fn pop_on_empty_queue_returns_none() {
    let mut q = BoundedTaskQueue::new(1);
    assert_eq!(q.pop_front(), None);
    assert!(q.is_empty());
}

#[test]
fn discarded_submission_drops_the_task() {
    let mut q = BoundedTaskQueue::new(1);
    let kept = Task::new(1, 5);
    let dropped = Task::new(2, 5);
    assert_eq!(q.try_push(kept), SubmitOutcome::Accepted);
    assert_eq!(q.try_push(dropped), SubmitOutcome::Discarded);
    assert_eq!(q.pop_front(), Some(kept));
    assert_eq!(q.pop_front(), None);
}
