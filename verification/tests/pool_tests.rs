use worker_pool::pool::Pool;
use worker_pool::pool::PoolEvent;
use worker_pool::queue::SubmitOutcome;
use worker_pool::task::Task;
use worker_pool::worker::WorkerState;

fn started_ids(pool: &Pool) -> Vec<u8> {
    let mut ids = Vec::new();
    for e in pool.events().iter() {
        if let PoolEvent::TaskStarted { task, .. } = e {
            ids.push(task.id);
        }
    }
    ids
}

fn completed_ids(pool: &Pool) -> Vec<u8> {
    let mut ids = Vec::new();
    for e in pool.events().iter() {
        if let PoolEvent::TaskCompleted { task, .. } = e {
            ids.push(task.id);
        }
    }
    ids
}

#[test]
fn new_pool_starts_idle_and_empty() {
    let pool = Pool::new(20, 6);
    assert_eq!(pool.capacity(), 20);
    assert_eq!(pool.queue_len(), 0);
    assert!(!pool.is_paused());
    assert_eq!(pool.worker_count(), 6);
    for w in 0..6 {
        assert_eq!(pool.worker_state(w), WorkerState::WaitingForTask);
    }
    assert!(pool.events().is_empty());
    assert!(pool.accepted_tasks().is_empty());
}

#[test]
fn submit_reports_acceptance_and_discard() {
    let mut pool = Pool::new(2, 1);
    assert_eq!(pool.submit(Task::new(1, 5)), SubmitOutcome::Accepted);
    assert_eq!(pool.submit(Task::new(2, 5)), SubmitOutcome::Accepted);
    assert_eq!(pool.submit(Task::new(3, 5)), SubmitOutcome::Discarded);
    assert_eq!(pool.queue_len(), 2);
    assert_eq!(pool.accepted_tasks().len(), 2);
}

#[test]
fn queue_length_never_exceeds_capacity_across_submissions() {
    let mut pool = Pool::new(7, 2);
    for i in 0..40u8 {
        pool.submit(Task::new(i, 5));
        assert!(pool.queue_len() <= pool.capacity());
    }
    assert_eq!(pool.queue_len(), 7);
}

#[test]
fn workers_drain_in_submission_order() {
    let mut pool = Pool::new(10, 3);
    for i in 0..9u8 {
        assert_eq!(pool.submit(Task::new(i, 5)), SubmitOutcome::Accepted);
    }
    // Three workers pick up and finish concurrently-interleaved; the pickup
    // order must still be the submission order.
    while pool.queue_len() > 0 {
        for w in 0..3 {
            pool.worker_pickup(w);
        }
        for w in 0..3 {
            pool.worker_finish(w);
        }
    }
    assert_eq!(started_ids(&pool), vec![0, 1, 2, 3, 4, 5, 6, 7, 8]);
    assert_eq!(completed_ids(&pool).len(), 9);
}

#[test]
fn pause_does_not_interrupt_a_running_task() {
    let mut pool = Pool::new(5, 1);
    let t = Task::new(7, 6);
    pool.submit(t);
    assert_eq!(pool.worker_pickup(0), Some(t));
    assert_eq!(pool.worker_state(0), WorkerState::Running(t));

    // Pause lands while the task runs: the task still completes, and the
    // worker then parks at the pause gate.
    assert!(pool.pause());
    assert_eq!(pool.worker_finish(0), Some(t));
    assert_eq!(completed_ids(&pool), vec![7]);
    assert_eq!(pool.worker_state(0), WorkerState::Paused);

    // No new task begins anywhere while paused.
    pool.submit(Task::new(8, 5));
    assert_eq!(pool.worker_pickup(0), None);
    assert_eq!(started_ids(&pool), vec![7]);
}

#[test]
fn paused_worker_stays_parked_on_spurious_wakeup() {
    let mut pool = Pool::new(5, 1);
    let t = Task::new(1, 5);
    pool.submit(t);
    pool.worker_pickup(0);
    pool.pause();
    pool.worker_finish(0);
    assert_eq!(pool.worker_state(0), WorkerState::Paused);
    // A wakeup with the flag still raised is spurious: the worker re-checks
    // and stays parked.
    assert!(!pool.worker_unpause(0));
    assert_eq!(pool.worker_state(0), WorkerState::Paused);
    pool.resume();
    assert!(pool.worker_unpause(0));
    assert_eq!(pool.worker_state(0), WorkerState::WaitingForTask);
}

#[test]
fn pause_twice_leaves_the_pool_as_one_pause_does() {
    let mut pool = Pool::new(5, 2);
    assert!(pool.pause());
    assert!(!pool.pause());
    assert!(pool.is_paused());
    assert!(pool.resume());
    assert!(!pool.resume());
    assert!(!pool.is_paused());
}

#[test]
fn shutdown_ready_exactly_when_queue_is_empty() {
    let mut pool = Pool::new(5, 1);
    assert!(pool.shutdown_ready());
    pool.submit(Task::new(1, 5));
    assert!(!pool.shutdown_ready());
    pool.worker_pickup(0);
    assert!(pool.shutdown_ready());
}

#[test]
fn scenario_capacity_twenty_submit_twenty_five_while_paused() {
    let mut pool = Pool::new(20, 6);
    // Pause first so no worker drains while the 25 tasks arrive.
    pool.pause();
    let mut accepted: usize = 0;
    let mut discarded: usize = 0;
    for i in 0..25u8 {
        match pool.submit(Task::new(i, 5)) {
            SubmitOutcome::Accepted => accepted += 1,
            SubmitOutcome::Discarded => discarded += 1,
        }
    }
    assert_eq!(accepted, 20);
    assert_eq!(discarded, 5);
    assert_eq!(pool.queue_len(), 20);
}

#[test]
fn scenario_task_submitted_while_paused_runs_once_after_resume() {
    let mut pool = Pool::new(5, 1);
    pool.pause();
    let t = Task::new(42, 5);
    assert_eq!(pool.submit(t), SubmitOutcome::Accepted);

    // While paused nothing starts, however often the worker is prodded.
    assert_eq!(pool.worker_pickup(0), None);
    assert_eq!(pool.worker_pickup(0), None);
    assert!(started_ids(&pool).is_empty());

    pool.resume();
    assert_eq!(pool.worker_pickup(0), Some(t));
    assert_eq!(pool.worker_finish(0), Some(t));

    // Exactly one execution, and only after the resume.
    assert_eq!(started_ids(&pool), vec![42]);
    assert_eq!(completed_ids(&pool), vec![42]);
    assert_eq!(pool.worker_pickup(0), None);
}

#[test]
fn scenario_six_workers_thirty_tasks_all_run_once_in_order() {
    let mut pool = Pool::new(20, 6);
    let mut submitted_ids = Vec::new();
    for batch in 0..5u8 {
        // Six tasks arrive, with pseudo-random durations in the 5..=9 span.
        for k in 0..6u8 {
            let id = batch * 6 + k;
            let seed: u64 = rand::random();
            let t = Task::new(id, Task::duration_from_seed(seed));
            assert!(t.wait_time_s >= 5 && t.wait_time_s <= 9);
            assert_eq!(pool.submit(t), SubmitOutcome::Accepted);
            submitted_ids.push(id);
        }
        // All six workers run concurrently-interleaved: each picks up one
        // task, then each finishes.
        for w in 0..6 {
            assert!(pool.worker_pickup(w).is_some());
        }
        for w in 0..6 {
            assert!(pool.worker_finish(w).is_some());
        }
    }

    // Every one of the 30 tasks executed exactly once, pickups follow the
    // submission order, and the drain signal reports an empty queue.
    assert_eq!(started_ids(&pool), submitted_ids);
    let mut done = completed_ids(&pool);
    done.sort();
    assert_eq!(done, submitted_ids);
    assert!(pool.shutdown_ready());
}

#[test]
fn events_record_pause_entry_and_exit() {
    let mut pool = Pool::new(5, 1);
    let t = Task::new(3, 5);
    pool.submit(t);
    pool.worker_pickup(0);
    pool.pause();
    pool.worker_finish(0);
    pool.resume();
    pool.worker_unpause(0);
    let events = pool.events();
    assert_eq!(events.len(), 4);
    assert!(matches!(events[0], PoolEvent::TaskStarted { worker: 0, .. }));
    assert!(matches!(events[1], PoolEvent::TaskCompleted { worker: 0, .. }));
    assert!(matches!(events[2], PoolEvent::PauseEntered { worker: 0 }));
    assert!(matches!(events[3], PoolEvent::PauseExited { worker: 0 }));
}
