use lib::task_queue::{add, next, TaskQueue};

#[test]
fn tasks_run_in_order() {
    let mut q: TaskQueue<u32> = TaskQueue::new();
    q.push_back(1);
    q.push_back(2);
    assert_eq!(q.pop_front(), Some(1));
    assert_eq!(q.pop_front(), Some(2));
    assert_eq!(q.pop_front(), None);
}

#[test]
fn first_add_takes_the_lock() {
    let mut q: TaskQueue<u32> = TaskQueue::new();
    assert!(!q.locked());
    assert_eq!(add(&mut q, 7), Ok(()));
    assert!(q.locked());
    assert_eq!(q.len(), 1);
}

#[test]
fn locked_queue_hands_tasks_back() {
    let mut q: TaskQueue<u32> = TaskQueue::new();
    assert_eq!(add(&mut q, 7), Ok(()));
    assert_eq!(add(&mut q, 8), Err(8));
    assert_eq!(next(&mut q), None);
    assert_eq!(q.len(), 1);
}

#[test]
fn next_on_fresh_queue_takes_the_front() {
    let mut q: TaskQueue<u32> = TaskQueue::new();
    q.push_back(5);
    q.push_back(6);
    assert_eq!(next(&mut q), Some(5));
    assert!(q.core_local() == false);
}

#[test]
fn next_on_empty_queue_is_none() {
    let mut q: TaskQueue<u32> = TaskQueue::new();
    assert_eq!(next(&mut q), None);
    assert!(q.locked());
}
