use lib::future::{run_map_then, MapFuture, MapThen};
use lib::stream::{FoldFuture, Subscriber};
use lib::computation::{self, Computation, ComputationTask, Computations};
use lib::future_value::{self, FutureTask, FutureValue, FutureValues};
use lib::task_queue::TaskQueue;

type Cont = &'static str;

#[test]
fn future_value_pair_starts_empty() {
    let mut values: FutureValues<u32, Cont> = FutureValues::new();
    let (f, s) = future_value::new_pair(&mut values);
    assert_eq!(f.slot(), 0);
    assert_eq!(s.slot(), 0);
    let cell = values.get(0);
    assert!(cell.value.is_none() && cell.continuation.is_none());
    assert!(cell.future_alive && cell.setter_alive);
}

#[test]
fn continuation_queued_when_value_comes_last() {
    let mut values: FutureValues<u32, Cont> = FutureValues::new();
    let mut queue: TaskQueue<FutureTask<(), Cont, u32>> = TaskQueue::new();
    let (f, s) = future_value::new_pair(&mut values);
    f.and_then(&mut values, &mut queue, "print");
    assert_eq!(queue.len(), 0);
    s.set(&mut values, &mut queue, 5);
    assert_eq!(queue.len(), 1);
    match queue.pop_front() {
        Some(FutureTask::Continue { continuation: "print", value: 5 }) => {}
        _ => panic!("expected the continuation"),
    }
}

#[test]
fn continuation_queued_when_it_comes_last() {
    let mut values: FutureValues<u32, Cont> = FutureValues::new();
    let mut queue: TaskQueue<FutureTask<(), Cont, u32>> = TaskQueue::new();
    let f = FutureValue::from_value(&mut values, 9);
    assert_eq!(values.get(0).value, Some(9));
    f.and_then(&mut values, &mut queue, "go");
    assert_eq!(queue.len(), 1);
    assert!(values.get(0).value.is_none());
}

#[test]
fn future_value_new_queues_the_computation() {
    let mut values: FutureValues<u32, Cont> = FutureValues::new();
    let mut queue: TaskQueue<FutureTask<&'static str, Cont, u32>> = TaskQueue::new();
    let f = FutureValue::new(&mut values, &mut queue, "compute");
    assert_eq!(f.slot(), 0);
    assert_eq!(queue.len(), 1);
    assert!(queue.locked());
    match queue.pop_front() {
        Some(FutureTask::Compute { setter, function: "compute" }) => assert_eq!(setter.slot(), 0),
        _ => panic!("expected the computation"),
    }
}

#[test]
fn computation_second_finisher_dispatches_and_frees() {
    let mut cells: Computations<u32, Cont> = Computations::new();
    let mut queue: TaskQueue<ComputationTask<(), Cont, u32>> = TaskQueue::new();
    let (c, s) = computation::new_pair(&mut cells);
    s.set(&mut cells, &mut queue, 3);
    assert!(cells.get(0).counterpart_finished);
    assert_eq!(queue.len(), 0);
    c.and_then(&mut cells, &mut queue, "k");
    assert!(cells.get(0).freed);
    match queue.pop_front() {
        Some(ComputationTask::Continue { continuation: "k", value: 3 }) => {}
        _ => panic!("expected the continuation"),
    }
}

#[test]
fn computation_from_value_dispatches_on_continuation() {
    let mut cells: Computations<u32, Cont> = Computations::new();
    let mut queue: TaskQueue<ComputationTask<(), Cont, u32>> = TaskQueue::new();
    let c = Computation::from_value(&mut cells, 11);
    c.and_then(&mut cells, &mut queue, "k");
    assert_eq!(queue.len(), 1);
}

#[test]
fn run_queues_a_computation() {
    let mut cells: Computations<u32, Cont> = Computations::new();
    let mut queue: TaskQueue<ComputationTask<&'static str, Cont, u32>> = TaskQueue::new();
    let c = computation::run(&mut cells, &mut queue, "work");
    assert_eq!(c.slot(), 0);
    assert_eq!(cells.len(), 1);
    assert_eq!(queue.len(), 1);
    let c2 = Computation::new(&mut cells, &mut TaskQueue::new(), "more");
    assert_eq!(c2.slot(), 1);
}

#[test]
fn mapped_future_passes_the_value_through_f_first() {
    type Step = MapThen<fn(u32) -> u32, Box<dyn FnOnce(u32)>>;
    let mut values: FutureValues<u32, Step> = FutureValues::new();
    let mut queue: TaskQueue<FutureTask<(), Step, u32>> = TaskQueue::new();
    let (f, s) = future_value::new_pair(&mut values);
    let mapped = MapFuture { future: f, f: (|x: u32| x * 3) as fn(u32) -> u32 };
    let seen = std::rc::Rc::new(std::cell::Cell::new(0u32));
    let seen2 = seen.clone();
    mapped.and_then(&mut values, &mut queue, Box::new(move |b: u32| seen2.set(b)));
    assert_eq!(queue.len(), 0);
    s.set(&mut values, &mut queue, 7);
    match queue.pop_front() {
        Some(FutureTask::Continue { continuation, value: 7 }) => run_map_then(continuation, 7),
        _ => panic!("expected the mapped continuation"),
    }
    assert_eq!(seen.get(), 21);
}

#[test]
fn fold_future_attaches_its_continuation_and_hands_back_the_subscriber() {
    let mut cells: Computations<u32, &'static str> = Computations::new();
    let mut queue: TaskQueue<ComputationTask<fn(u32, u32) -> u32, &'static str, u32>> = TaskQueue::new();
    let fold = FoldFuture::new((), &mut cells, 1u32, (|a: u32, v: u32| a * v) as fn(u32, u32) -> u32);
    let ((), mut subscriber) = fold.and_then(&mut cells, &mut queue, "product");
    assert_eq!(cells.get(0).continuation, Some("product"));
    subscriber.on_value(6u32);
    subscriber.on_value(7u32);
    subscriber.on_close();
    assert!(subscriber.closed);
    subscriber.give_result(&mut cells, &mut queue);
    match queue.pop_front() {
        Some(ComputationTask::Continue { continuation: "product", value: 42 }) => {}
        _ => panic!("expected the product"),
    }
}
