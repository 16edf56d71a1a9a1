use lib::computation::{ComputationTask, Computations};
use lib::future_stream::{run_sender_step, FutureStream, SenderStep};
use lib::spsc_stream::{run_receiver, ReceiverEnd, ReceiverTask, SpscStream};
use lib::stream::{FoldFuture, FoldSubscriber, MapStream, MapSubscriber, Subscriber};
use lib::task_queue::TaskQueue;

struct Collect(Vec<u32>);

impl Subscriber for Collect {
    type Item = u32;

    fn on_value(&mut self, value: u32) {
        self.0.push(value);
    }

    fn on_close(&mut self) {}
}

#[test]
fn spsc_values_wait_for_a_subscriber() {
    let mut tasks: TaskQueue<ReceiverTask> = TaskQueue::new();
    let (stream, mut sender, mut inner) = SpscStream::<u32>::new::<Collect>();
    assert!(!sender.send(&mut inner, &mut tasks, 1));
    assert_eq!(inner.queued_len(), 1);
    assert_eq!(tasks.len(), 0);
    stream.subscribe(&mut inner, Collect(vec![]));
    assert!(sender.send(&mut inner, &mut tasks, 2));
    assert!(inner.running());
    assert_eq!(tasks.pop_front(), Some(ReceiverTask));
    assert!(!sender.send(&mut inner, &mut tasks, 3));
    assert!(matches!(run_receiver(&mut inner), (ReceiverEnd::Idle, 3)));
    assert!(!inner.running());
    assert_eq!(inner.queued_len(), 0);
    assert_eq!(inner.receiver().as_ref().unwrap().0, vec![1, 2, 3]);
}

#[test]
fn spsc_close_lets_the_subscriber_go() {
    let mut tasks: TaskQueue<ReceiverTask> = TaskQueue::new();
    let (stream, sender, mut inner) = SpscStream::<u32>::new::<Collect>();
    stream.subscribe(&mut inner, Collect(vec![]));
    assert!(sender.close(&mut inner, &mut tasks));
    assert!(inner.closed());
    assert_eq!(tasks.len(), 1);
    assert!(matches!(run_receiver(&mut inner), (ReceiverEnd::Closed(_), 0)));
    assert!(!inner.has_receiver());
}

#[test]
fn spsc_closed_stream_still_delivers_queued_values() {
    struct Shared(std::rc::Rc<std::cell::RefCell<Vec<String>>>);
    impl Subscriber for Shared {
        type Item = u32;
        fn on_value(&mut self, value: u32) {
            self.0.borrow_mut().push(value.to_string());
        }
        fn on_close(&mut self) {
            self.0.borrow_mut().push("closed".to_string());
        }
    }
    let log = std::rc::Rc::new(std::cell::RefCell::new(Vec::new()));
    let mut tasks: TaskQueue<ReceiverTask> = TaskQueue::new();
    let (stream, mut sender, mut inner) = SpscStream::<u32>::new::<Shared>();
    sender.send(&mut inner, &mut tasks, 1);
    sender.send(&mut inner, &mut tasks, 2);
    stream.subscribe(&mut inner, Shared(log.clone()));
    assert!(sender.close(&mut inner, &mut tasks));
    assert!(matches!(run_receiver(&mut inner), (ReceiverEnd::Closed(_), 2)));
    assert_eq!(*log.borrow(), vec!["1".to_string(), "2".to_string(), "closed".to_string()]);
}

#[test]
fn map_subscriber_passes_mapped_values() {
    let mut m = MapSubscriber::new(|x: u32| x * 10, Collect(vec![]));
    m.on_value(1);
    m.on_value(2);
    assert_eq!(m.subscriber.0, vec![10, 20]);
    m.on_close();
}

#[test]
fn fold_accumulates_and_gives_the_result() {
    let mut cells: Computations<u32, &'static str> = Computations::new();
    let mut queue: TaskQueue<ComputationTask<fn(u32, u32) -> u32, &'static str, u32>> = TaskQueue::new();
    let fold = FoldFuture::new((), &mut cells, 0u32, (|a: u32, v: u32| a + v) as fn(u32, u32) -> u32);
    let FoldFuture { stream: (), future, mut subscriber } = fold;
    subscriber.on_value(3u32);
    subscriber.on_value(4u32);
    assert_eq!(subscriber.accumulator, Some(7));
    future.and_then(&mut cells, &mut queue, "sum");
    subscriber.on_close();
    assert!(subscriber.closed);
    subscriber.give_result(&mut cells, &mut queue);
    match queue.pop_front() {
        Some(ComputationTask::Continue { continuation: "sum", value: 7 }) => {}
        _ => panic!("expected the sum"),
    }
}

#[test]
fn future_stream_hands_subscriber_to_sender() {
    let mut cells: Computations<u32, &'static str> = Computations::new();
    let mut queue: TaskQueue<ComputationTask<(), &'static str, u32>> = TaskQueue::new();
    let (stream, sender) = FutureStream::<u8, u32>::new(&mut cells);
    assert_eq!(sender.subscriber.slot(), 0);
    stream.subscribe(&mut cells, &mut queue, 77);
    assert_eq!(cells.get(0).value, Some(77));
}

#[test]
fn future_stream_close_tells_the_subscriber() {
    let mut cells: Computations<u32, &'static str> = Computations::new();
    let mut queue: TaskQueue<ComputationTask<(), &'static str, u32>> = TaskQueue::new();
    let (stream, sender) = FutureStream::<u8, u32>::new(&mut cells);
    stream.subscribe(&mut cells, &mut queue, 5);
    sender.close(&mut cells, &mut queue, "close");
    match queue.pop_front() {
        Some(ComputationTask::Continue { continuation: "close", value: 5 }) => {}
        _ => panic!("expected the close"),
    }
}

#[test]
fn spsc_closed_stream_hands_back_the_subscriber_with_every_value() {
    let mut tasks: TaskQueue<ReceiverTask> = TaskQueue::new();
    let (stream, mut sender, mut inner) = SpscStream::<u32>::new::<Collect>();
    stream.subscribe(&mut inner, Collect(vec![7]));
    assert!(sender.send(&mut inner, &mut tasks, 8));
    assert!(!sender.send(&mut inner, &mut tasks, 9));
    assert!(!sender.close(&mut inner, &mut tasks));
    match run_receiver(&mut inner) {
        (ReceiverEnd::Closed(s), 2) => assert_eq!(s.0, vec![7, 8, 9]),
        _ => panic!("expected the closed end"),
    }
    assert!(!inner.has_receiver());
    assert_eq!(inner.queued_len(), 0);
}

#[test]
fn future_stream_sends_reach_the_subscriber_in_order() {
    let mut cells: Computations<Collect, SenderStep<u32, Collect>> = Computations::new();
    let mut q: TaskQueue<ComputationTask<(), SenderStep<u32, Collect>, Collect>> = TaskQueue::new();
    let (stream, mut sender) = FutureStream::<u32, Collect>::new(&mut cells);
    sender.send(&mut cells, &mut q, 1);
    sender.send(&mut cells, &mut q, 2);
    assert_eq!(q.len(), 0);
    assert_eq!(sender.subscriber.slot(), 2);
    stream.subscribe(&mut cells, &mut q, Collect(vec![]));
    let mut delivered = 0;
    let mut task = q.pop_front();
    while let Some(ComputationTask::Continue { continuation, value }) = task {
        let mut next_queue = TaskQueue::new();
        assert!(run_sender_step(continuation, value, &mut cells, &mut next_queue).is_none());
        delivered += 1;
        task = next_queue.pop_front();
    }
    assert_eq!(delivered, 2);
    assert_eq!(cells.get(2).value.as_ref().unwrap().0, vec![1, 2]);
    let mut last_queue: TaskQueue<ComputationTask<(), SenderStep<u32, Collect>, Collect>> = TaskQueue::new();
    sender.close(&mut cells, &mut last_queue, SenderStep::Close);
    match last_queue.pop_front() {
        Some(ComputationTask::Continue { continuation: SenderStep::Close, value }) => {
            let mut unused: TaskQueue<ComputationTask<(), SenderStep<u32, Collect>, Collect>> = TaskQueue::new();
            match run_sender_step(SenderStep::Close, value, &mut cells, &mut unused) {
                Some(s) => assert_eq!(s.0, vec![1, 2]),
                None => panic!("expected the subscriber back"),
            }
        }
        _ => panic!("expected the close"),
    }
}

#[test]
fn mapped_spsc_stream_delivers_mapped_values() {
    let mut tasks: TaskQueue<ReceiverTask> = TaskQueue::new();
    let (stream, mut sender, mut inner) =
        SpscStream::<u32>::new::<MapSubscriber<u32, fn(u32) -> u32, Collect>>();
    let mapped = MapStream { stream, f: (|x: u32| x + 100) as fn(u32) -> u32 };
    mapped.subscribe(&mut inner, Collect(vec![]));
    assert!(sender.send(&mut inner, &mut tasks, 1));
    assert!(!sender.send(&mut inner, &mut tasks, 2));
    assert!(matches!(run_receiver(&mut inner), (ReceiverEnd::Idle, 2)));
    assert_eq!(inner.receiver().as_ref().unwrap().subscriber.0, vec![101, 102]);
}

#[test]
fn spsc_stream_drives_a_fold_to_its_result() {
    type Add = fn(u32, u32) -> u32;
    let mut cells: Computations<u32, &'static str> = Computations::new();
    let mut queue: TaskQueue<ComputationTask<Add, &'static str, u32>> = TaskQueue::new();
    let fold = FoldFuture::new((), &mut cells, 10u32, (|a: u32, v: u32| a + v) as Add);
    let ((), subscriber) = fold.and_then(&mut cells, &mut queue, "total");
    let mut tasks: TaskQueue<ReceiverTask> = TaskQueue::new();
    let (stream, mut sender, mut inner) = SpscStream::<u32>::new::<FoldSubscriber<u32, u32, Add>>();
    stream.subscribe(&mut inner, subscriber);
    assert!(sender.send(&mut inner, &mut tasks, 1));
    assert!(!sender.send(&mut inner, &mut tasks, 2));
    assert!(!sender.send(&mut inner, &mut tasks, 3));
    assert!(!sender.close(&mut inner, &mut tasks));
    match run_receiver(&mut inner) {
        (ReceiverEnd::Closed(s), 3) => {
            assert!(s.closed);
            assert_eq!(s.accumulator, Some(16));
            s.give_result(&mut cells, &mut queue);
        }
        _ => panic!("expected the closed end"),
    }
    match queue.pop_front() {
        Some(ComputationTask::Continue { continuation: "total", value: 16 }) => {}
        _ => panic!("expected the total"),
    }
}
