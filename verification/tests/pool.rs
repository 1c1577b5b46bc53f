use task_queue::error::TaskQueueError;
use task_queue::pipe::Priority;
use task_queue::pipe::Sender;
use task_queue::Message;
use task_queue::pool::Pool;
use task_queue::pool::ResizeStep;
use task_queue::spawn_policy::DynamicSpawnPolicy;

fn pool_with_threads(min: usize, max: usize) -> Pool<u32> {
    match Pool::<u32>::with_threads(min, max) {
        Ok(p) => p,
        Err(_) => panic!("bounds refused"),
    }
}

#[test]
fn start_bounds_are_checked() {
    for (min, max) in [(0usize, 5usize), (5, 0), (6, 5), (0, 0)] {
        match Pool::<u32>::with_threads(min, max) {
            Err(TaskQueueError::IllegalStartThreads { min: a, max: b }) => {
                assert_eq!((a, b), (min, max));
            }
            _ => panic!("bounds accepted"),
        }
    }
    let p = pool_with_threads(5, 5);
    assert_eq!(p.get_threads_min(), 5);
    assert_eq!(p.get_threads_max(), 5);
    assert_eq!(p.get_threads_count(), 0);
}

#[test]
fn new_pool_has_ten_and_ten() {
    let p = Pool::<u32>::new();
    assert_eq!(p.get_threads_min(), 10);
    assert_eq!(p.get_threads_max(), 10);
}

#[test]
fn policy_counts_are_checked() {
    let p = pool_with_threads(2, 4);
    assert!(matches!(p.check_count(2), Ok(2)));
    assert!(matches!(p.check_count(4), Ok(4)));
    match p.check_count(5) {
        Err(TaskQueueError::IllegalPolicyThreads { min, max, count }) => {
            assert_eq!((min, max, count), (2, 4, 5));
        }
        _ => panic!("count accepted"),
    }
    assert!(matches!(
        p.check_count(1),
        Err(TaskQueueError::IllegalPolicyThreads { min: 2, max: 4, count: 1 })
    ));
}

#[test]
fn static_policy_is_consulted_by_default() {
    let mut p = pool_with_threads(2, 4);
    assert!(matches!(p.consult_policy(0), Ok(4)));
    let s = p.stats(7);
    assert_eq!(s.threads_count, 0);
    assert_eq!(s.threads_max, 4);
    assert_eq!(s.threads_min, 2);
    assert_eq!(s.tasks_count, 7);
}

#[test]
fn dynamic_policy_can_be_set() {
    let mut p = pool_with_threads(2, 4);
    p.set_spawn_policy(Box::new(DynamicSpawnPolicy::new()));
    // no thread runs yet: the count is moved up to the minimum
    assert!(matches!(p.consult_policy(0), Ok(2)));
}

#[test]
fn resize_retires_oldest_first() {
    let mut sender = Sender::<u8>::new();
    let mut p = pool_with_threads(1, 3);
    assert_eq!(p.next_step(3), ResizeStep::Spawn);
    let mut handles = Vec::new();
    while p.next_step(3) == ResizeStep::Spawn {
        let r = sender.create_receiver().handle();
        handles.push(r);
        p.add_thread(r, handles.len() as u32);
    }
    assert_eq!(p.get_threads_count(), 3);
    assert_eq!(p.next_step(3), ResizeStep::Done);
    assert_eq!(p.running_receivers(), handles);

    assert_eq!(p.next_step(1), ResizeStep::Retire);
    assert_eq!(p.retire_oldest(), handles[0]);
    assert_eq!(p.retire_oldest(), handles[1]);
    assert_eq!(p.next_step(1), ResizeStep::Done);
    assert_eq!(p.running_receivers(), vec![handles[2]]);
    assert_eq!(p.closing_threads().len(), 2);
    assert_eq!(p.closing_threads()[0].thread, 1);
    assert_eq!(p.closing_threads()[1].thread, 2);

    // the first closing thread has closed, the second has not
    p.prune_closed(&vec![true, false]);
    assert_eq!(p.closing_threads().len(), 1);
    assert_eq!(p.closing_threads()[0].thread, 2);
    assert_eq!(p.closing_threads()[0].receiver, handles[1]);

    assert_eq!(p.drain_threads(), vec![3, 2]);
    assert_eq!(p.get_threads_count(), 0);
    assert_eq!(p.closing_threads().len(), 0);
}

#[test]
fn prune_keeps_order_of_open_threads() {
    let mut sender = Sender::<u8>::new();
    let mut p = pool_with_threads(1, 5);
    for i in 0..5u32 {
        let r = sender.create_receiver().handle();
        p.add_thread(r, i);
    }
    for _ in 0..4 {
        p.retire_oldest();
    }
    p.prune_closed(&vec![false, true, false, true]);
    let kept: Vec<u32> = p.closing_threads().iter().map(|t| t.thread).collect();
    assert_eq!(kept, vec![0, 2]);
    p.prune_closed(&vec![true, true]);
    assert_eq!(p.closing_threads().len(), 0);
    assert_eq!(p.drain_threads(), vec![4]);
}

struct FakeWorkers {
    started: u32,
    finished: Vec<u32>,
    refuse_after: u32,
}

impl task_queue::pool::Workers<u32> for FakeWorkers {
    fn start(&mut self, _receiver: task_queue::pipe::Receiver<Message>) -> Result<u32, TaskQueueError> {
        if self.started >= self.refuse_after {
            return Err(TaskQueueError::Io(std::io::Error::new(std::io::ErrorKind::Other, "no more")));
        }
        self.started += 1;
        Ok(self.started)
    }

    fn is_closed(&self, thread: &u32) -> bool {
        self.finished.contains(thread)
    }
}

fn fake(refuse_after: u32) -> FakeWorkers {
    FakeWorkers { started: 0, finished: Vec::new(), refuse_after }
}

/// The close requests left on the queue, as (receiver, priority).
fn close_requests(queue: &Sender<Message>) -> Vec<(task_queue::pipe::ReceiverHandle, Priority)> {
    let mut out = Vec::new();
    for m in queue.messages() {
        if let Message::CloseThread = m.data {
            out.push((m.target.expect("addressed"), m.priority));
        }
    }
    out
}

#[test]
fn static_policy_starts_max_threads() {
    let mut p = pool_with_threads(1, 2);
    let mut w = fake(100);
    let mut q = Sender::<Message>::new();
    assert!(matches!(p.apply_policy(1, &mut q, &mut w), Ok(2)));
    assert_eq!(p.get_threads_count(), 2);
    assert!(matches!(p.apply_policy(1, &mut q, &mut w), Ok(2)));
    assert_eq!(w.started, 2);
    assert_eq!(q.size(), 0);
    assert_eq!(p.running_receivers()[1].id(), 1);
}

struct FixedPolicy(usize);

impl task_queue::spawn_policy::SpawnPolicy for FixedPolicy {
    fn get_count(&mut self, _stats: task_queue::TaskQueueStats) -> usize {
        self.0
    }
}

#[test]
fn a_set_policy_is_consulted_and_oldest_threads_close_first() {
    let mut p = pool_with_threads(1, 4);
    let mut w = fake(100);
    let mut q = Sender::<Message>::new();
    assert!(matches!(p.apply_policy(0, &mut q, &mut w), Ok(4)));
    let first = p.running_receivers();
    p.set_spawn_policy(Box::new(FixedPolicy(2)));
    assert!(matches!(p.apply_policy(0, &mut q, &mut w), Ok(2)));
    assert_eq!(p.get_threads_count(), 2);
    assert_eq!(
        close_requests(&q),
        vec![(first[0], Priority::High), (first[1], Priority::High)]
    );
    assert_eq!(p.running_receivers(), vec![first[2], first[3]]);
    assert_eq!(p.closing_threads().len(), 2);
    // the first retired thread has finished: it is forgotten at the next call
    w.finished.push(1);
    assert!(matches!(p.apply_policy(0, &mut q, &mut w), Ok(2)));
    assert_eq!(p.closing_threads().len(), 1);
    assert_eq!(p.closing_threads()[0].thread, 2);
}

#[test]
fn an_illegal_policy_count_is_refused() {
    let mut p = pool_with_threads(1, 2);
    p.set_spawn_policy(Box::new(FixedPolicy(3)));
    let mut w = fake(100);
    let mut q = Sender::<Message>::new();
    assert!(matches!(
        p.apply_policy(0, &mut q, &mut w),
        Err(TaskQueueError::IllegalPolicyThreads { min: 1, max: 2, count: 3 })
    ));
    assert_eq!(p.get_threads_count(), 0);
}

#[test]
fn a_failed_start_keeps_the_threads_started() {
    let mut p = pool_with_threads(1, 3);
    let mut w = fake(2);
    let mut q = Sender::<Message>::new();
    assert!(matches!(p.apply_policy(0, &mut q, &mut w), Err(TaskQueueError::Io(_))));
    assert_eq!(p.get_threads_count(), 2);
    assert_eq!(q.next_handle().id(), 3);
}

#[test]
fn stopping_sends_min_requests_and_stopping_now_high_ones() {
    let mut p = pool_with_threads(2, 2);
    let mut w = fake(100);
    let mut q = Sender::<Message>::new();
    assert!(matches!(p.apply_policy(0, &mut q, &mut w), Ok(2)));
    let running = p.running_receivers();
    assert_eq!(p.stop_after_tasks(&mut q), vec![1, 2]);
    assert_eq!(close_requests(&q), vec![(running[0], Priority::Min), (running[1], Priority::Min)]);
    assert_eq!(p.get_threads_count(), 0);

    let mut p = pool_with_threads(1, 1);
    let mut q = Sender::<Message>::new();
    let mut w = fake(100);
    assert!(matches!(p.apply_policy(0, &mut q, &mut w), Ok(1)));
    let running = p.running_receivers();
    assert_eq!(p.stop_now(&mut q), vec![1]);
    assert_eq!(close_requests(&q), vec![(running[0], Priority::High)]);
}
