use std::sync::atomic::AtomicUsize;
use std::sync::atomic::Ordering;
use std::sync::Arc;

use task_queue::error::TaskQueueError;
use task_queue::into_tasks;
use task_queue::not_completed;
use task_queue::Job;
use task_queue::provider::ProviderResult;
use task_queue::provider::Shared;
use task_queue::Message;
use task_queue::Task;

struct Count(Arc<AtomicUsize>, usize);

impl Job for Count {
    fn call(&self) {
        self.0.fetch_add(self.1, Ordering::SeqCst);
    }
}

fn counting_task(counter: &Arc<AtomicUsize>, by: usize) -> Task {
    Task::new(Box::new(Count(counter.clone(), by)))
}

#[test]
fn task_runs_its_closure() {
    let counter = Arc::new(AtomicUsize::new(0));
    let t = counting_task(&counter, 3);
    t.run();
    t.run();
    assert_eq!(counter.load(Ordering::SeqCst), 6);
}

#[test]
fn pending_messages_become_tasks_in_order() {
    let counter = Arc::new(AtomicUsize::new(0));
    let messages = vec![
        Message::Task(counting_task(&counter, 1)),
        Message::Task(counting_task(&counter, 10)),
    ];
    let tasks = into_tasks(messages).expect("only tasks");
    assert_eq!(tasks.len(), 2);
    tasks[1].run();
    assert_eq!(counter.load(Ordering::SeqCst), 10);
    tasks[0].run();
    assert_eq!(counter.load(Ordering::SeqCst), 11);
}

#[test]
fn a_close_request_is_no_task() {
    let counter = Arc::new(AtomicUsize::new(0));
    let messages = vec![Message::Task(counting_task(&counter, 1)), Message::CloseThread];
    assert!(into_tasks(messages).is_none());
    assert!(into_tasks(Vec::new()).map(|v| v.is_empty()).unwrap_or(false));
}

#[test]
fn error_constructors() {
    assert!(matches!(
        TaskQueueError::illegal_start_threads(0, 3),
        TaskQueueError::IllegalStartThreads { min: 0, max: 3 }
    ));
    assert!(matches!(
        TaskQueueError::illegal_policy_threads(1, 3, 7),
        TaskQueueError::IllegalPolicyThreads { min: 1, max: 3, count: 7 }
    ));
    let io = std::io::Error::new(std::io::ErrorKind::Other, "no thread");
    match TaskQueueError::from(io) {
        TaskQueueError::Io(e) => assert_eq!(e.kind(), std::io::ErrorKind::Other),
        _ => panic!("not an io error"),
    }
}

#[test]
fn workers_take_two_oldest_tasks_at_most() {
    let counter = Arc::new(AtomicUsize::new(0));
    let mut shared = Shared::new();
    assert!(shared.take_batch().is_none());
    for i in 0..3 {
        shared.tasks.push(counting_task(&counter, 1 << i));
    }
    match shared.take_batch() {
        Some(ProviderResult::Tasks(v)) => {
            assert_eq!(v.len(), 2);
            v[0].run();
            assert_eq!(counter.load(Ordering::SeqCst), 1);
            v[1].run();
            assert_eq!(counter.load(Ordering::SeqCst), 3);
        }
        _ => panic!("no batch"),
    }
    match shared.take_batch() {
        Some(ProviderResult::Tasks(v)) => assert_eq!(v.len(), 1),
        _ => panic!("no batch"),
    }
    assert!(shared.take_batch().is_none());
}

#[test]
fn stopping_hands_back_waiting_tasks() {
    let counter = Arc::new(AtomicUsize::new(0));
    let mut shared = Shared::new();
    shared.tasks.push(counting_task(&counter, 1));
    shared.tasks.push(counting_task(&counter, 2));
    let rest = shared.stop_and_drain();
    assert_eq!(rest.len(), 2);
    assert!(shared.stop);
    assert!(matches!(shared.take_batch(), Some(ProviderResult::Stop)));
    for t in &rest {
        t.run();
    }
    assert_eq!(counter.load(Ordering::SeqCst), 3);
}

#[test]
fn only_tasks_count_as_pending_tasks() {
    let counter = Arc::new(AtomicUsize::new(0));
    let mut sender = task_queue::pipe::Sender::<Message>::new();
    let receiver = sender.create_receiver();
    assert_eq!(task_queue::pending_tasks(&sender), 0);
    sender.put_with_priority(Some(receiver.handle()), task_queue::pipe::Priority::High, Message::CloseThread);
    assert_eq!(task_queue::pending_tasks(&sender), 0);
    assert_eq!(sender.size(), 1);
    sender.put(Message::Task(counting_task(&counter, 1)));
    sender.put(Message::Task(counting_task(&counter, 1)));
    assert_eq!(task_queue::pending_tasks(&sender), 2);
    assert_eq!(sender.messages().len(), 3);
}

#[test]
fn not_completed_hands_back_pending_tasks_and_empties_the_queue() {
    let counter = Arc::new(AtomicUsize::new(0));
    let mut sender = task_queue::pipe::Sender::<Message>::new();
    sender.put(Message::Task(counting_task(&counter, 1)));
    sender.put(Message::Task(counting_task(&counter, 2)));
    let tasks = not_completed(&mut sender).expect("only tasks");
    assert_eq!(tasks.len(), 2);
    assert_eq!(sender.size(), 0);
    for t in &tasks {
        t.run();
    }
    assert_eq!(counter.load(Ordering::SeqCst), 3);

    let receiver = sender.create_receiver();
    sender.put_with_priority(Some(receiver.handle()), task_queue::pipe::Priority::Min, Message::CloseThread);
    assert!(not_completed(&mut sender).is_none());
    assert_eq!(sender.size(), 0);
}
