use task_queue::pipe::Priority;
use task_queue::pipe::ReceiverHandle;
use task_queue::pipe::Sender;
use task_queue::pipe::Wake;

#[test]
fn test_one_thread() {
    let mut sender = Sender::<i32>::new();

    let receiver_one = sender.create_receiver();
    let receiver_two = sender.create_receiver();

    sender.put(10);
    let result_one = receiver_one.get(&mut sender).unwrap();
    assert_eq!(result_one, 10);

    sender.put(20);
    let result_two = receiver_two.get(&mut sender).unwrap();
    assert_eq!(result_two, 20);
}

#[test]
fn test_cancel() {
    let mut sender = Sender::<i32>::new();

    for _ in 0..10 {
        sender.put(1);
    }

    let receiver = sender.create_receiver();

    let mut sum = 0;
    for _ in 0..5 {
        sum += receiver.get(&mut sender).unwrap();
    }

    let cancelled = sender.cancel_all();

    for num in cancelled {
        sum += num;
    }

    assert_eq!(sum, 10);
}

#[test]
fn test_put_for_priority() {
    let mut sender = Sender::<i32>::new();
    let receiver = sender.create_receiver();
    let receiver_handle = receiver.handle();

    for i in 0..10 {
        sender.put(i);
    }
    sender.put_with_priority(Some(receiver_handle), Priority::High, 300);

    assert_eq!(300, receiver.get(&mut sender).unwrap());
    for i in 0..10 {
        assert_eq!(i, receiver.get(&mut sender).unwrap());
    }
}

#[test]
fn targeted_messages_reach_only_their_receiver() {
    let mut sender = Sender::<i32>::new();
    let one = sender.create_receiver();
    let two = sender.create_receiver();
    assert_ne!(one.handle(), two.handle());
    assert_eq!(one.handle().id(), 0);
    assert_eq!(two.handle().id(), 1);

    sender.put_with_priority(Some(two.handle()), Priority::Normal, 7);
    assert_eq!(one.get(&mut sender), None);
    assert_eq!(sender.size(), 1);
    assert_eq!(two.get(&mut sender), Some(7));
    assert_eq!(sender.size(), 0);
}

#[test]
fn min_priority_comes_after_every_task() {
    let mut sender = Sender::<i32>::new();
    let receiver = sender.create_receiver();
    sender.put(1);
    sender.put_with_priority(Some(receiver.handle()), Priority::Min, -1);
    sender.put(2);
    sender.put(3);
    assert_eq!(receiver.get(&mut sender), Some(1));
    assert_eq!(receiver.get(&mut sender), Some(2));
    assert_eq!(receiver.get(&mut sender), Some(3));
    assert_eq!(receiver.get(&mut sender), Some(-1));
    assert_eq!(receiver.get(&mut sender), None);
}

#[test]
fn high_priority_overtakes_and_ties_keep_order() {
    let mut sender = Sender::<i32>::new();
    let receiver = sender.create_receiver();
    sender.put(1);
    sender.put_with_priority(None, Priority::High, 10);
    sender.put_with_priority(None, Priority::High, 11);
    sender.put(2);
    assert_eq!(receiver.get(&mut sender), Some(10));
    assert_eq!(receiver.get(&mut sender), Some(11));
    assert_eq!(receiver.get(&mut sender), Some(1));
    assert_eq!(receiver.get(&mut sender), Some(2));
}

#[test]
fn put_tells_whom_to_wake() {
    let mut sender = Sender::<i32>::new();
    let receiver = sender.create_receiver();
    assert_eq!(sender.put(1), Wake::One);
    assert_eq!(sender.put_with_priority(None, Priority::High, 2), Wake::One);
    assert_eq!(
        sender.put_with_priority(Some(receiver.handle()), Priority::Normal, 3),
        Wake::All
    );
}

#[test]
fn cancel_all_returns_pending_in_order_and_empties() {
    let mut sender = Sender::<i32>::new();
    let receiver = sender.create_receiver();
    sender.put(5);
    sender.put_with_priority(Some(receiver.handle()), Priority::High, 6);
    sender.put_with_priority(None, Priority::Min, 7);
    assert_eq!(sender.cancel_all(), vec![5, 6, 7]);
    assert_eq!(sender.size(), 0);
    assert_eq!(receiver.get(&mut sender), None);
    assert_eq!(sender.cancel_all(), Vec::<i32>::new());
}

#[test]
fn next_handle_announces_the_coming_receiver() {
    let mut sender = Sender::<u8>::new();
    assert_eq!(sender.next_handle().id(), 0);
    let coming: ReceiverHandle = sender.next_handle();
    let receiver = sender.create_receiver();
    assert_eq!(receiver.handle(), coming);
    assert_eq!(sender.next_handle().id(), 1);
}

#[test]
fn priority_levels() {
    assert_eq!(Priority::Min.level(), -1);
    assert_eq!(Priority::Normal.level(), 0);
    assert_eq!(Priority::High.level(), 1);
    assert!(Priority::Min < Priority::Normal);
    assert!(Priority::Normal < Priority::High);
}

#[test]
fn test_several_threads() {
    let mut sum = 0;
    let mut sender = Sender::<i32>::new();
    let mut receivers = Vec::new();

    for _ in 0..10 {
        sender.put(1);
    }

    for _ in 0..10 {
        receivers.push(sender.create_receiver());
    }

    for receiver in &receivers {
        sum += receiver.get(&mut sender).unwrap();
    }
    assert_eq!(sum, 10);
}

#[test]
fn test_put_for() {
    let mut sender = Sender::<i32>::new();
    let mut handles = Vec::<ReceiverHandle>::new();
    let mut receivers = Vec::new();

    for _ in 0..10 {
        let receiver = sender.create_receiver();
        handles.push(receiver.handle());
        receivers.push(receiver);
    }

    let mut value: i32 = 0;
    for handle in handles {
        sender.put_with_priority(Some(handle), Priority::Normal, value);
        value += 1;
    }

    for (i, receiver) in receivers.iter().enumerate().rev() {
        assert_eq!(receiver.get(&mut sender), Some(i as i32));
    }
}

#[test]
fn handles_have_a_text_form() {
    let mut sender = Sender::<u8>::new();
    let mut last = String::new();
    for _ in 0..12 {
        last = sender.create_receiver().handle().to_string();
    }
    assert_eq!(last, "Receiver handle: 11");
    let mut other = Sender::<u8>::new();
    assert_eq!(other.create_receiver().handle().to_string(), "Receiver handle: 0");
}
