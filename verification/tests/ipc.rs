use genos::abi::UserChannelMessage;
use genos::ipc::ChannelQueue;

fn message(sender_pid: u64, value: u64) -> UserChannelMessage {
    UserChannelMessage { sender_pid, value }
}

#[test]
fn queue_is_fifo_and_rejects_overflow() {
    let mut queue = ChannelQueue::<2>::new();
    assert!(queue.is_empty());
    assert!(queue.push(message(1, 10)));
    assert!(queue.push(message(2, 20)));
    assert!(!queue.push(message(3, 30)));
    assert_eq!(queue.len(), 2);
    assert_eq!(queue.pop(), Some(message(1, 10)));
    assert_eq!(queue.pop(), Some(message(2, 20)));
    assert_eq!(queue.pop(), None);
}

#[test]
fn queue_reuses_slots_after_wraparound() {
    let mut queue = ChannelQueue::<3>::new();
    assert!(queue.push(message(1, 1)));
    assert!(queue.push(message(2, 2)));
    assert_eq!(queue.pop(), Some(message(1, 1)));
    assert!(queue.push(message(3, 3)));
    assert!(queue.push(message(1, 4)));
    assert_eq!(queue.pop(), Some(message(2, 2)));
    assert_eq!(queue.pop(), Some(message(3, 3)));
    assert_eq!(queue.pop(), Some(message(1, 4)));
    assert!(queue.is_empty());
}

#[test]
fn queue_rejects_a_second_message_from_the_same_sender() {
    let mut queue = ChannelQueue::<4>::new();
    assert!(queue.push(message(5, 1)));
    assert!(!queue.push(message(5, 2)));
    assert!(queue.push(message(6, 3)));
    assert!(!queue.push(message(6, 4)));
    assert_eq!(queue.len(), 2);
    assert!(queue.contains_sender(5));
    assert!(!queue.contains_sender(7));
}

#[test]
fn sender_is_admitted_again_once_its_message_is_popped() {
    let mut queue = ChannelQueue::<4>::new();
    assert!(queue.push(message(5, 1)));
    assert!(queue.push(message(6, 2)));
    assert!(!queue.push(message(5, 3)));
    assert_eq!(queue.pop(), Some(message(5, 1)));
    assert!(!queue.contains_sender(5));
    assert!(queue.push(message(5, 3)));
    assert_eq!(queue.pop(), Some(message(6, 2)));
    assert_eq!(queue.pop(), Some(message(5, 3)));
}

#[test]
fn zero_capacity_queue_refuses_everything() {
    let mut queue: ChannelQueue<0> = ChannelQueue::default();
    assert!(!queue.push(message(1, 1)));
    assert_eq!(queue.pop(), None);
}

#[test]
fn empty_message_is_zero() {
    assert_eq!(UserChannelMessage::empty(), message(0, 0));
}
