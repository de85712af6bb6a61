use topic_dump::pipeline::{new_queue, QUEUE_CAPACITY};
use topic_dump::queue::{BoundedQueue, Offer, Taken};
use topic_dump::record::{Batch, Record};

fn batch(offset: u64) -> Batch {
    Batch::new(vec![Record::new(0, offset, b"k".to_vec(), b"v".to_vec())])
}

#[test]
fn a_new_queue_is_open_and_empty() {
    let queue = BoundedQueue::new(3);
    assert_eq!(queue.capacity(), 3);
    assert_eq!(queue.len(), 0);
    assert!(!queue.is_closed());
}

#[test]
fn a_full_queue_refuses_a_batch_until_one_is_taken() {
    let mut queue = BoundedQueue::new(2);
    assert_eq!(queue.offer(batch(0)), Offer::Accepted);
    assert_eq!(queue.offer(batch(1)), Offer::Accepted);
    assert_eq!(queue.offer(batch(2)), Offer::Full(batch(2)));
    assert_eq!(queue.len(), 2);
    assert_eq!(queue.take(), Taken::Next(batch(0)));
    assert_eq!(queue.offer(batch(2)), Offer::Accepted);
    assert_eq!(queue.offer(batch(3)), Offer::Full(batch(3)));
}

#[test]
fn the_queue_of_a_run_takes_ten_batches_and_not_one_more() {
    assert_eq!(QUEUE_CAPACITY, 10);
    let mut queue = new_queue();
    assert_eq!(queue.capacity(), 10);
    for i in 0..10 {
        assert_eq!(queue.offer(batch(i)), Offer::Accepted);
    }
    assert_eq!(queue.offer(batch(10)), Offer::Full(batch(10)));
    assert_eq!(queue.take(), Taken::Next(batch(0)));
    assert_eq!(queue.offer(batch(10)), Offer::Accepted);
    assert_eq!(queue.len(), 10);
}

#[test]
fn batches_come_out_in_the_order_in_which_they_went_in() {
    let mut queue = BoundedQueue::new(4);
    for i in 0..4 {
        assert_eq!(queue.offer(batch(i)), Offer::Accepted);
    }
    for i in 0..4 {
        assert_eq!(queue.take(), Taken::Next(batch(i)));
    }
    assert_eq!(queue.take(), Taken::Empty);
}

#[test]
fn a_closed_queue_is_drained_and_then_finished() {
    let mut queue = BoundedQueue::new(4);
    assert_eq!(queue.offer(batch(0)), Offer::Accepted);
    assert_eq!(queue.offer(batch(1)), Offer::Accepted);
    queue.close();
    assert!(queue.is_closed());
    assert_eq!(queue.offer(batch(2)), Offer::Closed(batch(2)));
    assert_eq!(queue.take(), Taken::Next(batch(0)));
    assert_eq!(queue.take(), Taken::Next(batch(1)));
    assert_eq!(queue.take(), Taken::Finished);
    assert_eq!(queue.take(), Taken::Finished);
}

#[test]
fn an_open_empty_queue_says_that_more_may_come() {
    let mut queue = BoundedQueue::new(1);
    assert_eq!(queue.take(), Taken::Empty);
    assert_eq!(queue.len(), 0);
}

#[test]
fn a_queue_without_room_takes_nothing() {
    let mut queue = BoundedQueue::new(0);
    assert_eq!(queue.offer(batch(0)), Offer::Full(batch(0)));
    assert_eq!(queue.take(), Taken::Empty);
}
