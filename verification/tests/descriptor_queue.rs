//! The descriptor side channel: strict arrival order, exact consumption.

use x11rb::errors::ParseError;
use x11rb::fdqueue::{FdQueue, RawFdContainer};

#[test]
fn take_removes_exactly_the_first_k_in_order() {
    let mut q = FdQueue::new();
    q.enqueue(&vec![RawFdContainer(1), RawFdContainer(2), RawFdContainer(3)]);
    q.enqueue(&vec![RawFdContainer(4), RawFdContainer(5)]);
    let taken = q.take(2).unwrap();
    assert_eq!(taken, vec![RawFdContainer(1), RawFdContainer(2)]);
    // The remaining contents are unaffected by how many reads delivered
    // them: they are simply the rest, in arrival order.
    assert_eq!(q.len(), 3);
    let rest = q.take(3).unwrap();
    assert_eq!(rest, vec![RawFdContainer(3), RawFdContainer(4), RawFdContainer(5)]);
    assert_eq!(q.len(), 0);
}

#[test]
fn grouping_of_arrivals_does_not_matter() {
    let mut one_read = FdQueue::new();
    one_read.enqueue(&vec![
        RawFdContainer(1),
        RawFdContainer(2),
        RawFdContainer(3),
        RawFdContainer(4),
    ]);
    let mut three_reads = FdQueue::new();
    three_reads.enqueue(&vec![RawFdContainer(1)]);
    three_reads.enqueue(&vec![RawFdContainer(2), RawFdContainer(3)]);
    three_reads.enqueue(&vec![RawFdContainer(4)]);
    assert_eq!(one_read.take(3).unwrap(), three_reads.take(3).unwrap());
    assert_eq!(one_read.take(1).unwrap(), three_reads.take(1).unwrap());
}

#[test]
fn taking_more_than_available_fails_without_waiting() {
    let mut q = FdQueue::new();
    q.enqueue(&vec![RawFdContainer(7)]);
    let r = q.take(2);
    assert_eq!(r, Err(ParseError::ParseError));
    // The queue is untouched by the failed take.
    assert_eq!(q.len(), 1);
    assert_eq!(q.take(1).unwrap(), vec![RawFdContainer(7)]);
}

#[test]
fn take_zero_is_a_no_op() {
    let mut q = FdQueue::new();
    q.enqueue(&vec![RawFdContainer(9)]);
    assert_eq!(q.take(0).unwrap(), Vec::<RawFdContainer>::new());
    assert_eq!(q.len(), 1);
}
