use tiny_set_queue::{MembershipMode, ProcessingOrder, PushResult, TinySetQueuePow2};

#[test]
fn push_pop_wraparound_uses_mask() {
    let mut buf = [0u8; 4];
    let mut membership = [false; 8];
    let mut queue = TinySetQueuePow2::new(
        &mut buf,
        &mut membership,
        MembershipMode::InQueue,
        ProcessingOrder::Fifo,
    );

    assert_eq!(queue.push(0), Ok(PushResult::Inserted));
    assert_eq!(queue.push(1), Ok(PushResult::Inserted));
    assert_eq!(queue.push(2), Ok(PushResult::Inserted));
    assert_eq!(queue.push(3), Ok(PushResult::Inserted));
    assert!(queue.is_full());

    assert_eq!(queue.pop(), Some(0));
    assert_eq!(queue.push(0), Ok(PushResult::Inserted));
    assert_eq!(queue.pop(), Some(1));
    assert_eq!(queue.pop(), Some(2));
    assert_eq!(queue.pop(), Some(3));
    assert_eq!(queue.pop(), Some(0));
    assert!(queue.is_empty());
}

#[test]
fn pow2_lifo_order_uses_tail() {
    let mut buf = [0u8; 4];
    let mut membership = [false; 32];
    let mut queue = TinySetQueuePow2::new(
        &mut buf,
        &mut membership,
        MembershipMode::InQueue,
        ProcessingOrder::Lifo,
    );

    assert_eq!(queue.push(10), Ok(PushResult::Inserted));
    assert_eq!(queue.push(11), Ok(PushResult::Inserted));
    assert_eq!(queue.push(12), Ok(PushResult::Inserted));

    assert_eq!(queue.pop(), Some(12));
    assert_eq!(queue.pop(), Some(11));
    assert_eq!(queue.pop(), Some(10));
    assert!(queue.is_empty());
    assert_eq!(queue.push(10), Ok(PushResult::Inserted));
}

#[test]
fn pow2_supports_bitset_backing() {
    let mut buf = [0u8; 4];
    let mut membership = [0u64; 1];
    let mut queue = TinySetQueuePow2::new(
        &mut buf,
        &mut membership,
        MembershipMode::InQueue,
        ProcessingOrder::Fifo,
    );

    assert_eq!(queue.push(1), Ok(PushResult::Inserted));
    assert_eq!(queue.push(17), Ok(PushResult::Inserted));
    assert_eq!(queue.pop(), Some(1));
    assert_eq!(queue.push(1), Ok(PushResult::Inserted));
}

#[test]
fn try_new_rejects_non_power_of_two() {
    let mut buf = [0u8; 3];
    let mut membership = [true; 8];
    let queue = TinySetQueuePow2::try_new(
        &mut buf,
        &mut membership,
        MembershipMode::InQueue,
        ProcessingOrder::Fifo,
    );
    assert!(queue.is_none());
    assert_eq!(membership, [true; 8]);

    let mut empty: [u8; 0] = [];
    let mut flags = [false; 2];
    assert!(TinySetQueuePow2::try_new(
        &mut empty,
        &mut flags,
        MembershipMode::InQueue,
        ProcessingOrder::Fifo,
    )
    .is_none());
}

#[test]
fn try_new_accepts_power_of_two() {
    let mut buf = [0u8; 8];
    let mut membership = [true; 8];
    let mut queue = TinySetQueuePow2::try_new(
        &mut buf,
        &mut membership,
        MembershipMode::Visited,
        ProcessingOrder::Lifo,
    )
    .unwrap();
    assert_eq!(queue.capacity(), 8);
    assert_eq!(queue.push(7), Ok(PushResult::Inserted));
    assert_eq!(queue.push(6), Ok(PushResult::Inserted));
    assert_eq!(queue.pop(), Some(6));
    assert_eq!(queue.push(6), Ok(PushResult::AlreadyPresent));
}
