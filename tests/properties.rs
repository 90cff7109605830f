use tiny_set_queue::{
    DenseIndex, MembershipMode, ProcessingOrder, PushResult, SetBacking, TinySetQueue,
    TinySetQueuePow2,
};

#[test]
fn second_push_of_a_value_is_a_no_op() {
    let mut buf = [0u16; 5];
    let mut membership = [false; 300];
    let mut queue = TinySetQueue::new(
        &mut buf,
        &mut membership,
        MembershipMode::InQueue,
        ProcessingOrder::Fifo,
    );
    for v in [7u16, 0, 299, 128] {
        let before = queue.len();
        assert_eq!(queue.push(v), Ok(PushResult::Inserted));
        assert_eq!(queue.push(v), Ok(PushResult::AlreadyPresent));
        assert_eq!(queue.len(), before + 1);
    }
}

#[test]
fn filling_past_capacity_hands_back_the_value() {
    let mut buf = [0usize; 6];
    let mut membership = [0u64; 2];
    let mut queue = TinySetQueue::new(
        &mut buf,
        &mut membership,
        MembershipMode::Visited,
        ProcessingOrder::Lifo,
    );
    let values = [5usize, 64, 127, 0, 63, 100, 31];
    for v in &values[..6] {
        assert_eq!(queue.push(*v), Ok(PushResult::Inserted));
    }
    assert_eq!(queue.push(values[6]), Err(31));
    assert_eq!(queue.len(), queue.capacity());
    assert!(queue.is_full());
}

#[test]
fn fifo_pops_in_push_order() {
    let mut buf = [0u8; 3];
    let mut membership = [false; 16];
    let mut queue = TinySetQueue::new(
        &mut buf,
        &mut membership,
        MembershipMode::InQueue,
        ProcessingOrder::Fifo,
    );
    assert_eq!(queue.push(9), Ok(PushResult::Inserted));
    assert_eq!(queue.push(4), Ok(PushResult::Inserted));
    assert_eq!(queue.push(15), Ok(PushResult::Inserted));
    assert_eq!(queue.pop(), Some(9));
    assert_eq!(queue.pop(), Some(4));
    assert_eq!(queue.pop(), Some(15));
    assert_eq!(queue.pop(), None);
}

#[test]
fn lifo_pops_newest_first_after_wraparound() {
    let mut buf = [0u8; 3];
    let mut membership = [false; 16];
    let mut queue = TinySetQueue::new(
        &mut buf,
        &mut membership,
        MembershipMode::InQueue,
        ProcessingOrder::Lifo,
    );
    assert_eq!(queue.push(1), Ok(PushResult::Inserted));
    assert_eq!(queue.pop(), Some(1));
    assert_eq!(queue.push(2), Ok(PushResult::Inserted));
    assert_eq!(queue.push(3), Ok(PushResult::Inserted));
    assert_eq!(queue.push(4), Ok(PushResult::Inserted));
    assert_eq!(queue.pop(), Some(4));
    assert_eq!(queue.pop(), Some(3));
    assert_eq!(queue.pop(), Some(2));
    assert!(queue.is_empty());
}

#[test]
fn visited_membership_lasts_until_clear() {
    let mut buf = [0u8; 2];
    let mut membership = [false; 8];
    let mut queue = TinySetQueue::new(
        &mut buf,
        &mut membership,
        MembershipMode::Visited,
        ProcessingOrder::Fifo,
    );
    assert_eq!(queue.push(3), Ok(PushResult::Inserted));
    assert_eq!(queue.pop(), Some(3));
    assert_eq!(queue.push(3), Ok(PushResult::AlreadyPresent));
    assert_eq!(queue.push(5), Ok(PushResult::Inserted));
    assert_eq!(queue.pop(), Some(5));
    assert_eq!(queue.pop(), None);
    assert_eq!(queue.push(3), Ok(PushResult::AlreadyPresent));
    assert!(queue.is_empty());
    queue.clear();
    assert_eq!(queue.push(3), Ok(PushResult::Inserted));
}

#[test]
fn clear_twice_resets_everything() {
    let mut buf = [0u8; 4];
    let mut membership = [0u64; 1];
    let mut queue = TinySetQueue::new(
        &mut buf,
        &mut membership,
        MembershipMode::Visited,
        ProcessingOrder::Lifo,
    );
    assert_eq!(queue.push(1), Ok(PushResult::Inserted));
    assert_eq!(queue.push(2), Ok(PushResult::Inserted));
    assert_eq!(queue.pop(), Some(2));
    queue.clear();
    queue.clear();
    assert_eq!(queue.len(), 0);
    assert!(queue.is_empty());
    assert_eq!(queue.pop(), None);
    assert_eq!(queue.push(2), Ok(PushResult::Inserted));
    assert_eq!(queue.push(1), Ok(PushResult::Inserted));
}

#[test]
fn zero_capacity_with_packed_backing() {
    let mut buf: [u16; 0] = [];
    let mut membership = [0u64; 1];
    let mut queue = TinySetQueue::new(
        &mut buf,
        &mut membership,
        MembershipMode::Visited,
        ProcessingOrder::Lifo,
    );
    assert!(queue.is_empty());
    assert!(queue.is_full());
    assert_eq!(queue.push(5), Err(5));
    assert_eq!(queue.push(500), Err(500));
    assert_eq!(queue.pop(), None);
    assert_eq!(queue.len(), 0);
}

#[test]
fn packed_words_split_at_the_boundary() {
    let mut words = [0u64; 2];
    assert_eq!(words.capacity(), 128);
    words.insert(63);
    assert!(words.contains(63));
    assert!(!words.contains(64));
    words.insert(64);
    assert!(words.contains(63));
    assert!(words.contains(64));
    assert!(!words.contains(62));
    assert!(!words.contains(65));
    assert_eq!(words, [1u64 << 63, 1]);
    words.remove(63);
    assert!(!words.contains(63));
    assert!(words.contains(64));
    words.clear_all();
    assert_eq!(words, [0, 0]);
}

#[test]
fn packed_slice_backing() {
    let mut words = [0u64; 3];
    {
        let slice: &mut [u64] = &mut words[..];
        assert_eq!(slice.capacity(), 192);
        slice.insert(130);
        slice.insert(0);
        assert!(SetBacking::contains(slice, 130));
        assert!(!SetBacking::contains(slice, 129));
        slice.remove(0);
        assert!(!SetBacking::contains(slice, 0));
    }
    assert_eq!(words, [0, 0, 1u64 << 2]);
}

#[test]
fn bool_slice_backing() {
    let mut flags = [true, false, true, true];
    {
        let slice: &mut [bool] = &mut flags[..];
        assert_eq!(slice.capacity(), 4);
        assert!(SetBacking::contains(slice, 0));
        slice.insert(1);
        slice.remove(2);
        assert!(SetBacking::contains(slice, 1));
        assert!(!SetBacking::contains(slice, 2));
    }
    assert_eq!(flags, [true, true, false, true]);
    flags.clear_all();
    assert_eq!(flags, [false; 4]);
}

#[test]
fn queue_over_slices() {
    let mut buf = [0u8; 3];
    let mut membership = [true; 10];
    let buf_slice: &mut [u8] = &mut buf[..];
    let member_slice: &mut [bool] = &mut membership[..];
    let mut queue = TinySetQueue::new(
        buf_slice,
        member_slice,
        MembershipMode::InQueue,
        ProcessingOrder::Fifo,
    );
    assert_eq!(queue.push(9), Ok(PushResult::Inserted));
    assert_eq!(queue.push(10), Err(10));
    assert_eq!(queue.pop(), Some(9));
    assert_eq!(queue.push(9), Ok(PushResult::Inserted));
}

#[test]
fn dense_index_of_integers() {
    assert_eq!(200u8.to_index(), 200);
    assert_eq!(60000u16.to_index(), 60000);
    assert_eq!(123456usize.to_index(), 123456);
}

#[derive(Debug, PartialEq)]
enum Outcome {
    Pushed(Result<PushResult, u8>),
    Popped(Option<u8>),
}

fn script() -> Vec<(bool, u8)> {
    // (true, v) pushes v, (false, _) pops.
    let mut ops = Vec::new();
    let mut seed: u32 = 12345;
    for _ in 0..200 {
        seed = seed.wrapping_mul(1103515245).wrapping_add(12345);
        let push = (seed >> 16) % 3 != 0;
        let value = ((seed >> 8) % 20) as u8;
        ops.push((push, value));
    }
    ops
}

fn run_modulo(cap: usize, mode: MembershipMode, order: ProcessingOrder) -> Vec<Outcome> {
    let mut buf = vec![0u8; cap];
    let mut membership = [false; 16];
    let mut queue = TinySetQueue::new(&mut buf[..], &mut membership, mode, order);
    let mut out = Vec::new();
    for (push, v) in script() {
        if push {
            out.push(Outcome::Pushed(queue.push(v)));
        } else {
            out.push(Outcome::Popped(queue.pop()));
        }
    }
    out
}

fn run_pow2(cap: usize, mode: MembershipMode, order: ProcessingOrder) -> Vec<Outcome> {
    let mut buf = vec![0u8; cap];
    let mut membership = [false; 16];
    let mut queue = TinySetQueuePow2::new(&mut buf[..], &mut membership, mode, order);
    let mut out = Vec::new();
    for (push, v) in script() {
        if push {
            out.push(Outcome::Pushed(queue.push(v)));
        } else {
            out.push(Outcome::Popped(queue.pop()));
        }
    }
    out
}

#[test]
fn pow2_matches_modulo_variant() {
    for cap in [1usize, 2, 4, 8] {
        for mode in [MembershipMode::InQueue, MembershipMode::Visited] {
            for order in [ProcessingOrder::Fifo, ProcessingOrder::Lifo] {
                assert_eq!(run_modulo(cap, mode, order), run_pow2(cap, mode, order));
            }
        }
    }
}

#[test]
fn pow2_rejects_out_of_range_and_full() {
    let mut buf = [0u8; 2];
    let mut membership = [false; 4];
    let mut queue = TinySetQueuePow2::new(
        &mut buf,
        &mut membership,
        MembershipMode::InQueue,
        ProcessingOrder::Fifo,
    );
    assert_eq!(queue.capacity(), 2);
    assert_eq!(queue.push(4), Err(4));
    assert_eq!(queue.push(0), Ok(PushResult::Inserted));
    assert_eq!(queue.push(1), Ok(PushResult::Inserted));
    assert!(queue.is_full());
    assert_eq!(queue.push(2), Err(2));
    assert_eq!(queue.len(), 2);
    queue.clear();
    assert!(queue.is_empty());
    assert_eq!(queue.push(1), Ok(PushResult::Inserted));
}
