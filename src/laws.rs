use vstd::prelude::*;

use crate::backing::no_members;
use crate::index::DenseIndex;
use crate::model::{MembershipMode, ProcessingOrder, PushResult, QueueModel, QueueOp};

verus! {

/// Offering a value twice in a row changes nothing the second time: the second
/// offer never inserts, and when the first one succeeded the second reports the
/// value as present, so a successful pair adds at most one pending value.
pub proof fn lemma_push_twice<T: DenseIndex>(m: QueueModel<T>, v: T)
    ensures
        m.push(v).0.push(v).0 == m.push(v).0,
        m.push(v).1 is Ok ==> m.push(v).0.push(v).1 == Ok::<PushResult, T>(
            PushResult::AlreadyPresent,
        ),
        m.push(v).0.push(v).0.items.len() <= m.items.len() + 1,
        m.push(v).1 == Ok::<PushResult, T>(PushResult::Inserted) ==> m.push(v).0.push(
            v,
        ).0.items.len() == m.items.len() + 1,
{
}

/// Offering distinct values, none a member yet, to an empty queue inserts the
/// first `n` of them while fewer than `capacity` are pending.
proof fn lemma_fill_prefix<T: DenseIndex>(m: QueueModel<T>, vs: Seq<T>, n: nat)
    requires
        m.items.len() == 0,
        n <= vs.len(),
        n <= m.capacity,
        forall|i: int|
            0 <= i < vs.len() ==> #[trigger] vs[i].dense_index() < m.members.len()
                && !m.members[vs[i].dense_index() as int],
        forall|i: int, j: int|
            0 <= i < j < vs.len() ==> #[trigger] vs[i].dense_index()
                != #[trigger] vs[j].dense_index(),
    ensures
        m.push_all(vs.take(n as int)).0.items == vs.take(n as int),
        m.push_all(vs.take(n as int)).0.capacity == m.capacity,
        m.push_all(vs.take(n as int)).0.members.len() == m.members.len(),
        forall|j: int|
            n <= j < vs.len() ==> !#[trigger] m.push_all(vs.take(n as int)).0.members[vs[j].dense_index() as int],
        m.push_all(vs.take(n as int)).1 == Seq::new(
            n,
            |i: int| Ok::<PushResult, T>(PushResult::Inserted),
        ),
    decreases n,
{
    if n == 0 {
        assert(vs.take(0) =~= Seq::<T>::empty());
        assert(Seq::new(0, |i: int| Ok::<PushResult, T>(PushResult::Inserted)) =~= Seq::<
            Result<PushResult, T>,
        >::empty());
    } else {
        lemma_fill_prefix(m, vs, (n - 1) as nat);
        let prefix = vs.take(n as int);
        assert(prefix.drop_last() =~= vs.take(n - 1));
        assert(prefix.last() == vs[n - 1]);
        let before = m.push_all(vs.take(n - 1)).0;
        let k = vs[n - 1].dense_index();
        assert(!before.members[k as int]);
        assert(m.push_all(prefix).0.items =~= vs.take(n as int));
        assert forall|j: int| n <= j < vs.len() implies !#[trigger] m.push_all(
            prefix,
        ).0.members[vs[j].dense_index() as int] by {
            assert(vs[n - 1].dense_index() != vs[j].dense_index());
        }
        assert(m.push_all(prefix).1 =~= Seq::new(
            n,
            |i: int| Ok::<PushResult, T>(PushResult::Inserted),
        ));
    }
}

/// Offering `capacity + 1` distinct values, none a member yet, to an empty
/// queue inserts the first `capacity` of them, refuses the last one by handing
/// it back, and leaves the queue full.
pub proof fn lemma_fill_then_overflow<T: DenseIndex>(m: QueueModel<T>, vs: Seq<T>)
    requires
        m.items.len() == 0,
        vs.len() == m.capacity + 1,
        forall|i: int|
            0 <= i < vs.len() ==> #[trigger] vs[i].dense_index() < m.members.len()
                && !m.members[vs[i].dense_index() as int],
        forall|i: int, j: int|
            0 <= i < j < vs.len() ==> #[trigger] vs[i].dense_index()
                != #[trigger] vs[j].dense_index(),
    ensures
        forall|i: int|
            0 <= i < m.capacity ==> #[trigger] m.push_all(vs).1[i] == Ok::<PushResult, T>(
                PushResult::Inserted,
            ),
        m.push_all(vs).1[m.capacity as int] == Err::<PushResult, T>(vs[m.capacity as int]),
        m.push_all(vs).0.items.len() == m.capacity,
{
    let cap = m.capacity;
    lemma_fill_prefix(m, vs, cap);
    assert(vs.drop_last() =~= vs.take(cap as int));
    let before = m.push_all(vs.take(cap as int)).0;
    assert(!before.members[vs[cap as int].dense_index() as int]);
}

/// Under `Fifo`, three values pushed into an empty queue, each inserted, come
/// out in the order they went in.
pub proof fn lemma_fifo_order<T: DenseIndex>(m: QueueModel<T>, a: T, b: T, c: T)
    requires
        m.order == ProcessingOrder::Fifo,
        m.items.len() == 0,
        m.push(a).1 == Ok::<PushResult, T>(PushResult::Inserted),
        m.push(a).0.push(b).1 == Ok::<PushResult, T>(PushResult::Inserted),
        m.push(a).0.push(b).0.push(c).1 == Ok::<PushResult, T>(PushResult::Inserted),
    ensures
        ({
            let full = m.push(a).0.push(b).0.push(c).0;
            &&& full.pop().1 == Some(a)
            &&& full.pop().0.pop().1 == Some(b)
            &&& full.pop().0.pop().0.pop().1 == Some(c)
            &&& full.pop().0.pop().0.pop().0.items.len() == 0
        }),
{
    let full = m.push(a).0.push(b).0.push(c).0;
    assert(full.items =~= seq![a, b, c]);
    assert(full.pop().0.items =~= seq![b, c]);
    assert(full.pop().0.pop().0.items =~= seq![c]);
}

/// Under `Lifo`, three values pushed in a row, each inserted, come out newest
/// first, whatever was pending before them.
pub proof fn lemma_lifo_order<T: DenseIndex>(m: QueueModel<T>, a: T, b: T, c: T)
    requires
        m.order == ProcessingOrder::Lifo,
        m.push(a).1 == Ok::<PushResult, T>(PushResult::Inserted),
        m.push(a).0.push(b).1 == Ok::<PushResult, T>(PushResult::Inserted),
        m.push(a).0.push(b).0.push(c).1 == Ok::<PushResult, T>(PushResult::Inserted),
    ensures
        ({
            let full = m.push(a).0.push(b).0.push(c).0;
            &&& full.pop().1 == Some(c)
            &&& full.pop().0.pop().1 == Some(b)
            &&& full.pop().0.pop().0.pop().1 == Some(a)
            &&& full.pop().0.pop().0.pop().0.items == m.items
        }),
{
    let full = m.push(a).0.push(b).0.push(c).0;
    assert(full.items =~= m.items.push(a).push(b).push(c));
    assert(full.pop().0.items =~= m.items.push(a).push(b));
    assert(full.pop().0.pop().0.items =~= m.items.push(a));
    assert(full.pop().0.pop().0.pop().0.items =~= m.items);
}

/// Under `InQueue`, a popped value can be pushed again at once.
pub proof fn lemma_in_queue_requeue<T: DenseIndex>(m: QueueModel<T>)
    requires
        m.valid(),
        m.mode == MembershipMode::InQueue,
        m.items.len() > 0,
    ensures
        m.pop().1 == Some(m.next()),
        m.pop().0.push(m.next()).1 == Ok::<PushResult, T>(PushResult::Inserted),
{
    let v = m.next();
    let i = if m.order == ProcessingOrder::Fifo {
        0
    } else {
        m.items.len() - 1
    };
    assert(v == m.items[i]);
    assert(v.dense_index() < m.members.len());
}

/// Under `Visited`, pushes and pops never clear a membership flag.
pub proof fn lemma_visited_members_persist<T: DenseIndex>(m: QueueModel<T>, ops: Seq<QueueOp<T>>)
    requires
        m.mode == MembershipMode::Visited,
    ensures
        m.run(ops).mode == MembershipMode::Visited,
        m.run(ops).members.len() == m.members.len(),
        forall|k: int| 0 <= k < m.members.len() && m.members[k] ==> #[trigger] m.run(ops).members[k],
    decreases ops.len(),
{
    if ops.len() > 0 {
        lemma_visited_members_persist(m, ops.drop_last());
    }
}

/// Under `Visited`, once a value has been popped, every later push of it finds
/// it present, whatever pushes and pops come between, until the queue is cleared.
pub proof fn lemma_visited_no_requeue<T: DenseIndex>(
    m: QueueModel<T>,
    ops: Seq<QueueOp<T>>,
)
    requires
        m.valid(),
        m.mode == MembershipMode::Visited,
        m.items.len() > 0,
    ensures
        m.pop().1 == Some(m.next()),
        m.pop().0.run(ops).push(m.next()).1 == Ok::<PushResult, T>(PushResult::AlreadyPresent),
{
    let v = m.next();
    let i = if m.order == ProcessingOrder::Fifo {
        0
    } else {
        m.items.len() - 1
    };
    assert(v == m.items[i]);
    lemma_visited_members_persist(m.pop().0, ops);
}

/// Clearing empties the queue and drops every membership flag, whatever the
/// mode and order; clearing again changes nothing.
pub proof fn lemma_clear_idempotent<T: DenseIndex>(m: QueueModel<T>)
    ensures
        m.cleared().cleared() == m.cleared(),
        m.cleared().items.len() == 0,
        m.cleared().members == no_members(m.members.len()),
        m.cleared().valid(),
        m.cleared().mode == m.mode,
        m.cleared().order == m.order,
        m.cleared().capacity == m.capacity,
{
}

/// A queue that can hold nothing and whose domain has no member is both empty
/// and full, refuses every value by handing it back, and pops nothing; neither
/// operation changes it.
pub proof fn lemma_zero_capacity<T: DenseIndex>(m: QueueModel<T>, v: T)
    requires
        m.valid(),
        m.capacity == 0,
        m.members == no_members(m.members.len()),
    ensures
        m.items.len() == 0,
        m.is_full(),
        m.push(v) == (m, Err::<PushResult, T>(v)),
        m.pop() == (m, None::<T>),
{
}

/// Pushes and pops keep a valid state valid, and clearing gives a valid state.
pub proof fn lemma_operations_keep_valid<T: DenseIndex>(m: QueueModel<T>, v: T)
    requires
        m.valid(),
    ensures
        m.push(v).0.valid(),
        m.pop().0.valid(),
        m.cleared().valid(),
{
    if m.items.len() > 0 {
        let i = if m.order == ProcessingOrder::Fifo {
            0
        } else {
            m.items.len() - 1
        };
        assert(m.next() == m.items[i]);
    }
}

} // verus!
