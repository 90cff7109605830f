use vstd::prelude::*;

use crate::backing::{no_members, SetBacking};
use crate::index::DenseIndex;
use crate::model::{MembershipMode, ProcessingOrder, PushResult, QueueModel};

verus! {

/// Position `i` of a ring of `cap` slots whose first slot is `head`.
pub open spec fn ring_slot(head: int, i: int, cap: int) -> int {
    (head + i) % cap
}

/// Below twice the modulus, the remainder takes the modulus off at most once.
pub proof fn lemma_mod_below_twice(m: int)
    requires
        m > 0,
    ensures
        forall|x: int| 0 <= x < 2 * m ==> #[trigger] (x % m) == if x < m { x } else { x - m },
{
    assert forall|x: int| 0 <= x < 2 * m implies #[trigger] (x % m) == if x < m {
        x
    } else {
        x - m
    } by {
        if x < m {
            vstd::arithmetic::div_mod::lemma_small_mod(x as nat, m as nat);
        } else {
            vstd::arithmetic::div_mod::lemma_small_mod((x - m) as nat, m as nat);
            vstd::arithmetic::div_mod::lemma_mod_sub_multiples_vanish(x, m);
        }
    }
}

/// A fixed-capacity queue over caller storage that refuses values whose index
/// is already a member.
///
/// Wraparound uses the remainder by the buffer's length, so any length works.
pub struct TinySetQueue<'a, T, S: SetBacking + ?Sized> {
    buf: &'a mut [T],
    in_queue: &'a mut S,
    mode: MembershipMode,
    order: ProcessingOrder,
    head: usize,
    tail: usize,
    len: usize,
}

impl<'a, T, S: SetBacking + ?Sized> View for TinySetQueue<'a, T, S> {
    type V = QueueModel<T>;

    closed spec fn view(&self) -> QueueModel<T> {
        let cap = self.buf@.len();
        QueueModel {
            items: Seq::new(
                self.len as nat,
                |i: int| self.buf@[ring_slot(self.head as int, i, cap as int)],
            ),
            members: self.in_queue.members(),
            capacity: cap,
            mode: self.mode,
            order: self.order,
        }
    }
}

impl<'a, T: DenseIndex, S: SetBacking + ?Sized> TinySetQueue<'a, T, S> {
    /// The positions agree with the abstract state, which is valid.
    pub closed spec fn wf(&self) -> bool {
        let cap = self.buf@.len();
        &&& self.len <= cap
        &&& cap == 0 ==> self.head == 0 && self.tail == 0
        &&& cap > 0 ==> self.head < cap && self.tail == ring_slot(
            self.head as int,
            self.len as int,
            cap as int,
        )
        &&& self.in_queue.members().len() <= usize::MAX
        &&& self@.valid()
    }

    /// Builds an empty queue over `buf` and `in_queue`, clearing every
    /// membership flag first.
    pub fn new(
        buf: &'a mut [T],
        in_queue: &'a mut S,
        mode: MembershipMode,
        order: ProcessingOrder,
    ) -> (r: Self)
        requires
            old(in_queue).members().len() <= usize::MAX,
        ensures
            r.wf(),
            r@ == QueueModel::<T>::fresh(
                no_members(old(in_queue).members().len()),
                old(buf)@.len(),
                mode,
                order,
            ),
    {
        in_queue.clear_all();
        let r = TinySetQueue { buf, in_queue, mode, order, head: 0, tail: 0, len: 0 };
        assert(r@.items =~= Seq::<T>::empty());
        proof {
            if r.buf@.len() > 0 {
                lemma_mod_below_twice(r.buf@.len() as int);
            }
        }
        r
    }

    /// Builds an empty queue over `buf` and `in_queue`, keeping the membership
    /// flags that `in_queue` already holds.
    pub fn new_keep_membership(
        buf: &'a mut [T],
        in_queue: &'a mut S,
        mode: MembershipMode,
        order: ProcessingOrder,
    ) -> (r: Self)
        requires
            old(in_queue).members().len() <= usize::MAX,
        ensures
            r.wf(),
            r@ == QueueModel::<T>::fresh(old(in_queue).members(), old(buf)@.len(), mode, order),
    {
        let r = TinySetQueue { buf, in_queue, mode, order, head: 0, tail: 0, len: 0 };
        assert(r@.items =~= Seq::<T>::empty());
        proof {
            if r.buf@.len() > 0 {
                lemma_mod_below_twice(r.buf@.len() as int);
            }
        }
        r
    }

    /// Empties the queue and clears every membership flag; the buffer's slots
    /// are left as they are.
    pub fn clear(&mut self)
        requires
            old(self).wf(),
        ensures
            final(self).wf(),
            final(self)@ == old(self)@.cleared(),
    {
        self.in_queue.clear_all();
        self.head = 0;
        self.tail = 0;
        self.len = 0;
        assert(self@.items =~= Seq::<T>::empty());
        proof {
            if self.buf@.len() > 0 {
                lemma_mod_below_twice(self.buf@.len() as int);
            }
        }
    }

    /// How many values can be pending at once: the buffer's length.
    pub fn capacity(&self) -> (r: usize)
        ensures
            r == self@.capacity,
    {
        self.buf.len()
    }

    /// How many values are pending.
    pub fn len(&self) -> (r: usize)
        ensures
            r == self@.items.len(),
    {
        self.len
    }

    /// Whether no value is pending.
    pub fn is_empty(&self) -> (r: bool)
        ensures
            r == (self@.items.len() == 0),
    {
        self.len == 0
    }

    /// Whether as many values are pending as the buffer holds.
    pub fn is_full(&self) -> (r: bool)
        ensures
            r == (self@.items.len() == self@.capacity),
    {
        self.len == self.buf.len()
    }
    /// Offers `value`.
    ///
    /// Returns `Err(value)` when its index lies outside the membership domain,
    /// `Ok(AlreadyPresent)` when the index is already a member, `Err(value)`
    /// when the queue is full, and otherwise stores it and returns
    /// `Ok(Inserted)`.
    pub fn push(&mut self, value: T) -> (r: Result<PushResult, T>)
        requires
            old(self).wf(),
        ensures
            final(self).wf(),
            (final(self)@, r) == old(self)@.push(value),
    {
        let idx = value.to_index();
        if idx >= self.in_queue.capacity() {
            return Err(value);
        }
        if self.in_queue.contains(idx) {
            return Ok(PushResult::AlreadyPresent);
        }
        if self.is_full() {
            return Err(value);
        }
        let ghost pre = self@;
        let cap = self.buf.len();
        proof {
            lemma_mod_below_twice(cap as int);
        }
        self.buf[self.tail] = value;
        self.in_queue.insert(idx);
        self.tail = (self.tail + 1) % cap;
        self.len = self.len + 1;
        assert(self@.items =~= pre.items.push(value));
        Ok(PushResult::Inserted)
    }

    /// Takes the oldest pending value under `Fifo`, the newest under `Lifo`,
    /// and returns `None` when nothing is pending.
    ///
    /// Under `InQueue` the value's index stops being a member; under `Visited`
    /// it stays one.
    pub fn pop(&mut self) -> (r: Option<T>)
        requires
            old(self).wf(),
        ensures
            final(self).wf(),
            (final(self)@, r) == old(self)@.pop(),
    {
        if self.is_empty() {
            return None;
        }
        let ghost pre = self@;
        let cap = self.buf.len();
        proof {
            lemma_mod_below_twice(cap as int);
        }
        let slot = match self.order {
            ProcessingOrder::Fifo => {
                let slot = self.head;
                self.head = (self.head + 1) % cap;
                slot
            },
            ProcessingOrder::Lifo => {
                let slot = if self.tail == 0 {
                    cap - 1
                } else {
                    self.tail - 1
                };
                self.tail = slot;
                slot
            },
        };
        let value = self.buf[slot];
        assert(value == pre.next());
        let idx = value.to_index();
        match self.mode {
            MembershipMode::InQueue => self.in_queue.remove(idx),
            MembershipMode::Visited => {},
        }
        self.len = self.len - 1;
        proof {
            match pre.order {
                ProcessingOrder::Fifo => {
                    assert(self@.items =~= pre.items.drop_first());
                },
                ProcessingOrder::Lifo => {
                    assert(self@.items =~= pre.items.drop_last());
                },
            }
        }
        Some(value)
    }
}

} // verus!
