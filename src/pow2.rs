use vstd::arithmetic::power2::pow2;
use vstd::prelude::*;

use crate::backing::{no_members, SetBacking};
use crate::index::DenseIndex;
use crate::model::{MembershipMode, ProcessingOrder, PushResult, QueueModel};
use crate::queue::{lemma_mod_below_twice, ring_slot};

verus! {

/// Whether `n` is two raised to a power below the width of `usize`.
pub open spec fn is_power_of_two(n: nat) -> bool {
    exists|k: nat| k < usize::BITS && pow2(k) == n
}

/// With a power-of-two length, masking by `length - 1` steps around the ring
/// exactly as the remainder does: one forward from `i` and one back from `i`.
pub proof fn lemma_mask_steps_like_remainder(i: usize, cap: nat)
    requires
        is_power_of_two(cap),
        i < cap,
    ensures
        cap <= usize::MAX,
        ((i + 1) as usize) & ((cap - 1) as usize) == (i + 1) % (cap as int),
        i.wrapping_sub(1) & ((cap - 1) as usize) == if i == 0 {
            cap - 1
        } else {
            i - 1
        },
{
    let k = choose|k: nat| k < usize::BITS && pow2(k) == cap;
    vstd::bits::lemma_usize_pow2_no_overflow(k);
    vstd::bits::lemma_usize_low_bits_mask_is_mod((i + 1) as usize, k);
    let m = (cap - 1) as usize;
    if i == 0 {
        // `i - 1` wraps to `usize::MAX`, which is one less than a multiple of `cap`.
        let x = i.wrapping_sub(1);
        let rest = (usize::BITS - k) as nat;
        vstd::bits::lemma_usize_low_bits_mask_is_mod(x, k);
        vstd::arithmetic::power2::lemma_pow2_adds(k, rest);
        vstd::arithmetic::power2::lemma_pow2_pos(rest);
        vstd::arithmetic::power2::lemma2_to64();
        vstd::arithmetic::power2::lemma2_to64_rest();
        assert(x + 1 == pow2(usize::BITS as nat));
        assert(x == cap * (pow2(rest) - 1) + (cap - 1)) by (nonlinear_arith)
            requires
                x + 1 == cap * pow2(rest),
        ;
        vstd::arithmetic::div_mod::lemma_mod_multiples_vanish(
            pow2(rest) - 1,
            cap - 1,
            cap as int,
        );
        vstd::arithmetic::div_mod::lemma_small_mod((cap - 1) as nat, cap);
    } else {
        vstd::bits::lemma_usize_low_bits_mask_is_mod((i - 1) as usize, k);
        vstd::arithmetic::div_mod::lemma_small_mod((i - 1) as nat, cap);
    }
}

/// Whether `n` is a power of two, found by comparing it with each power of two
/// that a `usize` holds.
fn check_power_of_two(n: usize) -> (r: bool)
    ensures
        r == is_power_of_two(n as nat),
{
    let mut k: usize = 0;
    while k < usize::BITS as usize
        invariant
            k <= usize::BITS,
            forall|j: nat| j < k ==> pow2(j) != n,
        decreases usize::BITS - k,
    {
        proof {
            vstd::bits::lemma_usize_pow2_no_overflow(k as nat);
            vstd::bits::lemma_usize_shl_is_mul(1, k);
        }
        if (1usize << k) == n {
            return true;
        }
        k = k + 1;
    }
    false
}

/// The same queue as `TinySetQueue` for a buffer whose length is a power of
/// two: wraparound masks by `length - 1` instead of taking a remainder.
pub struct TinySetQueuePow2<'a, T, S: SetBacking + ?Sized> {
    buf: &'a mut [T],
    in_queue: &'a mut S,
    mode: MembershipMode,
    order: ProcessingOrder,
    mask: usize,
    head: usize,
    tail: usize,
    len: usize,
}

impl<'a, T, S: SetBacking + ?Sized> View for TinySetQueuePow2<'a, T, S> {
    type V = QueueModel<T>;

    closed spec fn view(&self) -> QueueModel<T> {
        let cap = self.buf@.len();
        QueueModel {
            items: Seq::new(
                self.len as nat,
                |i: int| self.buf@[ring_slot(self.head as int, i, cap as int)],
            ),
            members: self.in_queue.members(),
            capacity: cap,
            mode: self.mode,
            order: self.order,
        }
    }
}

impl<'a, T: DenseIndex, S: SetBacking + ?Sized> TinySetQueuePow2<'a, T, S> {
    /// The buffer's length is a power of two, `mask` is one less, and the
    /// positions agree with the abstract state, which is valid.
    pub closed spec fn wf(&self) -> bool {
        let cap = self.buf@.len();
        &&& is_power_of_two(cap)
        &&& self.mask == cap - 1
        &&& self.len <= cap
        &&& self.head < cap
        &&& self.tail == ring_slot(self.head as int, self.len as int, cap as int)
        &&& self.in_queue.members().len() <= usize::MAX
        &&& self@.valid()
    }

    /// Builds an empty queue over `buf`, whose length must be a power of two,
    /// and `in_queue`, clearing every membership flag first.
    pub fn new(
        buf: &'a mut [T],
        in_queue: &'a mut S,
        mode: MembershipMode,
        order: ProcessingOrder,
    ) -> (r: Self)
        requires
            is_power_of_two(old(buf)@.len()),
            old(in_queue).members().len() <= usize::MAX,
        ensures
            r.wf(),
            r@ == QueueModel::<T>::fresh(
                no_members(old(in_queue).members().len()),
                old(buf)@.len(),
                mode,
                order,
            ),
    {
        proof {
            let k = choose|k: nat| k < usize::BITS && pow2(k) == buf@.len();
            vstd::arithmetic::power2::lemma_pow2_pos(k);
        }
        in_queue.clear_all();
        let mask = buf.len() - 1;
        let r = TinySetQueuePow2 { buf, in_queue, mode, order, mask, head: 0, tail: 0, len: 0 };
        assert(r@.items =~= Seq::<T>::empty());
        proof {
            lemma_mod_below_twice(r.buf@.len() as int);
        }
        r
    }

    /// Builds the queue as `new` does when the length of `buf` is a power of
    /// two, and returns `None`, touching nothing, when it is not.
    pub fn try_new(
        buf: &'a mut [T],
        in_queue: &'a mut S,
        mode: MembershipMode,
        order: ProcessingOrder,
    ) -> (r: Option<Self>)
        requires
            old(in_queue).members().len() <= usize::MAX,
        ensures
            r is Some <==> is_power_of_two(old(buf)@.len()),
            r is None ==> final(buf)@ == old(buf)@ && final(in_queue).members() == old(
                in_queue,
            ).members(),
            r matches Some(q) ==> q.wf() && q@ == QueueModel::<T>::fresh(
                no_members(old(in_queue).members().len()),
                old(buf)@.len(),
                mode,
                order,
            ),
    {
        if check_power_of_two(buf.len()) {
            Some(Self::new(buf, in_queue, mode, order))
        } else {
            None
        }
    }

    /// Empties the queue and clears every membership flag; the buffer's slots
    /// are left as they are.
    pub fn clear(&mut self)
        requires
            old(self).wf(),
        ensures
            final(self).wf(),
            final(self)@ == old(self)@.cleared(),
    {
        self.in_queue.clear_all();
        self.head = 0;
        self.tail = 0;
        self.len = 0;
        assert(self@.items =~= Seq::<T>::empty());
        proof {
            lemma_mod_below_twice(self.buf@.len() as int);
        }
    }

    /// How many values can be pending at once: the buffer's length.
    pub fn capacity(&self) -> (r: usize)
        ensures
            r == self@.capacity,
    {
        self.buf.len()
    }

    /// How many values are pending.
    pub fn len(&self) -> (r: usize)
        ensures
            r == self@.items.len(),
    {
        self.len
    }

    /// Whether no value is pending.
    pub fn is_empty(&self) -> (r: bool)
        ensures
            r == (self@.items.len() == 0),
    {
        self.len == 0
    }

    /// Whether as many values are pending as the buffer holds.
    pub fn is_full(&self) -> (r: bool)
        ensures
            r == (self@.items.len() == self@.capacity),
    {
        self.len == self.buf.len()
    }

    /// Offers `value`, with the outcomes of `TinySetQueue::push`.
    pub fn push(&mut self, value: T) -> (r: Result<PushResult, T>)
        requires
            old(self).wf(),
        ensures
            final(self).wf(),
            (final(self)@, r) == old(self)@.push(value),
    {
        let idx = value.to_index();
        if idx >= self.in_queue.capacity() {
            return Err(value);
        }
        if self.in_queue.contains(idx) {
            return Ok(PushResult::AlreadyPresent);
        }
        if self.is_full() {
            return Err(value);
        }
        let ghost pre = self@;
        proof {
            lemma_mod_below_twice(self.buf@.len() as int);
            lemma_mask_steps_like_remainder(self.tail, self.buf@.len());
        }
        self.buf[self.tail] = value;
        self.in_queue.insert(idx);
        self.tail = (self.tail + 1) & self.mask;
        self.len = self.len + 1;
        assert(self@.items =~= pre.items.push(value));
        Ok(PushResult::Inserted)
    }

    /// Takes the next value, with the outcomes of `TinySetQueue::pop`.
    pub fn pop(&mut self) -> (r: Option<T>)
        requires
            old(self).wf(),
        ensures
            final(self).wf(),
            (final(self)@, r) == old(self)@.pop(),
    {
        if self.is_empty() {
            return None;
        }
        let ghost pre = self@;
        proof {
            lemma_mod_below_twice(self.buf@.len() as int);
            lemma_mask_steps_like_remainder(self.head, self.buf@.len());
            lemma_mask_steps_like_remainder(self.tail, self.buf@.len());
        }
        let slot = match self.order {
            ProcessingOrder::Fifo => {
                let slot = self.head;
                self.head = (self.head + 1) & self.mask;
                slot
            },
            ProcessingOrder::Lifo => {
                let slot = self.tail.wrapping_sub(1) & self.mask;
                self.tail = slot;
                slot
            },
        };
        let value = self.buf[slot];
        assert(value == pre.next());
        let idx = value.to_index();
        match self.mode {
            MembershipMode::InQueue => self.in_queue.remove(idx),
            MembershipMode::Visited => {},
        }
        self.len = self.len - 1;
        proof {
            match pre.order {
                ProcessingOrder::Fifo => {
                    assert(self@.items =~= pre.items.drop_first());
                },
                ProcessingOrder::Lifo => {
                    assert(self@.items =~= pre.items.drop_last());
                },
            }
        }
        Some(value)
    }
}

} // verus!
