use vstd::prelude::*;

use crate::backing::no_members;
use crate::index::DenseIndex;

verus! {

/// Result of offering a value to a queue that accepted it or already tracks it.
#[derive(Debug, Copy, Clone, PartialEq, Eq, Structural)]
pub enum PushResult {
    /// The value was stored and is now pending.
    Inserted,
    /// The value's index was already a member; nothing changed.
    AlreadyPresent,
}

/// Whether a value's membership ends when it is popped.
#[derive(Debug, Copy, Clone, PartialEq, Eq, Structural)]
pub enum MembershipMode {
    /// Popping clears the membership, so the value can be pushed again.
    InQueue,
    /// Membership outlives the pop: the value is refused until the queue is cleared.
    Visited,
}

/// Which end of the pending values `pop` takes from.
#[derive(Debug, Copy, Clone, PartialEq, Eq, Structural)]
pub enum ProcessingOrder {
    /// Oldest first.
    Fifo,
    /// Newest first.
    Lifo,
}

/// The abstract state of a deduplicating ring queue.
pub struct QueueModel<T> {
    /// Pending values, oldest first.
    pub items: Seq<T>,
    /// Membership flag of each index of the domain.
    pub members: Seq<bool>,
    /// How many values can be pending at once.
    pub capacity: nat,
    /// Whether popping clears membership.
    pub mode: MembershipMode,
    /// Which end `pop` takes from.
    pub order: ProcessingOrder,
}

impl<T: DenseIndex> QueueModel<T> {
    /// Every pending value is in the domain and a member, and no two pending
    /// values share an index.
    pub open spec fn valid(self) -> bool {
        &&& self.items.len() <= self.capacity
        &&& forall|i: int|
            0 <= i < self.items.len() ==> {
                let k = #[trigger] self.items[i].dense_index();
                k < self.members.len() && self.members[k as int]
            }
        &&& forall|i: int, j: int|
            0 <= i < j < self.items.len() ==> #[trigger] self.items[i].dense_index()
                != #[trigger] self.items[j].dense_index()
    }

    /// Whether no more value can be stored.
    pub open spec fn is_full(self) -> bool {
        self.items.len() >= self.capacity
    }

    /// The state after offering `v`, and what the offer returns.
    pub open spec fn push(self, v: T) -> (Self, Result<PushResult, T>) {
        let k = v.dense_index();
        if k >= self.members.len() {
            (self, Err(v))
        } else if self.members[k as int] {
            (self, Ok(PushResult::AlreadyPresent))
        } else if self.is_full() {
            (self, Err(v))
        } else {
            (
                QueueModel {
                    items: self.items.push(v),
                    members: self.members.update(k as int, true),
                    ..self
                },
                Ok(PushResult::Inserted),
            )
        }
    }

    /// The value that `pop` takes from a non-empty state.
    pub open spec fn next(self) -> T {
        match self.order {
            ProcessingOrder::Fifo => self.items.first(),
            ProcessingOrder::Lifo => self.items.last(),
        }
    }

    /// The state after a pop, and what the pop returns.
    pub open spec fn pop(self) -> (Self, Option<T>) {
        if self.items.len() == 0 {
            (self, None)
        } else {
            let v = self.next();
            let items = match self.order {
                ProcessingOrder::Fifo => self.items.drop_first(),
                ProcessingOrder::Lifo => self.items.drop_last(),
            };
            let members = match self.mode {
                MembershipMode::InQueue => self.members.update(v.dense_index() as int, false),
                MembershipMode::Visited => self.members,
            };
            (QueueModel { items, members, ..self }, Some(v))
        }
    }

    /// The state after `clear`: nothing pending and no member.
    pub open spec fn cleared(self) -> Self {
        QueueModel { items: Seq::empty(), members: no_members(self.members.len()), ..self }
    }

    /// A fresh state over a domain whose flags are `members`.
    pub open spec fn fresh(
        members: Seq<bool>,
        capacity: nat,
        mode: MembershipMode,
        order: ProcessingOrder,
    ) -> Self {
        QueueModel { items: Seq::empty(), members, capacity, mode, order }
    }
    /// The state after offering each value of `vs` in turn, and what each
    /// offer returns.
    pub open spec fn push_all(self, vs: Seq<T>) -> (Self, Seq<Result<PushResult, T>>)
        decreases vs.len(),
    {
        if vs.len() == 0 {
            (self, Seq::empty())
        } else {
            let (before, results) = self.push_all(vs.drop_last());
            let (after, r) = before.push(vs.last());
            (after, results.push(r))
        }
    }

    /// The state after one push or pop.
    pub open spec fn step(self, op: QueueOp<T>) -> Self {
        match op {
            QueueOp::Push(v) => self.push(v).0,
            QueueOp::Pop => self.pop().0,
        }
    }

    /// The state after a run of pushes and pops, in order.
    pub open spec fn run(self, ops: Seq<QueueOp<T>>) -> Self
        decreases ops.len(),
    {
        if ops.len() == 0 {
            self
        } else {
            self.run(ops.drop_last()).step(ops.last())
        }
    }
}

/// One operation that changes a queue's state, other than `clear`.
pub enum QueueOp<T> {
    /// Offer a value.
    Push(T),
    /// Take the next value.
    Pop,
}

} // verus!
