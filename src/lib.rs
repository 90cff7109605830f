//! A fixed-capacity queue over caller storage that never holds two values with
//! the same index.
//!
//! Membership is direct-mapped: each value maps to an index of a dense domain
//! (`DenseIndex`), and a `SetBacking` keeps one flag per index, either one
//! `bool` per index or sixty-four indices packed into each `u64`. The queue
//! stores pending values in a ring over a caller-supplied buffer and pops them
//! oldest first or newest first. `TinySetQueue` wraps around by remainder and
//! takes any buffer length; `TinySetQueuePow2` masks instead and takes
//! power-of-two lengths. Both follow the same abstract state, `QueueModel`.
use vstd::prelude::*;

mod sealed;

pub mod backing;
pub mod index;
pub mod laws;
pub mod model;
pub mod pow2;
pub mod queue;

pub use backing::SetBacking;
pub use index::DenseIndex;
pub use model::{MembershipMode, ProcessingOrder, PushResult, QueueModel};
pub use pow2::TinySetQueuePow2;
pub use queue::TinySetQueue;
