//! Three containers with an explicit storage model: a growable array over a
//! buffer of slots, a doubly-linked list of owned nodes, and a binary
//! max-heap over the array. Every function is verified with Verus.
//!
//! Each container has a view (`@`): the array and the list a `Seq` of their
//! elements, the heap a `Multiset`. Each has an invariant, `wf`, which its
//! constructors establish and its operations keep. The contracts are stated
//! over the views.
//!
//! An operation that cannot be carried out (an index out of range, a
//! capacity that cannot be represented) is excluded by the `requires` of the
//! operation; [`Vec::try_reserve`] and [`BinaryHeap::try_reserve`] report a
//! capacity overflow as a value instead.

pub mod binary_heap;
pub mod layout;
pub mod linked_list;
pub mod order;
pub mod raw_vec;
pub mod try_reserve_error;
pub mod vec;

pub use binary_heap::BinaryHeap;
pub use layout::{Layout, LayoutError};
pub use linked_list::LinkedList;
pub use try_reserve_error::{TryReserveError, TryReserveErrorKind};
pub use vec::Vec;
