//! The storage of a growable array: a run of slots, the capacity that was
//! reserved for it, and the policy by which that capacity grows.
//!
//! The buffer knows nothing of a length. A slot holds `Some` while it is
//! initialised and `None` otherwise; which slots are initialised is for the
//! owner of the buffer to decide.

use crate::layout::{
    array_fits, lemma_aligned_size_bound, lemma_multiple_at_least, lemma_remainder_of_isize_max,
    Layout,
};
use crate::try_reserve_error::{handle_reserve, TryReserveError, TryReserveErrorKind};
use vstd::layout::{align_of, layout_for_type_is_valid, size_of};
use vstd::prelude::*;

verus! {

/// The smallest capacity that a growth gives: more for small elements, so
/// that short arrays do not grow one element at a time.
pub open spec fn min_non_zero_cap(element_size: nat) -> nat {
    if element_size == 1 {
        8
    } else if element_size <= 1024 {
        4
    } else {
        1
    }
}

/// The capacity after an amortised growth from `cap` that has to hold
/// `required` elements: twice the old capacity or the required one,
/// whichever is larger, and never under the minimum for the element size.
pub open spec fn amortized_capacity(element_size: nat, cap: nat, required: nat) -> nat {
    let doubled = if 2 * cap >= required {
        2 * cap
    } else {
        required
    };
    if min_non_zero_cap(element_size) >= doubled {
        min_non_zero_cap(element_size)
    } else {
        doubled
    }
}

/// Whether a growth from `cap` for `len + additional` elements of `T` is a
/// capacity overflow: `T` has no size, the element count leaves `usize`, or
/// the grown array does not fit.
pub open spec fn growth_overflows<T>(cap: nat, len: nat, additional: nat) -> bool {
    ||| size_of::<T>() == 0
    ||| len + additional > usize::MAX
    ||| !array_fits::<T>(amortized_capacity(size_of::<T>(), cap, len + additional) as int)
}

/// The room that a capacity leaves beyond `len`, computed without underflow:
/// where `len` exceeds the capacity the difference wraps around.
pub open spec fn spare_capacity(capacity: usize, len: usize) -> int {
    if len <= capacity {
        capacity - len
    } else {
        capacity - len + usize::MAX + 1
    }
}

/// Refuses a request of more than `isize::MAX` bytes where `usize` is
/// narrower than 64 bits.
pub fn alloc_guard(alloc_size: usize) -> (r: Result<(), TryReserveError>)
    ensures
        r is Err <==> usize::BITS < 64 && alloc_size > isize::MAX,
        r matches Err(e) ==> e.kind() == TryReserveErrorKind::CapacityOverflow,
{
    if usize::BITS < 64 && alloc_size > isize::MAX as usize {
        Err(TryReserveError::from(TryReserveErrorKind::CapacityOverflow))
    } else {
        Ok(())
    }
}

/// The smallest capacity that a growth gives to an array of `T`.
pub fn min_non_zero_capacity<T>() -> (cap: usize)
    ensures
        cap == min_non_zero_cap(size_of::<T>()),
{
    if core::mem::size_of::<T>() == 1 {
        8
    } else if core::mem::size_of::<T>() <= 1024 {
        4
    } else {
        1
    }
}

/// Slots for values of `T`, with the capacity reserved for them.
pub struct RawVec<T> {
    /// The slots that were touched so far, in order; the rest of the
    /// capacity was never written.
    slots: Vec<Option<T>>,
    /// How many elements the allocation holds; zero while there is none.
    cap: usize,
}

impl<T> RawVec<T> {
    /// The invariant of the buffer: a type without size never allocates, the
    /// allocation fits, and no slot lies beyond the capacity.
    pub closed spec fn wf(&self) -> bool {
        &&& size_of::<T>() == 0 ==> self.cap == 0
        &&& array_fits::<T>(self.cap as int)
        &&& self.slots@.len() <= self.spec_capacity()
    }

    /// The capacity: unbounded for a type without size.
    pub closed spec fn spec_capacity(&self) -> usize {
        if size_of::<T>() == 0 {
            usize::MAX
        } else {
            self.cap
        }
    }

    /// What slot `i` holds: `None` while it is not initialised.
    pub closed spec fn slot(&self, i: int) -> Option<T> {
        if 0 <= i < self.slots@.len() {
            self.slots@[i]
        } else {
            None
        }
    }

    /// Whether no slot is initialised.
    pub open spec fn is_vacant(&self) -> bool {
        forall|i: int| (#[trigger] self.slot(i)) is None
    }

    /// Whether `other` holds in every slot what `self` holds.
    pub open spec fn same_slots(&self, other: &Self) -> bool {
        forall|i: int|
            #![trigger self.slot(i)]
            #![trigger other.slot(i)]
            self.slot(i) == other.slot(i)
    }

    /// Whether `other` holds what `self` holds in every slot but `index`.
    pub open spec fn same_slots_except(&self, other: &Self, index: int) -> bool {
        forall|i: int|
            #![trigger self.slot(i)]
            #![trigger other.slot(i)]
            i != index ==> self.slot(i) == other.slot(i)
    }

    /// A buffer without capacity and without allocation.
    pub fn new() -> (buf: Self)
        ensures
            buf.wf(),
            buf.is_vacant(),
            buf.capacity() == (if size_of::<T>() == 0 {
                usize::MAX
            } else {
                0
            }),
    {
        assert(0 * size_of::<T>() == 0) by (nonlinear_arith);
        Self { slots: Vec::new(), cap: 0 }
    }

    /// A buffer for exactly `capacity` elements.
    pub fn with_capacity(capacity: usize) -> (buf: Self)
        requires
            array_fits::<T>(capacity as int),
        ensures
            buf.wf(),
            buf.is_vacant(),
            buf.capacity() == (if size_of::<T>() == 0 {
                usize::MAX
            } else {
                capacity
            }),
    {
        handle_reserve(Self::try_allocate(capacity))
    }

    /// The number of elements that the buffer can hold without growing.
    #[verifier::when_used_as_spec(spec_capacity)]
    pub fn capacity(&self) -> (cap: usize)
        ensures
            cap == self.spec_capacity(),
    {
        if core::mem::size_of::<T>() == 0 {
            usize::MAX
        } else {
            self.cap
        }
    }
}

// Reserving
impl<T> RawVec<T> {
    /// Makes room for `additional` elements beyond `len`; does nothing where
    /// the capacity already suffices.
    pub fn reserve(&mut self, len: usize, additional: usize)
        requires
            old(self).wf(),
            additional > spare_capacity(old(self).capacity(), len) ==> !growth_overflows::<T>(
                old(self).capacity() as nat,
                len as nat,
                additional as nat,
            ),
        ensures
            final(self).wf(),
            old(self).same_slots(final(self)),
            final(self).capacity() == (if additional > spare_capacity(old(self).capacity(), len) {
                amortized_capacity(
                    size_of::<T>(),
                    old(self).capacity() as nat,
                    (len + additional) as nat,
                )
            } else {
                old(self).capacity() as nat
            }),
            len <= old(self).capacity() ==> final(self).capacity() - len >= additional,
    {
        if self.needs_to_grow(len, additional) {
            self.do_reserve_and_handle(len, additional);
        }
    }

    /// The growth of [`RawVec::reserve`], kept apart from its quick test.
    fn do_reserve_and_handle(&mut self, len: usize, additional: usize)
        requires
            old(self).wf(),
            !growth_overflows::<T>(old(self).capacity() as nat, len as nat, additional as nat),
        ensures
            final(self).wf(),
            old(self).same_slots(final(self)),
            final(self).capacity() == amortized_capacity(
                size_of::<T>(),
                old(self).capacity() as nat,
                (len + additional) as nat,
            ),
    {
        handle_reserve(self.grow_amortized(len, additional));
    }

    /// Grows for one more element beyond `len`, whatever the capacity is.
    pub fn reserve_to_push(&mut self, len: usize)
        requires
            old(self).wf(),
            !growth_overflows::<T>(old(self).capacity() as nat, len as nat, 1),
        ensures
            final(self).wf(),
            old(self).same_slots(final(self)),
            final(self).capacity() == amortized_capacity(
                size_of::<T>(),
                old(self).capacity() as nat,
                (len + 1) as nat,
            ),
    {
        handle_reserve(self.grow_amortized(len, 1));
    }
}

// Growing
impl<T> RawVec<T> {
    /// Whether the capacity leaves no room for `additional` elements beyond
    /// `len`.
    pub fn needs_to_grow(&self, len: usize, additional: usize) -> (needed: bool)
        ensures
            needed == (additional > spare_capacity(self.capacity(), len)),
    {
        additional > self.capacity().wrapping_sub(len)
    }

    /// The layout of the live allocation, if there is one.
    pub fn current_memory(&self) -> (memory: Option<Layout>)
        requires
            self.wf(),
        ensures
            memory is Some <==> size_of::<T>() != 0 && self.capacity() != 0,
            memory matches Some(layout) ==> layout.size() == size_of::<T>() * self.capacity()
                && layout.align() == align_of::<T>() && layout.is_valid(),
    {
        if core::mem::size_of::<T>() == 0 || self.cap == 0 {
            None
        } else {
            layout_for_type_is_valid::<T>();
            let align: usize = core::mem::align_of::<T>();
            proof {
                lemma_product_bounds(self.cap as int, size_of::<T>() as int);
                if self.cap * size_of::<T>() > isize::MAX - (align - 1) {
                    lemma_aligned_size_bound(
                        self.cap as int,
                        size_of::<T>() as int,
                        align as int,
                    );
                }
                lemma_multiple_at_least(size_of::<T>() as int, align as int);
                lemma_remainder_of_isize_max(align as int);
            }
            let size: usize = core::mem::size_of::<T>() * self.cap;
            Some(Layout::from_size_align_unchecked(size, align))
        }
    }

    /// A buffer for exactly `capacity` elements, or the capacity overflow
    /// that prevents it.
    pub fn try_allocate(capacity: usize) -> (r: Result<Self, TryReserveError>)
        ensures
            r is Ok <==> array_fits::<T>(capacity as int),
            r matches Err(e) ==> e.kind() == TryReserveErrorKind::CapacityOverflow,
            r matches Ok(buf) ==> {
                &&& buf.wf()
                &&& buf.is_vacant()
                &&& buf.capacity() == (if size_of::<T>() == 0 {
                    usize::MAX
                } else {
                    capacity
                })
            },
    {
        if core::mem::size_of::<T>() == 0 {
            return Ok(Self::new());
        }
        let layout = match Layout::array::<T>(capacity) {
            Ok(layout) => layout,
            Err(_) => {
                return Err(TryReserveError::from(TryReserveErrorKind::CapacityOverflow));
            },
        };
        match alloc_guard(layout.size()) {
            Ok(()) => {},
            Err(e) => {
                return Err(e);
            },
        }
        Ok(Self { slots: Vec::with_capacity(capacity), cap: capacity })
    }

    /// Grows the buffer so that it holds `len + additional` elements, by the
    /// amortised policy, or reports the capacity overflow that prevents it.
    /// A live allocation is grown, otherwise a fresh one is made.
    pub fn grow_amortized(&mut self, len: usize, additional: usize) -> (r: Result<
        (),
        TryReserveError,
    >)
        requires
            old(self).wf(),
        ensures
            final(self).wf(),
            old(self).same_slots(final(self)),
            r is Err <==> growth_overflows::<T>(
                old(self).capacity() as nat,
                len as nat,
                additional as nat,
            ),
            r matches Err(e) ==> e.kind() == TryReserveErrorKind::CapacityOverflow,
            r is Err ==> final(self).capacity() == old(self).capacity(),
            r is Ok ==> final(self).capacity() == amortized_capacity(
                size_of::<T>(),
                old(self).capacity() as nat,
                (len + additional) as nat,
            ),
    {
        if core::mem::size_of::<T>() == 0 {
            return Err(TryReserveError::from(TryReserveErrorKind::CapacityOverflow));
        }
        let required_cap: usize = match len.checked_add(additional) {
            Some(required_cap) => required_cap,
            None => {
                return Err(TryReserveError::from(TryReserveErrorKind::CapacityOverflow));
            },
        };
        proof {
            lemma_product_bounds(self.cap as int, size_of::<T>() as int);
        }
        let doubled: usize = self.cap * 2;
        let cap: usize = if doubled >= required_cap {
            doubled
        } else {
            required_cap
        };
        let floor: usize = min_non_zero_capacity::<T>();
        let cap: usize = if floor >= cap {
            floor
        } else {
            cap
        };
        let new_layout = match Layout::array::<T>(cap) {
            Ok(new_layout) => new_layout,
            Err(_) => {
                return Err(TryReserveError::from(TryReserveErrorKind::CapacityOverflow));
            },
        };
        match alloc_guard(new_layout.size()) {
            Ok(()) => {},
            Err(e) => {
                return Err(e);
            },
        }
        match self.current_memory() {
            Some(_) => {
                self.slots.reserve(cap - self.slots.len());
            },
            None => {
                self.slots = Vec::with_capacity(cap);
            },
        }
        self.cap = cap;
        Ok(())
    }
}

// The slots
impl<T> RawVec<T> {
    /// Initialises slot `index` with `value`.
    pub fn write(&mut self, index: usize, value: T)
        requires
            old(self).wf(),
            index < old(self).capacity(),
            old(self).slot(index as int) is None,
        ensures
            final(self).wf(),
            final(self).capacity() == old(self).capacity(),
            final(self).slot(index as int) == Some(value),
            old(self).same_slots_except(final(self), index as int),
    {
        while self.slots.len() < index
            invariant
                self.cap == old(self).cap,
                index < self.spec_capacity(),
                self.slots@.len() <= self.spec_capacity(),
                old(self).slots@.len() <= self.slots@.len(),
                self.slots@.len() <= index || self.slots@ == old(self).slots@,
                forall|i: int| 0 <= i < old(self).slots@.len() ==> self.slots@[i] == old(self).slots@[i],
                forall|i: int| old(self).slots@.len() <= i < self.slots@.len() ==> self.slots@[i] is None,
            decreases index - self.slots.len(),
        {
            self.slots.push(None);
        }
        if self.slots.len() == index {
            self.slots.push(Some(value));
        } else {
            self.slots[index] = Some(value);
        }
    }

    /// Moves the value out of slot `index`, which is left uninitialised.
    pub fn read(&mut self, index: usize) -> (value: T)
        requires
            old(self).wf(),
            old(self).slot(index as int) is Some,
        ensures
            final(self).wf(),
            final(self).capacity() == old(self).capacity(),
            old(self).slot(index as int) == Some(value),
            final(self).slot(index as int) is None,
            old(self).same_slots_except(final(self), index as int),
    {
        let taken = self.slots[index].take();
        taken.unwrap()
    }

    /// The value in slot `index`.
    pub fn get(&self, index: usize) -> (value: &T)
        requires
            self.slot(index as int) is Some,
        ensures
            self.slot(index as int) == Some(*value),
    {
        self.slots[index].as_ref().unwrap()
    }

    /// The value in slot `index`, to be changed in place.
    pub fn get_mut(&mut self, index: usize) -> (value: &mut T)
        requires
            old(self).wf(),
            old(self).slot(index as int) is Some,
        ensures
            old(self).slot(index as int) == Some(*value),
            final(self).wf(),
            final(self).capacity() == old(self).capacity(),
            final(self).slot(index as int) == Some(*final(value)),
            old(self).same_slots_except(final(self), index as int),
    {
        self.slots[index].as_mut().unwrap()
    }
}

/// A capacity whose array fits is at most `isize::MAX`, and so is its size
/// in bytes.
proof fn lemma_product_bounds(cap: int, size: int)
    requires
        0 <= cap,
        0 < size,
        cap * size <= isize::MAX,
    ensures
        cap <= isize::MAX,
        0 <= size * cap <= isize::MAX,
{
    assert(cap <= cap * size) by (nonlinear_arith)
        requires
            0 <= cap,
            0 < size,
    ;
    assert(size * cap == cap * size) by (nonlinear_arith);
}

} // verus!
