//! A growable array over a [`RawVec`]: the first `len` slots of the buffer
//! hold the elements, the rest is uninitialised.

use crate::layout::array_fits;
use crate::raw_vec::{amortized_capacity, growth_overflows, RawVec};
use crate::try_reserve_error::{TryReserveError, TryReserveErrorKind};
use vstd::layout::size_of;
use vstd::prelude::*;

verus! {

/// A contiguous growable array.
pub struct Vec<T> {
    buf: RawVec<T>,
    len: usize,
}

impl<T> View for Vec<T> {
    type V = Seq<T>;

    /// The elements, in index order.
    closed spec fn view(&self) -> Seq<T> {
        Seq::new(self.len as nat, |i: int| self.buf.slot(i).unwrap())
    }
}

impl<T> Vec<T> {
    /// The invariant of the array: the length is within the capacity, the
    /// slots below the length are initialised and no other slot is.
    pub closed spec fn wf(&self) -> bool {
        &&& self.buf.wf()
        &&& self.len <= self.buf.capacity()
        &&& forall|i: int| 0 <= i < self.len ==> (#[trigger] self.buf.slot(i)) is Some
        &&& forall|i: int| self.len <= i ==> (#[trigger] self.buf.slot(i)) is None
    }

    /// The number of elements.
    pub open spec fn spec_len(&self) -> usize {
        self@.len() as usize
    }

    /// The number of elements that the array holds without growing.
    pub closed spec fn spec_capacity(&self) -> usize {
        self.buf.capacity()
    }

    /// Whether making room for `additional` more elements has to grow the
    /// buffer.
    pub open spec fn must_grow(&self, additional: usize) -> bool {
        additional > self.capacity() - self@.len()
    }

    /// Whether making room for `additional` more elements is a capacity
    /// overflow.
    pub open spec fn reserve_overflows(&self, additional: usize) -> bool {
        self.must_grow(additional) && growth_overflows::<T>(
            self.capacity() as nat,
            self@.len(),
            additional as nat,
        )
    }

    /// The capacity after room was made for `additional` more elements.
    pub open spec fn capacity_after_reserve(&self, additional: usize) -> nat {
        if self.must_grow(additional) {
            amortized_capacity(
                size_of::<T>(),
                self.capacity() as nat,
                (self@.len() + additional) as nat,
            )
        } else {
            self.capacity() as nat
        }
    }

    /// Whether one more element cannot be stored: the array is full and
    /// growing it is a capacity overflow.
    pub open spec fn push_overflows(&self) -> bool {
        self@.len() == self.capacity() && growth_overflows::<T>(
            self.capacity() as nat,
            self@.len(),
            1,
        )
    }

    /// The capacity after one more element was stored.
    pub open spec fn capacity_after_push(&self) -> nat {
        if self@.len() == self.capacity() {
            amortized_capacity(size_of::<T>(), self.capacity() as nat, self@.len() + 1nat)
        } else {
            self.capacity() as nat
        }
    }

    /// The length of a well-formed array is within its capacity.
    pub proof fn lemma_len_within_capacity(&self)
        requires
            self.wf(),
        ensures
            self@.len() <= self.capacity(),
            self@.len() == self.len(),
    {
    }

    /// An empty array without allocation.
    pub fn new() -> (v: Self)
        ensures
            v.wf(),
            v@ == Seq::<T>::empty(),
            v.capacity() == (if size_of::<T>() == 0 {
                usize::MAX
            } else {
                0
            }),
    {
        Self { buf: RawVec::new(), len: 0 }
    }

    /// An empty array with room for exactly `capacity` elements.
    pub fn with_capacity(capacity: usize) -> (v: Self)
        requires
            array_fits::<T>(capacity as int),
        ensures
            v.wf(),
            v@ == Seq::<T>::empty(),
            v.capacity() == (if size_of::<T>() == 0 {
                usize::MAX
            } else {
                capacity
            }),
    {
        Self { buf: RawVec::with_capacity(capacity), len: 0 }
    }

    /// Whether the array holds no element.
    pub fn is_empty(&self) -> (empty: bool)
        ensures
            empty == (self@.len() == 0),
    {
        self.len == 0
    }

    /// The number of elements.
    #[verifier::when_used_as_spec(spec_len)]
    pub fn len(&self) -> (len: usize)
        ensures
            len == self@.len(),
            len == self.spec_len(),
    {
        self.len
    }

    /// The number of elements that the array holds without growing.
    #[verifier::when_used_as_spec(spec_capacity)]
    pub fn capacity(&self) -> (capacity: usize)
        ensures
            capacity == self.spec_capacity(),
    {
        self.buf.capacity()
    }

    /// The element at `index`.
    pub fn get(&self, index: usize) -> (element: &T)
        requires
            self.wf(),
            index < self@.len(),
        ensures
            *element == self@[index as int],
    {
        self.buf.get(index)
    }

    /// The element at `index`, to be changed in place.
    pub fn get_mut(&mut self, index: usize) -> (element: &mut T)
        requires
            old(self).wf(),
            index < old(self)@.len(),
        ensures
            *element == old(self)@[index as int],
            final(self).wf(),
            final(self)@ == old(self)@.update(index as int, *final(element)),
            final(self).capacity() == old(self).capacity(),
    {
        self.buf.get_mut(index)
    }
}

impl<T> core::ops::Index<usize> for Vec<T> {
    type Output = T;

    /// The element at `index`.
    fn index(&self, index: usize) -> (element: &T)
        ensures
            *element == self@[index as int],
    {
        self.get(index)
    }
}

impl<T> vstd::std_specs::core::IndexSpecImpl<usize> for Vec<T> {
    /// An index has to be below the length.
    open spec fn index_req(&self, index: &usize) -> bool {
        self.wf() && *index < self@.len()
    }
}

impl<T> Default for Vec<T> {
    fn default() -> (v: Vec<T>)
        ensures
            v.wf(),
            v@ == Seq::<T>::empty(),
    {
        Vec::new()
    }
}

impl<T> Vec<T> {
    /// Makes room for `additional` more elements.
    pub fn reserve(&mut self, additional: usize)
        requires
            old(self).wf(),
            !old(self).reserve_overflows(additional),
        ensures
            final(self).wf(),
            final(self)@ == old(self)@,
            final(self).capacity() == old(self).capacity_after_reserve(additional),
            final(self).capacity() - final(self)@.len() >= additional,
    {
        self.buf.reserve(self.len, additional);
    }

    /// Makes room for `additional` more elements, or reports the capacity
    /// overflow that prevents it.
    pub fn try_reserve(&mut self, additional: usize) -> (r: Result<(), TryReserveError>)
        requires
            old(self).wf(),
        ensures
            final(self).wf(),
            final(self)@ == old(self)@,
            r is Err <==> old(self).reserve_overflows(additional),
            r matches Err(e) ==> e.kind() == TryReserveErrorKind::CapacityOverflow,
            r is Err ==> final(self).capacity() == old(self).capacity(),
            r is Ok ==> final(self).capacity() == old(self).capacity_after_reserve(additional),
            r is Ok ==> final(self).capacity() - final(self)@.len() >= additional,
    {
        if self.buf.needs_to_grow(self.len, additional) {
            self.buf.grow_amortized(self.len, additional)
        } else {
            Ok(())
        }
    }

    /// Appends `value`.
    pub fn push(&mut self, value: T)
        requires
            old(self).wf(),
            !old(self).push_overflows(),
        ensures
            final(self).wf(),
            final(self)@ == old(self)@.push(value),
            final(self)@ == after_op(old(self)@, Some(value)),
            final(self).capacity() == old(self).capacity_after_push(),
    {
        if self.len == self.buf.capacity() {
            self.buf.reserve_to_push(self.len);
        }
        self.buf.write(self.len, value);
        self.len += 1;
    }

    /// Removes the last element and returns it, or `None` if there is none.
    pub fn pop(&mut self) -> (value: Option<T>)
        requires
            old(self).wf(),
        ensures
            final(self).wf(),
            final(self).capacity() == old(self).capacity(),
            old(self)@.len() == 0 ==> value is None && final(self)@ == old(self)@,
            old(self)@.len() > 0 ==> value == Some(old(self)@.last()) && final(self)@
                == old(self)@.drop_last(),
            final(self)@ == after_op(old(self)@, None),
    {
        if self.len == 0 {
            None
        } else {
            self.len -= 1;
            Some(self.buf.read(self.len))
        }
    }

    /// Inserts `value` at `index`; the elements from `index` on move up by
    /// one.
    pub fn insert(&mut self, index: usize, value: T)
        requires
            old(self).wf(),
            index <= old(self)@.len(),
            !old(self).push_overflows(),
        ensures
            final(self).wf(),
            final(self)@ == old(self)@.insert(index as int, value),
            final(self)@.len() == old(self)@.len() + 1,
            final(self)@[index as int] == value,
            forall|i: int| 0 <= i < index ==> final(self)@[i] == old(self)@[i],
            forall|i: int| index <= i < old(self)@.len() ==> final(self)@[i + 1] == old(self)@[i],
            final(self).capacity() == old(self).capacity_after_push(),
    {
        // space for the new element
        if self.len == self.buf.capacity() {
            self.buf.reserve_to_push(self.len);
        }
        let ghost grown = self.buf;
        // Move everything from `index` on up by one, from the end down, which
        // leaves the slot at `index` free.
        let mut hole: usize = self.len;
        while hole > index
            invariant
                self.len == old(self).len,
                self.len < self.buf.capacity(),
                self.buf.wf(),
                self.buf.capacity() == grown.capacity(),
                index <= hole <= self.len,
                self.buf.slot(hole as int) is None,
                forall|i: int| i < hole ==> #[trigger] self.buf.slot(i) == grown.slot(i),
                forall|i: int|
                    hole < i <= self.len ==> #[trigger] self.buf.slot(i) == grown.slot(i - 1),
                forall|i: int| self.len < i ==> (#[trigger] self.buf.slot(i)) is None,
                forall|i: int| 0 <= i < self.len ==> (#[trigger] grown.slot(i)) is Some,
            decreases hole,
        {
            let moved = self.buf.read(hole - 1);
            self.buf.write(hole, moved);
            hole -= 1;
        }
        self.buf.write(index, value);
        self.len += 1;
    }

    /// Removes the element at `index` and returns it. The last element takes
    /// its place: the order of the elements is not kept.
    pub fn remove(&mut self, index: usize) -> (value: T)
        requires
            old(self).wf(),
            index < old(self)@.len(),
        ensures
            final(self).wf(),
            value == old(self)@[index as int],
            final(self)@ == old(self)@.update(index as int, old(self)@.last()).drop_last(),
            final(self)@.len() == old(self)@.len() - 1,
            final(self)@.to_multiset() == old(self)@.to_multiset().remove(value),
            final(self).capacity() == old(self).capacity(),
    {
        // The bounds hold, so there is a last element, which may be the one
        // at `index` itself.
        self.len -= 1;
        let value = self.buf.read(index);
        if index != self.len {
            let last = self.buf.read(self.len);
            self.buf.write(index, last);
        }
        proof {
            let before = old(self)@;
            assert(self@ =~= before.update(index as int, before.last()).drop_last());
            assert(value == before[index as int]);
            lemma_swap_remove_multiset(before, index as int);
        }
        value
    }

    /// Exchanges the elements at `a` and `b`.
    pub fn swap(&mut self, a: usize, b: usize)
        requires
            old(self).wf(),
            a < old(self)@.len(),
            b < old(self)@.len(),
        ensures
            final(self).wf(),
            final(self)@ == old(self)@.update(a as int, old(self)@[b as int]).update(
                b as int,
                old(self)@[a as int],
            ),
            final(self)@.to_multiset() == old(self)@.to_multiset(),
            final(self).capacity() == old(self).capacity(),
    {
        if a != b {
            let first = self.buf.read(a);
            let second = self.buf.read(b);
            self.buf.write(a, second);
            self.buf.write(b, first);
        }
        proof {
            let before = old(self)@;
            assert(self@ =~= before.update(a as int, before[b as int]).update(
                b as int,
                before[a as int],
            ));
            lemma_swap_multiset(before, a as int, b as int);
        }
    }

    /// Moves all elements of `other` to the end of `self`, in order. `other`
    /// is left empty and keeps its capacity.
    pub fn append(&mut self, other: &mut Self)
        requires
            old(self).wf(),
            old(other).wf(),
            !old(self).reserve_overflows(old(other).len()),
        ensures
            final(self).wf(),
            final(other).wf(),
            final(self)@ == old(self)@ + old(other)@,
            final(other)@ == Seq::<T>::empty(),
            final(self).capacity() == old(self).capacity_after_reserve(old(other).len()),
            final(other).capacity() == old(other).capacity(),
    {
        self.append_elements(&mut other.buf, other.len);
        other.len = 0;
    }

    /// Moves the values of the first `count` slots of `source` to the end of
    /// `self`, in order.
    fn append_elements(&mut self, source: &mut RawVec<T>, count: usize)
        requires
            old(self).wf(),
            old(source).wf(),
            count <= old(source).capacity(),
            forall|i: int| 0 <= i < count ==> (#[trigger] old(source).slot(i)) is Some,
            !old(self).reserve_overflows(count),
        ensures
            final(self).wf(),
            final(source).wf(),
            final(self)@ == old(self)@ + Seq::new(
                count as nat,
                |i: int| old(source).slot(i).unwrap(),
            ),
            final(self).capacity() == old(self).capacity_after_reserve(count),
            final(source).capacity() == old(source).capacity(),
            forall|i: int| 0 <= i < count ==> (#[trigger] final(source).slot(i)) is None,
            forall|i: int| count <= i ==> #[trigger] final(source).slot(i) == old(source).slot(i),
    {
        self.reserve(count);
        let ghost reserved = self.buf;
        let mut moved: usize = 0;
        while moved < count
            invariant
                self.len == old(self).len,
                self.len + count <= self.buf.capacity(),
                moved <= count,
                self.buf.wf(),
                source.wf(),
                self.buf.capacity() == reserved.capacity(),
                source.capacity() == old(source).capacity(),
                forall|i: int| i < self.len ==> #[trigger] self.buf.slot(i) == reserved.slot(i),
                forall|i: int|
                    self.len <= i < self.len + moved ==> #[trigger] self.buf.slot(i) == old(
                        source,
                    ).slot(i - self.len),
                forall|i: int| self.len + moved <= i ==> (#[trigger] self.buf.slot(i)) is None,
                forall|i: int| 0 <= i < moved ==> (#[trigger] source.slot(i)) is None,
                forall|i: int| moved <= i ==> #[trigger] source.slot(i) == old(source).slot(i),
                forall|i: int| 0 <= i < count ==> (#[trigger] old(source).slot(i)) is Some,
            decreases count - moved,
        {
            let value = source.read(moved);
            self.buf.write(self.len + moved, value);
            moved += 1;
        }
        self.len += count;
    }
}

/// What one operation at the end of an array leaves of the elements `s`:
/// `Some(v)` stands for a push of `v`, `None` for a pop.
pub open spec fn after_op<T>(s: Seq<T>, op: Option<T>) -> Seq<T> {
    match op {
        Some(v) => s.push(v),
        None => if s.len() > 0 {
            s.drop_last()
        } else {
            s
        },
    }
}

/// What a run of pushes and pops leaves of the elements `s`.
pub open spec fn after_ops<T>(s: Seq<T>, ops: Seq<Option<T>>) -> Seq<T>
    decreases ops.len(),
{
    if ops.len() == 0 {
        s
    } else {
        after_op(after_ops(s, ops.drop_last()), ops.last())
    }
}

/// The number of pushes in a run of pushes and pops.
pub open spec fn pushes<T>(ops: Seq<Option<T>>) -> nat
    decreases ops.len(),
{
    if ops.len() == 0 {
        0
    } else {
        pushes(ops.drop_last()) + (if ops.last() is Some {
            1nat
        } else {
            0nat
        })
    }
}

/// The number of pops in a run of pushes and pops on `s` that found an
/// element to remove.
pub open spec fn pops<T>(s: Seq<T>, ops: Seq<Option<T>>) -> nat
    decreases ops.len(),
{
    if ops.len() == 0 {
        0
    } else {
        pops(s, ops.drop_last()) + (if ops.last() is None && after_ops(s, ops.drop_last()).len()
            > 0 {
            1nat
        } else {
            0nat
        })
    }
}

/// The values that `n` pops return, in the order in which they come.
pub open spec fn popped<T>(s: Seq<T>, n: nat) -> Seq<T>
    recommends
        n <= s.len(),
    decreases n,
{
    if n == 0 {
        Seq::empty()
    } else {
        seq![s.last()] + popped(s.drop_last(), (n - 1) as nat)
    }
}

/// After any run of pushes and pops the length is the length before, plus
/// the number of pushes, minus the number of pops that removed an element.
pub proof fn lemma_len_counts_pushes_and_pops<T>(s: Seq<T>, ops: Seq<Option<T>>)
    ensures
        after_ops(s, ops).len() == s.len() + pushes(ops) - pops(s, ops),
    decreases ops.len(),
{
    if ops.len() > 0 {
        lemma_len_counts_pushes_and_pops(s, ops.drop_last());
    }
}

/// Pushes alone keep what was there and add the pushed values behind it, in
/// the order in which they were pushed.
pub proof fn lemma_pushes_keep_insertion_order<T>(s: Seq<T>, values: Seq<T>)
    ensures
        after_ops(s, values.map_values(|v: T| Some(v))) == s + values,
    decreases values.len(),
{
    let ops = values.map_values(|v: T| Some(v));
    if values.len() == 0 {
        assert(s + values =~= s);
    } else {
        lemma_pushes_keep_insertion_order(s, values.drop_last());
        assert(ops.drop_last() =~= values.drop_last().map_values(|v: T| Some(v)));
        assert((s + values.drop_last()).push(values.last()) =~= s + values);
    }
}

/// Pushing values onto an empty array and then popping as often yields the
/// values in reverse and leaves the array empty.
pub proof fn lemma_push_pop_is_lifo<T>(values: Seq<T>)
    ensures
        popped(after_ops(Seq::empty(), values.map_values(|v: T| Some(v))), values.len())
            == values.reverse(),
        after_ops(
            after_ops(Seq::empty(), values.map_values(|v: T| Some(v))),
            Seq::new(values.len(), |i: int| None::<T>),
        ) == Seq::<T>::empty(),
{
    lemma_pushes_keep_insertion_order(Seq::<T>::empty(), values);
    assert(Seq::<T>::empty() + values =~= values);
    lemma_popped_is_reverse(values);
    lemma_pops_drop_the_tail(values, values.len());
    assert(values.take(0) =~= Seq::<T>::empty());
}

/// Popping every element yields the elements in reverse.
pub proof fn lemma_popped_is_reverse<T>(s: Seq<T>)
    ensures
        popped(s, s.len()) == s.reverse(),
    decreases s.len(),
{
    if s.len() == 0 {
        assert(s.reverse() =~= Seq::<T>::empty());
    } else {
        lemma_popped_is_reverse(s.drop_last());
        assert(seq![s.last()] + s.drop_last().reverse() =~= s.reverse());
    }
}

/// `n` pops leave the elements but the last `n`.
pub proof fn lemma_pops_drop_the_tail<T>(s: Seq<T>, n: nat)
    requires
        n <= s.len(),
    ensures
        after_ops(s, Seq::new(n, |i: int| None::<T>)) == s.take(s.len() - n),
    decreases n,
{
    let ops = Seq::new(n, |i: int| None::<T>);
    if n == 0 {
        assert(s.take(s.len() as int) =~= s);
    } else {
        lemma_pops_drop_the_tail(s, (n - 1) as nat);
        assert(ops.drop_last() =~= Seq::new((n - 1) as nat, |i: int| None::<T>));
        assert(s.take(s.len() - n + 1).drop_last() =~= s.take(s.len() - n));
    }
}

/// Exchanging two elements of a sequence keeps each element as often as it
/// was there.
pub proof fn lemma_swap_multiset<T>(s: Seq<T>, a: int, b: int)
    requires
        0 <= a < s.len(),
        0 <= b < s.len(),
    ensures
        s.update(a, s[b]).update(b, s[a]).to_multiset() == s.to_multiset(),
{
    let half = s.update(a, s[b]);
    vstd::seq_lib::to_multiset_update(s, a, s[b]);
    vstd::seq_lib::to_multiset_update(half, b, s[a]);
    vstd::seq_lib::to_multiset_contains(s, s[a]);
    vstd::seq_lib::to_multiset_contains(s, s[b]);
    assert(s.contains(s[a]));
    assert(s.contains(s[b]));
    assert(half[b] == s[b]);
    assert(s.to_multiset().insert(s[b]).remove(s[a]).insert(s[a]).remove(s[b]) =~= s.to_multiset());
}

/// Taking element `i` out of a sequence by putting the last element in its
/// place leaves exactly the other elements, each as often as before.
pub proof fn lemma_swap_remove_multiset<T>(s: Seq<T>, i: int)
    requires
        0 <= i < s.len(),
    ensures
        s.update(i, s.last()).drop_last().to_multiset() == s.to_multiset().remove(s[i]),
{
    let n = s.len() as int;
    let replaced = s.update(i, s.last());
    vstd::seq_lib::to_multiset_update(s, i, s.last());
    vstd::seq_lib::to_multiset_remove(replaced, n - 1);
    vstd::seq_lib::to_multiset_contains(s, s[i]);
    assert(s.contains(s[i]));
    assert(replaced.remove(n - 1) =~= replaced.drop_last());
    assert(s.to_multiset().insert(s.last()).remove(s[i]).remove(s.last()) =~= s.to_multiset().remove(
        s[i],
    ));
}

} // verus!
