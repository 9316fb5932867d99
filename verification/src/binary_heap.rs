//! A binary max-heap over the growable array.

use crate::order::{greater, le, lemma_le_total, lemma_le_transitive, total_order};
use crate::raw_vec::{amortized_capacity, growth_overflows};
use crate::try_reserve_error::{TryReserveError, TryReserveErrorKind};
use crate::vec::Vec;
use vstd::layout::size_of;
use vstd::multiset::Multiset;
use vstd::prelude::*;

verus! {

/// The place of the parent of place `i` in a heap.
pub open spec fn parent(i: int) -> int {
    (i - 1) / 2
}

/// The heap order: no element is greater than its parent. The children of
/// place `i` are the places `2 * i + 1` and `2 * i + 2`.
pub open spec fn is_heap<T: Ord>(s: Seq<T>) -> bool {
    forall|c: int| 0 < c < s.len() ==> le(#[trigger] s[c], s[parent(c)])
}

/// Whether `v` is a greatest element of `m`: it occurs in `m`, and nothing
/// in `m` is greater.
pub open spec fn is_greatest<T: Ord>(m: Multiset<T>, v: T) -> bool {
    m.contains(v) && forall|x: T| #[trigger] m.contains(x) ==> le(x, v)
}

/// The heap order but for the element at `pos`, which may be greater than
/// its parent but is not less than its children.
spec fn heap_but_up<T: Ord>(s: Seq<T>, pos: int) -> bool {
    &&& forall|c: int| 0 < c < s.len() && c != pos ==> le(#[trigger] s[c], s[parent(c)])
    &&& forall|c: int|
        0 < c < s.len() && parent(c) == pos && pos > 0 ==> le(#[trigger] s[c], s[parent(pos)])
}

/// The heap order but for the element at `pos`, which may be less than its
/// children but is not greater than its parent.
spec fn heap_but_down<T: Ord>(s: Seq<T>, pos: int) -> bool {
    &&& forall|c: int|
        0 < c < s.len() && parent(c) != pos ==> le(#[trigger] s[c], s[parent(c)])
    &&& forall|c: int|
        0 < c < s.len() && parent(c) == pos && pos > 0 ==> le(#[trigger] s[c], s[parent(pos)])
}

/// In a heap no element is greater than its parent, so none is greater than
/// the root.
pub proof fn lemma_root_is_greatest<T: Ord>(s: Seq<T>, i: int)
    requires
        total_order::<T>(),
        is_heap(s),
        0 <= i < s.len(),
    ensures
        le(s[i], s[0]),
    decreases i,
{
    if i == 0 {
        crate::order::lemma_le_reflexive(s[0]);
    } else {
        lemma_root_is_greatest(s, parent(i));
        lemma_le_transitive(s[i], s[parent(i)], s[0]);
    }
}

/// In a heap the element at place `i` is not less than those at the places
/// `2 * i + 1` and `2 * i + 2`.
pub proof fn lemma_heap_children<T: Ord>(s: Seq<T>, i: int)
    requires
        is_heap(s),
        0 <= i,
    ensures
        2 * i + 1 < s.len() ==> le(s[2 * i + 1], s[i]),
        2 * i + 2 < s.len() ==> le(s[2 * i + 2], s[i]),
{
    assert(parent(2 * i + 1) == i);
    assert(parent(2 * i + 2) == i);
}

/// Elements leave a heap in descending order: a greatest element of what is
/// left after a greatest element was taken out is not greater than that
/// element.
pub proof fn lemma_greatest_descend<T: Ord>(m: Multiset<T>, first: T, second: T)
    requires
        is_greatest(m, first),
        is_greatest(m.remove(first), second),
    ensures
        le(second, first),
{
    broadcast use vstd::multiset::group_multiset_axioms;

    assert(m.contains(second));
}

/// A priority queue: a binary max-heap.
pub struct BinaryHeap<T> {
    data: Vec<T>,
}

impl<T> View for BinaryHeap<T> {
    type V = Multiset<T>;

    /// The elements, each as often as it was pushed and not yet popped.
    closed spec fn view(&self) -> Multiset<T> {
        self.data@.to_multiset()
    }
}

impl<T: Ord> BinaryHeap<T> {
    /// The invariant of the heap: its array is well-formed and in heap
    /// order.
    pub closed spec fn wf(&self) -> bool {
        self.data.wf() && is_heap(self.data@)
    }

    /// The elements as the heap keeps them: the root first, the children of
    /// place `i` at the places `2 * i + 1` and `2 * i + 2`.
    pub closed spec fn elements(&self) -> Seq<T> {
        self.data@
    }

    /// A well-formed heap keeps its elements in heap order.
    pub proof fn lemma_heap_order(&self)
        requires
            self.wf(),
        ensures
            is_heap(self.elements()),
            self@ == self.elements().to_multiset(),
    {
    }

    /// The number of elements.
    pub open spec fn spec_len(&self) -> usize {
        self@.len() as usize
    }

    /// The number of elements that the heap holds without growing.
    pub closed spec fn spec_capacity(&self) -> usize {
        self.data.capacity()
    }

    /// Whether making room for `additional` more elements has to grow the
    /// heap.
    pub open spec fn must_grow(&self, additional: usize) -> bool {
        additional > self.capacity() - self@.len()
    }

    /// Whether making room for `additional` more elements is a capacity
    /// overflow.
    pub open spec fn reserve_overflows(&self, additional: usize) -> bool {
        self.must_grow(additional) && growth_overflows::<T>(
            self.capacity() as nat,
            self@.len(),
            additional as nat,
        )
    }

    /// The capacity after room was made for `additional` more elements.
    pub open spec fn capacity_after_reserve(&self, additional: usize) -> nat {
        if self.must_grow(additional) {
            amortized_capacity(
                size_of::<T>(),
                self.capacity() as nat,
                (self@.len() + additional) as nat,
            )
        } else {
            self.capacity() as nat
        }
    }

    /// Whether one more element cannot be stored: the heap is full and
    /// growing it is a capacity overflow.
    pub open spec fn push_overflows(&self) -> bool {
        self@.len() == self.capacity() && growth_overflows::<T>(
            self.capacity() as nat,
            self@.len(),
            1,
        )
    }

    /// The capacity after one more element was stored.
    pub open spec fn capacity_after_push(&self) -> nat {
        if self@.len() == self.capacity() {
            amortized_capacity(size_of::<T>(), self.capacity() as nat, self@.len() + 1nat)
        } else {
            self.capacity() as nat
        }
    }

    /// The number of elements of a well-formed heap is within its capacity.
    pub proof fn lemma_len_within_capacity(&self)
        requires
            self.wf(),
        ensures
            self@.len() <= self.capacity(),
            self@.len() == self.len(),
    {
        vstd::seq_lib::to_multiset_len(self.data@);
        self.data.lemma_len_within_capacity();
    }

    /// An empty heap.
    pub fn new() -> (heap: Self)
        ensures
            heap.wf(),
            heap@ == Multiset::<T>::empty(),
            heap.capacity() == (if size_of::<T>() == 0 {
                usize::MAX
            } else {
                0
            }),
    {
        let heap = Self { data: Vec::new() };
        assert(heap.data@.to_multiset() =~= Multiset::<T>::empty()) by {
            heap.data@.to_multiset_ensures();
        }
        heap
    }

    /// The number of elements.
    #[verifier::when_used_as_spec(spec_len)]
    pub fn len(&self) -> (len: usize)
        ensures
            len == self@.len(),
            len == self.spec_len(),
    {
        proof {
            vstd::seq_lib::to_multiset_len(self.data@);
        }
        self.data.len()
    }

    /// Whether the heap holds no element.
    pub fn is_empty(&self) -> (empty: bool)
        ensures
            empty == (self@.len() == 0),
    {
        proof {
            vstd::seq_lib::to_multiset_len(self.data@);
        }
        self.data.is_empty()
    }

    /// The number of elements that the heap holds without growing.
    #[verifier::when_used_as_spec(spec_capacity)]
    pub fn capacity(&self) -> (capacity: usize)
        ensures
            capacity == self.spec_capacity(),
    {
        self.data.capacity()
    }

    /// Makes room for `additional` more elements, or reports the capacity
    /// overflow that prevents it.
    pub fn try_reserve(&mut self, additional: usize) -> (r: Result<(), TryReserveError>)
        requires
            old(self).wf(),
        ensures
            final(self).wf(),
            final(self)@ == old(self)@,
            r is Err <==> old(self).reserve_overflows(additional),
            r matches Err(e) ==> e.kind() == TryReserveErrorKind::CapacityOverflow,
            r is Err ==> final(self).capacity() == old(self).capacity(),
            r is Ok ==> final(self).capacity() == old(self).capacity_after_reserve(additional),
            r is Ok ==> final(self).capacity() - final(self)@.len() >= additional,
    {
        proof {
            vstd::seq_lib::to_multiset_len(self.data@);
        }
        self.data.try_reserve(additional)
    }

    /// Adds `value`.
    pub fn push(&mut self, value: T)
        requires
            old(self).wf(),
            total_order::<T>(),
            !old(self).push_overflows(),
        ensures
            final(self).wf(),
            final(self)@ == old(self)@.insert(value),
            final(self).capacity() == old(self).capacity_after_push(),
    {
        proof {
            vstd::seq_lib::to_multiset_len(self.data@);
            vstd::seq_lib::to_multiset_build(self.data@, value);
        }
        let last: usize = self.data.len();
        self.data.push(value);
        self.sift_up(last);
    }

    /// Removes a greatest element and returns it, or `None` if the heap is
    /// empty.
    pub fn pop(&mut self) -> (value: Option<T>)
        requires
            old(self).wf(),
            total_order::<T>(),
        ensures
            final(self).wf(),
            final(self).capacity() == old(self).capacity(),
            old(self)@.len() == 0 ==> value is None && final(self)@ == old(self)@,
            old(self)@.len() > 0 ==> (value matches Some(v) && is_greatest(old(self)@, v)
                && final(self)@ == old(self)@.remove(v)),
    {
        proof {
            vstd::seq_lib::to_multiset_len(self.data@);
        }
        if self.data.is_empty() {
            return None;
        }
        let last: usize = self.data.len() - 1;
        self.data.swap(0, last);
        let ghost swapped = self.data@;
        let value = self.data.pop();
        proof {
            let before = old(self).data@;
            assert(swapped.drop_last() =~= swapped.remove(last as int));
            vstd::seq_lib::to_multiset_remove(swapped, last as int);
            assert(swapped[last as int] == before[0]);
            assert forall|x: T| #[trigger] before.to_multiset().contains(x) implies le(
                x,
                before[0],
            ) by {
                vstd::seq_lib::to_multiset_contains(before, x);
                let i = choose|i: int| 0 <= i < before.len() && before[i] == x;
                lemma_root_is_greatest(before, i);
            }
            vstd::seq_lib::to_multiset_contains(before, before[0]);
            assert(before.contains(before[0]));
        }
        if !self.data.is_empty() {
            self.sift_down(0);
        }
        value
    }

    /// Moves the element at `start` up, past each parent that it is greater
    /// than.
    fn sift_up(&mut self, start: usize)
        requires
            old(self).data.wf(),
            total_order::<T>(),
            start < old(self).data@.len(),
            heap_but_up(old(self).data@, start as int),
        ensures
            final(self).wf(),
            final(self)@ == old(self)@,
            final(self).capacity() == old(self).capacity(),
    {
        let mut pos: usize = start;
        while pos > 0
            invariant
                self.data.wf(),
                total_order::<T>(),
                pos < self.data@.len(),
                heap_but_up(self.data@, pos as int),
                self.data@.to_multiset() == old(self).data@.to_multiset(),
                self.data.capacity() == old(self).data.capacity(),
            ensures
                self.data.wf(),
                is_heap(self.data@),
                self.data@.to_multiset() == old(self).data@.to_multiset(),
                self.data.capacity() == old(self).data.capacity(),
            decreases pos,
        {
            let above: usize = (pos - 1) / 2;
            if !greater(self.data.get(pos), self.data.get(above)) {
                break;
            }
            let ghost before = self.data@;
            self.data.swap(pos, above);
            proof {
                let after = self.data@;
                lemma_le_total(before[pos as int], before[above as int]);
                assert forall|c: int| 0 < c < after.len() && c != above implies le(
                    #[trigger] after[c],
                    after[parent(c)],
                ) by {
                    if c == pos {
                    } else if parent(c) == pos {
                        assert(le(before[c], before[parent(pos as int)]));
                    } else if parent(c) == above {
                        assert(le(before[c], before[above as int]));
                        lemma_le_transitive(before[c], before[above as int], before[pos as int]);
                    } else {
                        assert(le(before[c], before[parent(c)]));
                    }
                }
                assert forall|c: int|
                    0 < c < after.len() && parent(c) == above && above > 0 implies le(
                    #[trigger] after[c],
                    after[parent(above as int)],
                ) by {
                    assert(le(before[above as int], before[parent(above as int)]));
                    if c != pos {
                        assert(le(before[c], before[above as int]));
                        lemma_le_transitive(
                            before[c],
                            before[above as int],
                            before[parent(above as int)],
                        );
                    }
                }
            }
            pos = above;
        }
    }

    /// Moves the element at `start` down, below each greater child, taking
    /// the greater of two children.
    fn sift_down(&mut self, start: usize)
        requires
            old(self).data.wf(),
            total_order::<T>(),
            start < old(self).data@.len(),
            heap_but_down(old(self).data@, start as int),
        ensures
            final(self).wf(),
            final(self)@ == old(self)@,
            final(self).capacity() == old(self).capacity(),
    {
        let len: usize = self.data.len();
        let mut pos: usize = start;
        while pos < len / 2
            invariant
                self.data.wf(),
                total_order::<T>(),
                len == self.data@.len(),
                pos < len,
                heap_but_down(self.data@, pos as int),
                self.data@.to_multiset() == old(self).data@.to_multiset(),
                self.data.capacity() == old(self).data.capacity(),
            ensures
                self.data.wf(),
                is_heap(self.data@),
                self.data@.to_multiset() == old(self).data@.to_multiset(),
                self.data.capacity() == old(self).data.capacity(),
            decreases len - pos,
        {
            let left: usize = 2 * pos + 1;
            let right: usize = left + 1;
            let child: usize = if right < len && greater(
                self.data.get(right),
                self.data.get(left),
            ) {
                right
            } else {
                left
            };
            let ghost before = self.data@;
            proof {
                assert(parent(left as int) == pos);
                assert(parent(right as int) == pos);
                assert forall|c: int| 0 < c < before.len() && parent(c) == pos implies c == left
                    || c == right by {}
                if right < len {
                    lemma_le_total(before[right as int], before[left as int]);
                }
            }
            if !greater(self.data.get(child), self.data.get(pos)) {
                proof {
                    assert forall|c: int| 0 < c < before.len() implies le(
                        #[trigger] before[c],
                        before[parent(c)],
                    ) by {
                        if parent(c) == pos && c != child {
                            lemma_le_transitive(
                                before[c],
                                before[child as int],
                                before[pos as int],
                            );
                        }
                    }
                }
                break;
            }
            self.data.swap(pos, child);
            proof {
                let after = self.data@;
                lemma_le_total(before[child as int], before[pos as int]);
                assert forall|c: int| 0 < c < after.len() && parent(c) != child implies le(
                    #[trigger] after[c],
                    after[parent(c)],
                ) by {
                    if c == child {
                    } else if parent(c) == pos {
                        assert(le(before[c], before[child as int]));
                    } else if c == pos {
                        assert(le(before[child as int], before[parent(pos as int)]));
                    } else {
                        assert(le(before[c], before[parent(c)]));
                    }
                }
                assert forall|c: int| 0 < c < after.len() && parent(c) == child implies le(
                    #[trigger] after[c],
                    after[parent(child as int)],
                ) by {
                    assert(le(before[c], before[parent(c)]));
                }
            }
            pos = child;
        }
        proof {
            if pos >= len / 2 {
                assert forall|c: int| 0 < c < self.data@.len() implies parent(c) != pos by {}
            }
        }
    }
}

impl<T: Ord> Default for BinaryHeap<T> {
    fn default() -> (heap: Self)
        ensures
            heap.wf(),
            heap@ == Multiset::<T>::empty(),
    {
        Self::new()
    }
}

} // verus!
