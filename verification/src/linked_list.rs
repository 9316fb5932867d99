//! A doubly-linked list. Every element lives in a node of its own, a block
//! on the heap; the nodes are linked in both directions and reached from the
//! two ends of the list.
//!
//! The list owns its nodes through a store, and a link is the place of a
//! node in that store. The store holds the nodes of the list and no others:
//! a node that leaves the list leaves the store, and is freed once its
//! element was taken out.

use vstd::prelude::*;

verus! {

/// A link to a node: its place in the node store, or `None` at an end of the
/// list.
type Link = Option<usize>;

struct Node<T> {
    next: Link,
    prev: Link,
    element: T,
}

impl<T> Node<T> {
    fn new(element: T) -> (node: Self)
        ensures
            node.next is None,
            node.prev is None,
            node.element == element,
    {
        Self { next: None, prev: None, element }
    }

    fn into_element(self: Box<Self>) -> (element: T)
        ensures
            element == self.element,
    {
        self.element
    }
}

/// What pushes of `values` at the front, one after the other, make of the
/// elements `s`.
pub open spec fn after_front_pushes<T>(s: Seq<T>, values: Seq<T>) -> Seq<T>
    decreases values.len(),
{
    if values.len() == 0 {
        s
    } else {
        seq![values.last()] + after_front_pushes(s, values.drop_last())
    }
}

/// The values that `n` pops at the back return, in the order in which they
/// come.
pub open spec fn popped_back<T>(s: Seq<T>, n: nat) -> Seq<T>
    recommends
        n <= s.len(),
    decreases n,
{
    if n == 0 {
        Seq::empty()
    } else {
        seq![s.last()] + popped_back(s.drop_last(), (n - 1) as nat)
    }
}

/// Values pushed at the front stand before what was there, the last one
/// first.
pub proof fn lemma_front_pushes_reverse<T>(s: Seq<T>, values: Seq<T>)
    ensures
        after_front_pushes(s, values) == values.reverse() + s,
    decreases values.len(),
{
    if values.len() == 0 {
        assert(values.reverse() + s =~= s);
    } else {
        lemma_front_pushes_reverse(s, values.drop_last());
        assert(seq![values.last()] + (values.drop_last().reverse() + s) =~= values.reverse() + s);
    }
}

/// Popping every element at the back yields the elements from the back to
/// the front.
pub proof fn lemma_popped_back_is_reverse<T>(s: Seq<T>)
    ensures
        popped_back(s, s.len()) == s.reverse(),
    decreases s.len(),
{
    if s.len() == 0 {
        assert(s.reverse() =~= Seq::<T>::empty());
    } else {
        lemma_popped_back_is_reverse(s.drop_last());
        assert(seq![s.last()] + s.drop_last().reverse() =~= s.reverse());
    }
}

/// What goes in at the front comes out at the back in the same order:
/// values pushed at the front of an empty list, and then popped at the back
/// as often, come back in the order in which they were pushed.
pub proof fn lemma_front_to_back_keeps_order<T>(values: Seq<T>)
    ensures
        popped_back(after_front_pushes(Seq::empty(), values), values.len()) == values,
{
    lemma_front_pushes_reverse(Seq::<T>::empty(), values);
    assert(values.reverse() + Seq::<T>::empty() =~= values.reverse());
    lemma_popped_back_is_reverse(values.reverse());
    assert(values.reverse().reverse() =~= values);
}

/// A doubly-linked list with owned nodes.
///
/// [`LinkedList::clear`] takes the list apart from the front to the back.
/// A list that is dropped gives up its nodes in the order of the store.
pub struct LinkedList<T> {
    head: Link,
    tail: Link,
    len: usize,
    /// The nodes; `next` and `prev` of a node are places in this store.
    nodes: Vec<Box<Node<T>>>,
    /// For each position of the list, from the front, the place of its node.
    order: Ghost<Seq<usize>>,
    /// For each place of the store, the position of its node in the list.
    position: Ghost<Seq<int>>,
}

impl<T> View for LinkedList<T> {
    type V = Seq<T>;

    /// The elements, from the front to the back.
    closed spec fn view(&self) -> Seq<T> {
        Seq::new(self.len as nat, |k: int| self.nodes@[self.order@[k] as int].element)
    }
}

impl<T> LinkedList<T> {
    /// The links form one chain through the nodes of the list: `order` and
    /// `position` are inverse to each other and cover every place of the
    /// store but `detached`; following `next` from the head walks the nodes
    /// in order and ends behind the tail; following `prev` from the tail
    /// walks them in reverse and ends before the head.
    spec fn linked(&self, detached: Option<int>) -> bool {
        let n = self.nodes@.len() as int;
        let len = self.len as int;
        &&& self.order@.len() == len
        &&& self.position@.len() == n
        &&& (match detached {
            Some(d) => 0 <= d < n && n == len + 1,
            None => n == len,
        })
        &&& forall|k: int|
            0 <= k < len ==> {
                &&& 0 <= #[trigger] self.order@[k] < n
                &&& Some(self.order@[k] as int) != detached
                &&& self.position@[self.order@[k] as int] == k
            }
        &&& forall|i: int|
            0 <= i < n && Some(i) != detached ==> {
                &&& 0 <= #[trigger] self.position@[i] < len
                &&& self.order@[self.position@[i]] == i
            }
        &&& forall|k: int|
            0 <= k < len ==> (#[trigger] self.nodes@[self.order@[k] as int]).next == (if k + 1
                < len {
                Some(self.order@[k + 1])
            } else {
                None
            })
        &&& forall|k: int|
            0 <= k < len ==> (#[trigger] self.nodes@[self.order@[k] as int]).prev == (if k > 0 {
                Some(self.order@[k - 1])
            } else {
                None
            })
        &&& self.head == (if len > 0 {
            Some(self.order@[0])
        } else {
            None
        })
        &&& self.tail == (if len > 0 {
            Some(self.order@[len - 1])
        } else {
            None
        })
    }

    /// The invariant of the list: the head and the tail are absent exactly
    /// when the list is empty, and the links form one chain of `len` nodes
    /// that reads the same from both ends.
    pub closed spec fn wf(&self) -> bool {
        self.linked(None)
    }

    /// The number of elements.
    pub open spec fn spec_len(&self) -> usize {
        self@.len() as usize
    }

    /// An empty list.
    pub fn new() -> (list: Self)
        ensures
            list.wf(),
            list@ == Seq::<T>::empty(),
    {
        Self {
            head: None,
            tail: None,
            len: 0,
            nodes: Vec::new(),
            order: Ghost(Seq::empty()),
            position: Ghost(Seq::empty()),
        }
    }

    /// Whether the list holds no element.
    pub fn is_empty(&self) -> (empty: bool)
        requires
            self.wf(),
        ensures
            empty == (self@.len() == 0),
    {
        self.head.is_none()
    }

    /// The number of elements.
    #[verifier::when_used_as_spec(spec_len)]
    pub fn len(&self) -> (len: usize)
        ensures
            len == self@.len(),
            len == self.spec_len(),
    {
        self.len
    }
}

impl<T> Default for LinkedList<T> {
    fn default() -> (list: Self)
        ensures
            list.wf(),
            list@ == Seq::<T>::empty(),
    {
        Self::new()
    }
}

impl<T> LinkedList<T> {
    /// The first element, or `None` if the list is empty.
    pub fn front(&self) -> (element: Option<&T>)
        requires
            self.wf(),
        ensures
            self@.len() == 0 ==> element is None,
            self@.len() > 0 ==> element == Some(&self@[0]),
    {
        match self.head {
            None => None,
            Some(head) => Some(&self.nodes[head].element),
        }
    }

    /// The last element, or `None` if the list is empty.
    pub fn back(&self) -> (element: Option<&T>)
        requires
            self.wf(),
        ensures
            self@.len() == 0 ==> element is None,
            self@.len() > 0 ==> element == Some(&self@[self@.len() - 1]),
    {
        match self.tail {
            None => None,
            Some(tail) => Some(&self.nodes[tail].element),
        }
    }

    /// The first element, to be changed in place, or `None` if the list is
    /// empty.
    pub fn front_mut(&mut self) -> (element: Option<&mut T>)
        requires
            old(self).wf(),
        ensures
            final(self).wf(),
            old(self)@.len() == 0 ==> element is None && final(self)@ == old(self)@,
            old(self)@.len() > 0 ==> (element matches Some(first) && *first == old(self)@[0]
                && final(self)@ == old(self)@.update(0, *final(first))),
    {
        match self.head {
            None => None,
            Some(head) => Some(&mut self.nodes[head].element),
        }
    }

    /// The last element, to be changed in place, or `None` if the list is
    /// empty.
    pub fn back_mut(&mut self) -> (element: Option<&mut T>)
        requires
            old(self).wf(),
        ensures
            final(self).wf(),
            old(self)@.len() == 0 ==> element is None && final(self)@ == old(self)@,
            old(self)@.len() > 0 ==> (element matches Some(last) && *last == old(self)@.last()
                && final(self)@ == old(self)@.update(old(self)@.len() - 1, *final(last))),
    {
        match self.tail {
            None => None,
            Some(tail) => Some(&mut self.nodes[tail].element),
        }
    }

    /// Adds `element` at the front.
    pub fn push_front(&mut self, element: T)
        requires
            old(self).wf(),
            old(self)@.len() < usize::MAX,
        ensures
            final(self).wf(),
            final(self)@ == seq![element] + old(self)@,
    {
        self.push_front_node(Box::new(Node::new(element)));
    }

    /// Removes the first element and returns it, or `None` if the list is
    /// empty.
    pub fn pop_front(&mut self) -> (element: Option<T>)
        requires
            old(self).wf(),
        ensures
            final(self).wf(),
            old(self)@.len() == 0 ==> element is None && final(self)@ == old(self)@,
            old(self)@.len() > 0 ==> element == Some(old(self)@[0]) && final(self)@
                == old(self)@.drop_first(),
    {
        match self.pop_front_node() {
            None => None,
            Some(node) => Some(node.into_element()),
        }
    }

    /// Adds `element` at the back.
    pub fn push_back(&mut self, element: T)
        requires
            old(self).wf(),
            old(self)@.len() < usize::MAX,
        ensures
            final(self).wf(),
            final(self)@ == old(self)@.push(element),
    {
        self.push_back_node(Box::new(Node::new(element)));
    }

    /// Removes every element, from the front to the back.
    pub fn clear(&mut self)
        requires
            old(self).wf(),
        ensures
            final(self).wf(),
            final(self)@ == Seq::<T>::empty(),
    {
        while self.len > 0
            invariant
                self.wf(),
                self.len == self@.len(),
            decreases self.len,
        {
            let _ = self.pop_front_node();
        }
    }

    /// Removes the last element and returns it, or `None` if the list is
    /// empty.
    pub fn pop_back(&mut self) -> (element: Option<T>)
        requires
            old(self).wf(),
        ensures
            final(self).wf(),
            old(self)@.len() == 0 ==> element is None && final(self)@ == old(self)@,
            old(self)@.len() > 0 ==> element == Some(old(self)@.last()) && final(self)@
                == old(self)@.drop_last(),
    {
        match self.pop_back_node() {
            None => None,
            Some(node) => Some(node.into_element()),
        }
    }
}

// The links
impl<T> LinkedList<T> {
    /// Takes `node` into the store and links it in at the front.
    fn push_front_node(&mut self, node: Box<Node<T>>)
        requires
            old(self).wf(),
            old(self)@.len() < usize::MAX,
        ensures
            final(self).wf(),
            final(self)@ == seq![node.element] + old(self)@,
    {
        let mut node = node;
        node.next = self.head;
        node.prev = None;
        let place: usize = self.nodes.len();
        self.nodes.push(node);
        let link = Some(place);
        match self.head {
            None => {
                self.tail = link;
            },
            Some(head) => {
                self.nodes[head].prev = link;
            },
        }
        self.head = link;
        self.len += 1;
        proof {
            self.order@ = seq![place] + old(self).order@;
            self.position@ = Seq::new(
                self.nodes@.len(),
                |i: int|
                    if i == place {
                        0
                    } else {
                        old(self).position@[i] + 1
                    },
            );
            assert forall|k: int| 0 < k < self.len implies #[trigger] self.order@[k]
                == old(self).order@[k - 1] by {}
        }
    }

    /// Takes `node` into the store and links it in at the back.
    fn push_back_node(&mut self, node: Box<Node<T>>)
        requires
            old(self).wf(),
            old(self)@.len() < usize::MAX,
        ensures
            final(self).wf(),
            final(self)@ == old(self)@.push(node.element),
    {
        let mut node = node;
        node.next = None;
        node.prev = self.tail;
        let place: usize = self.nodes.len();
        self.nodes.push(node);
        let link = Some(place);
        match self.tail {
            None => {
                self.head = link;
            },
            Some(tail) => {
                self.nodes[tail].next = link;
            },
        }
        self.tail = link;
        self.len += 1;
        proof {
            self.order@ = old(self).order@.push(place);
            self.position@ = old(self).position@.push(old(self).len as int);
        }
    }

    /// Unlinks the node at the front and hands it out.
    fn pop_front_node(&mut self) -> (node: Option<Box<Node<T>>>)
        requires
            old(self).wf(),
        ensures
            final(self).wf(),
            old(self)@.len() == 0 ==> node is None && final(self)@ == old(self)@,
            old(self)@.len() > 0 ==> (node matches Some(first) && first.element == old(self)@[0]
                && final(self)@ == old(self)@.drop_first()),
    {
        match self.head {
            None => None,
            Some(place) => {
                self.head = self.nodes[place].next;
                match self.head {
                    None => {
                        self.tail = None;
                    },
                    Some(head) => {
                        self.nodes[head].prev = None;
                    },
                }
                self.len -= 1;
                proof {
                    self.order@ = old(self).order@.drop_first();
                    self.position@ = Seq::new(
                        self.nodes@.len(),
                        |i: int| old(self).position@[i] - 1,
                    );
                    assert forall|k: int| 0 <= k < self.len implies #[trigger] self.order@[k]
                        == old(self).order@[k + 1] by {}
                }
                Some(self.release(place))
            },
        }
    }

    /// Unlinks the node at the back and hands it out.
    fn pop_back_node(&mut self) -> (node: Option<Box<Node<T>>>)
        requires
            old(self).wf(),
        ensures
            final(self).wf(),
            old(self)@.len() == 0 ==> node is None && final(self)@ == old(self)@,
            old(self)@.len() > 0 ==> (node matches Some(last) && last.element == old(self)@.last()
                && final(self)@ == old(self)@.drop_last()),
    {
        match self.tail {
            None => None,
            Some(place) => {
                self.tail = self.nodes[place].prev;
                match self.tail {
                    None => {
                        self.head = None;
                    },
                    Some(tail) => {
                        self.nodes[tail].next = None;
                    },
                }
                self.len -= 1;
                proof {
                    self.order@ = old(self).order@.drop_last();
                }
                Some(self.release(place))
            },
        }
    }

    /// Takes the unlinked node at `place` out of the store. The node at the
    /// last place of the store moves to `place`, and its neighbours, or the
    /// ends of the list, are linked to where it is now.
    fn release(&mut self, place: usize) -> (node: Box<Node<T>>)
        requires
            old(self).linked(Some(place as int)),
        ensures
            final(self).wf(),
            final(self)@ == old(self)@,
            node == old(self).nodes@[place as int],
    {
        let ghost last = (self.nodes@.len() - 1) as int;
        let node = self.nodes.swap_remove(place);
        if place < self.nodes.len() {
            let ghost moved = old(self).position@[last];
            let prev = self.nodes[place].prev;
            let next = self.nodes[place].next;
            match prev {
                Some(before) => {
                    self.nodes[before].next = Some(place);
                },
                None => {
                    self.head = Some(place);
                },
            }
            match next {
                Some(after) => {
                    self.nodes[after].prev = Some(place);
                },
                None => {
                    self.tail = Some(place);
                },
            }
            proof {
                self.order@ = old(self).order@.update(moved, place);
                self.position@ = old(self).position@.update(place as int, moved).drop_last();
            }
        } else {
            proof {
                self.position@ = old(self).position@.drop_last();
            }
        }
        node
    }
}

} // verus!
