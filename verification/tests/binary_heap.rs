use std::cell::Cell;
use std::cmp::Ordering;
use std::rc::Rc;

struct DropMock {
    counter: Rc<Cell<usize>>,
}

impl DropMock {
    fn new() -> DropMock {
        DropMock { counter: Rc::new(Cell::new(0)) }
    }

    fn drop_cnt(&self) -> usize {
        self.counter.get()
    }
}

impl Clone for DropMock {
    fn clone(&self) -> Self {
        DropMock { counter: self.counter.clone() }
    }
}

impl Drop for DropMock {
    fn drop(&mut self) {
        self.counter.set(self.counter.get() + 1);
    }
}

/// A small generator of numbers that look random.
struct Numbers(u32);

impl Numbers {
    fn next_u32(&mut self) -> u32 {
        self.0 ^= self.0 << 13;
        self.0 ^= self.0 >> 17;
        self.0 ^= self.0 << 5;
        self.0
    }
}

#[test]
fn binary_heap_test_basic() {
    let mut heap = serial::BinaryHeap::new();
    assert_eq!(heap.len(), 0);
    heap.push(3);
    heap.push(4);
    heap.push(1);
    heap.push(2);
    heap.push(5);
    assert_eq!(heap.len(), 5);
    assert_eq!(heap.pop(), Some(5));
    assert_eq!(heap.pop(), Some(4));
    assert_eq!(heap.pop(), Some(3));
    assert_eq!(heap.pop(), Some(2));
    assert_eq!(heap.pop(), Some(1));
    assert_eq!(heap.pop(), None);
    assert_eq!(heap.len(), 0);
}

#[test]
#[allow(dead_code)]
fn binary_heap_assert_covariance() {
    fn a<'a>(x: serial::BinaryHeap<&'static str>) -> serial::BinaryHeap<&'a str> {
        x
    }
}

#[test]
fn binary_heap_test_dropck() {
    let mock = DropMock::new();
    {
        let mut heap = serial::BinaryHeap::<OrderedDropMock>::new();
        let mut random_range = Numbers(2463534242);
        for _ in 0..10 {
            heap.push(OrderedDropMock {
                0: random_range.next_u32(),
                1: mock.clone(),
            });
        }
    }
    assert_eq!(mock.drop_cnt(), 10);
}

/// OrderedDropMock counts drops and ordered like u32.
#[allow(dead_code)] // Compiler don't assume that dropping is use.
struct OrderedDropMock(u32, DropMock);

impl PartialEq for OrderedDropMock {
    fn eq(&self, other: &Self) -> bool {
        self.0 == other.0
    }
}

impl Eq for OrderedDropMock {}

impl PartialOrd for OrderedDropMock {
    fn partial_cmp(&self, other: &Self) -> Option<Ordering> {
        self.0.partial_cmp(&other.0)
    }
}

impl Ord for OrderedDropMock {
    fn cmp(&self, other: &Self) -> Ordering {
        self.0.cmp(&other.0)
    }
}

#[test]
fn empty_heap_gives_nothing() {
    let mut heap = serial::BinaryHeap::<i32>::new();
    assert!(heap.is_empty());
    assert_eq!(heap.len(), 0);
    assert_eq!(heap.capacity(), 0);
    assert_eq!(heap.pop(), None);
    assert!(heap.is_empty());
    let heap = serial::BinaryHeap::<i32>::default();
    assert!(heap.is_empty());
}

#[test]
fn heap_of_one_element() {
    let mut heap = serial::BinaryHeap::new();
    heap.push(7);
    assert!(!heap.is_empty());
    assert_eq!(heap.len(), 1);
    assert_eq!(heap.pop(), Some(7));
    assert!(heap.is_empty());
    assert_eq!(heap.pop(), None);
}

#[test]
fn equal_elements_all_come_out() {
    let mut heap = serial::BinaryHeap::new();
    for value in [2, 1, 2, 3, 1, 3, 2] {
        heap.push(value);
    }
    let mut out = Vec::new();
    while let Some(value) = heap.pop() {
        out.push(value);
    }
    assert_eq!(out, vec![3, 3, 2, 2, 2, 1, 1]);
}

#[test]
fn elements_come_out_in_descending_order() {
    let mut heap = serial::BinaryHeap::new();
    let mut numbers = Numbers(88172645);
    let mut expected = Vec::new();
    for _ in 0..500 {
        let value = numbers.next_u32() % 1000;
        heap.push(value);
        expected.push(value);
    }
    assert_eq!(heap.len(), 500);
    expected.sort();
    expected.reverse();
    let mut out = Vec::new();
    while let Some(value) = heap.pop() {
        out.push(value);
    }
    assert_eq!(out, expected);
    assert_eq!(heap.len(), 0);
}

#[test]
fn pushes_between_pops_keep_the_order() {
    let mut heap = serial::BinaryHeap::new();
    let mut model = std::collections::BinaryHeap::new();
    let mut numbers = Numbers(362436069);
    for _ in 0..2000 {
        let value = numbers.next_u32();
        if value % 3 == 0 {
            assert_eq!(heap.pop(), model.pop());
        } else {
            heap.push(value % 100);
            model.push(value % 100);
        }
        assert_eq!(heap.len(), model.len());
    }
}

#[test]
fn heap_grows_like_its_array() {
    let mut heap = serial::BinaryHeap::<u8>::new();
    heap.push(1);
    assert_eq!(heap.capacity(), 8);
    for value in 0..8 {
        heap.push(value);
    }
    assert_eq!(heap.capacity(), 16);
    while heap.pop().is_some() {}
    assert_eq!(heap.capacity(), 16);
}

#[test]
fn popped_heap_elements_are_dropped_once() {
    let mock = DropMock::new();
    {
        let mut heap = serial::BinaryHeap::<OrderedDropMock>::new();
        for priority in [5, 1, 9, 3, 7, 2] {
            heap.push(OrderedDropMock(priority, mock.clone()));
        }
        let top = heap.pop().unwrap();
        assert_eq!(top.0, 9);
        drop(top);
        assert_eq!(mock.drop_cnt(), 1);
        assert_eq!(heap.pop().unwrap().0, 7);
        assert_eq!(mock.drop_cnt(), 2);
    }
    assert_eq!(mock.drop_cnt(), 6);
}
