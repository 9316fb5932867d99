use std::cell::Cell;
use std::rc::Rc;

struct DropMock {
    counter: Rc<Cell<usize>>,
}

impl DropMock {
    fn new() -> DropMock {
        DropMock { counter: Rc::new(Cell::new(0)) }
    }

    fn drop_cnt(&self) -> usize {
        self.counter.get()
    }
}

impl Clone for DropMock {
    fn clone(&self) -> Self {
        DropMock { counter: self.counter.clone() }
    }
}

impl Drop for DropMock {
    fn drop(&mut self) {
        self.counter.set(self.counter.get() + 1);
    }
}

fn contents(vec: &serial::Vec<i32>) -> Vec<i32> {
    let mut out = Vec::new();
    for i in 0..vec.len() {
        out.push(vec[i]);
    }
    out
}

#[test]
fn vec_test_basic() {
    let mut vec = serial::Vec::<i32>::new();
    assert_eq!(vec.len(), 0);
    vec.push(1);
    vec.push(2);
    vec.push(3);
    assert_eq!(vec.len(), 3);
    assert_eq!(vec[0], 1);
    assert_eq!(vec[1], 2);
    assert_eq!(vec[2], 3);
    vec.remove(0);
    vec.remove(1);
    vec.remove(0);
    assert_eq!(vec.len(), 0);
}

#[test]
#[allow(dead_code)]
fn vec_assert_covariance() {
    fn a<'a>(x: serial::Vec<&'static str>) -> serial::Vec<&'a str> {
        x
    }
}

#[test]
fn vec_test_dropck() {
    let mock = DropMock::new();
    {
        let mut vec = serial::Vec::<Box<DropMock>>::with_capacity(10);
        for _ in 0..10 {
            vec.push(Box::new(mock.clone()));
        }
        for _ in 0..5 {
            vec.remove(0);
        }
    }
    assert_eq!(mock.drop_cnt(), 10);
}

#[test]
fn test_append() {
    let mut vec = serial::Vec::<i32>::with_capacity(5);
    for i in 0..5 {
        vec.push(i);
    }
    let mut other = serial::Vec::<i32>::with_capacity(5);
    for i in 5..10 {
        other.push(i);
    }
    let old_len = vec.len();
    let other_len = other.len();
    vec.append(&mut other);
    assert_eq!(vec.len(), old_len + other_len);
    assert_eq!(vec.len(), 10);
    assert_eq!(other.len(), 0);
    for i in 0..vec.len() {
        assert_eq!(i as i32, vec[i]);
    }
}

#[test]
fn test_insert() {
    let mut vec = serial::Vec::<i32>::with_capacity(5);
    vec.push(0);
    vec.push(1);
    vec.push(3);
    vec.insert(2, 2);
    vec.insert(4, 4);
    for i in 0..vec.len() {
        assert_eq!(i as i32, vec[i]);
    }
}

#[test]
fn append_moves_everything_and_empties_the_source() {
    let mut a = serial::Vec::<i32>::new();
    for i in 0..5 {
        a.push(i);
    }
    let mut b = serial::Vec::<i32>::with_capacity(5);
    for i in 5..10 {
        b.push(i);
    }
    let b_capacity = b.capacity();
    a.append(&mut b);
    assert_eq!(contents(&a), vec![0, 1, 2, 3, 4, 5, 6, 7, 8, 9]);
    assert_eq!(a.len(), 10);
    assert_eq!(b.len(), 0);
    assert!(b.is_empty());
    assert_eq!(b.capacity(), b_capacity);
    // The source can be used again.
    b.push(42);
    assert_eq!(contents(&b), vec![42]);
}

#[test]
fn append_of_an_empty_array_changes_nothing() {
    let mut a = serial::Vec::<i32>::new();
    a.push(7);
    let capacity = a.capacity();
    let mut b = serial::Vec::<i32>::new();
    a.append(&mut b);
    assert_eq!(contents(&a), vec![7]);
    assert_eq!(a.capacity(), capacity);
    assert_eq!(b.len(), 0);
}

#[test]
fn new_array_is_empty_and_unallocated() {
    let vec = serial::Vec::<i32>::new();
    assert!(vec.is_empty());
    assert_eq!(vec.len(), 0);
    assert_eq!(vec.capacity(), 0);
    let vec = serial::Vec::<i32>::default();
    assert!(vec.is_empty());
    assert_eq!(vec.capacity(), 0);
}

#[test]
fn with_capacity_reserves_exactly() {
    let vec = serial::Vec::<i32>::with_capacity(7);
    assert_eq!(vec.capacity(), 7);
    assert_eq!(vec.len(), 0);
    let vec = serial::Vec::<i32>::with_capacity(0);
    assert_eq!(vec.capacity(), 0);
}

#[test]
fn length_counts_pushes_minus_pops() {
    let mut vec = serial::Vec::<i32>::new();
    let mut expected = 0usize;
    for round in 0..50 {
        vec.push(round);
        expected += 1;
        assert_eq!(vec.len(), expected);
        if round % 3 == 2 {
            assert!(vec.pop().is_some());
            expected -= 1;
            assert_eq!(vec.len(), expected);
        }
    }
    // Every third value was popped right after it was pushed.
    let kept: Vec<i32> = (0..50).filter(|round| round % 3 != 2).collect();
    assert_eq!(contents(&vec), kept);
}

#[test]
fn pushes_keep_insertion_order() {
    let mut vec = serial::Vec::<i32>::new();
    for i in 0..100 {
        vec.push(i * i);
    }
    assert_eq!(vec.len(), 100);
    for i in 0..100usize {
        assert_eq!(vec[i], (i * i) as i32);
        assert_eq!(*vec.get(i), (i * i) as i32);
    }
}

#[test]
fn push_then_pop_is_lifo() {
    let mut vec = serial::Vec::<i32>::new();
    for i in 0..100 {
        vec.push(i);
    }
    for i in (0..100).rev() {
        assert_eq!(vec.pop(), Some(i));
    }
    assert!(vec.is_empty());
    assert_eq!(vec.len(), 0);
    assert_eq!(vec.pop(), None);
    assert_eq!(vec.len(), 0);
}

#[test]
fn pop_keeps_the_capacity() {
    let mut vec = serial::Vec::<i32>::new();
    for i in 0..5 {
        vec.push(i);
    }
    let capacity = vec.capacity();
    while vec.pop().is_some() {}
    assert_eq!(vec.capacity(), capacity);
}

#[test]
fn insert_shifts_the_tail_up() {
    let mut vec = serial::Vec::<i32>::new();
    for i in 0..5 {
        vec.push(i);
    }
    vec.insert(2, 99);
    assert_eq!(vec[2], 99);
    assert_eq!(vec.len(), 6);
    assert_eq!(contents(&vec), vec![0, 1, 99, 2, 3, 4]);
}

#[test]
fn insert_at_both_ends() {
    let mut vec = serial::Vec::<i32>::new();
    vec.insert(0, 1);
    assert_eq!(contents(&vec), vec![1]);
    vec.insert(0, 0);
    assert_eq!(contents(&vec), vec![0, 1]);
    vec.insert(2, 2);
    assert_eq!(contents(&vec), vec![0, 1, 2]);
}

#[test]
fn insert_into_a_full_array_grows_it() {
    let mut vec = serial::Vec::<i32>::with_capacity(2);
    vec.push(1);
    vec.push(3);
    assert_eq!(vec.capacity(), 2);
    vec.insert(1, 2);
    assert_eq!(vec.capacity(), 4);
    assert_eq!(contents(&vec), vec![1, 2, 3]);
}

#[test]
fn remove_puts_the_last_element_in_place() {
    let mut vec = serial::Vec::<i32>::new();
    for i in 0..5 {
        vec.push(i * 10);
    }
    assert_eq!(vec.remove(1), 10);
    assert_eq!(vec.len(), 4);
    assert_eq!(contents(&vec), vec![0, 40, 20, 30]);
    assert_eq!(vec.remove(3), 30);
    assert_eq!(contents(&vec), vec![0, 40, 20]);
    assert_eq!(vec.remove(0), 0);
    assert_eq!(contents(&vec), vec![20, 40]);
}

#[test]
fn remove_keeps_the_other_elements() {
    let mut vec = serial::Vec::<i32>::new();
    for i in 0..20 {
        vec.push(i % 7);
    }
    let mut expected: Vec<i32> = contents(&vec);
    for index in [3usize, 0, 11, 5, 16] {
        let removed = vec.remove(index % vec.len());
        let at = expected.iter().position(|x| *x == removed).unwrap();
        expected.remove(at);
        let mut left = contents(&vec);
        let mut want = expected.clone();
        left.sort();
        want.sort();
        assert_eq!(left, want);
        assert_eq!(vec.len(), expected.len());
    }
}

#[test]
fn remove_of_the_only_element() {
    let mut vec = serial::Vec::<i32>::new();
    vec.push(5);
    assert_eq!(vec.remove(0), 5);
    assert!(vec.is_empty());
}

#[test]
fn swap_exchanges_two_elements() {
    let mut vec = serial::Vec::<i32>::new();
    for i in 0..4 {
        vec.push(i);
    }
    vec.swap(0, 3);
    assert_eq!(contents(&vec), vec![3, 1, 2, 0]);
    vec.swap(1, 1);
    assert_eq!(contents(&vec), vec![3, 1, 2, 0]);
}

#[test]
fn get_mut_changes_one_element() {
    let mut vec = serial::Vec::<i32>::new();
    for i in 0..3 {
        vec.push(i);
    }
    *vec.get_mut(1) = 10;
    assert_eq!(contents(&vec), vec![0, 10, 2]);
}

#[test]
fn growth_of_one_byte_elements_starts_at_eight() {
    let mut vec = serial::Vec::<u8>::new();
    assert_eq!(vec.capacity(), 0);
    vec.push(1);
    assert_eq!(vec.capacity(), 8);
    for i in 0..7 {
        vec.push(i);
    }
    assert_eq!(vec.capacity(), 8);
    vec.push(9);
    assert_eq!(vec.capacity(), 16);
}

#[test]
fn growth_of_small_elements_starts_at_four() {
    let mut vec = serial::Vec::<u32>::new();
    vec.push(1);
    assert_eq!(vec.capacity(), 4);
    for i in 0..3 {
        vec.push(i);
    }
    assert_eq!(vec.capacity(), 4);
    vec.push(5);
    assert_eq!(vec.capacity(), 8);
    let mut vec = serial::Vec::<[u8; 1024]>::new();
    vec.push([0; 1024]);
    assert_eq!(vec.capacity(), 4);
}

#[test]
fn growth_of_large_elements_starts_at_one() {
    let mut vec = serial::Vec::<[u8; 1025]>::new();
    vec.push([0; 1025]);
    assert_eq!(vec.capacity(), 1);
    vec.push([1; 1025]);
    assert_eq!(vec.capacity(), 2);
    vec.push([2; 1025]);
    assert_eq!(vec.capacity(), 4);
    assert_eq!(vec[2][0], 2);
}

#[test]
fn reserve_leaves_room_for_the_request() {
    let mut vec = serial::Vec::<i32>::new();
    vec.reserve(3);
    assert_eq!(vec.capacity(), 4);
    assert!(vec.capacity() - vec.len() >= 3);
    for i in 0..4 {
        vec.push(i);
    }
    // Enough room is left: nothing changes.
    vec.reserve(0);
    assert_eq!(vec.capacity(), 4);
    // Doubling is enough.
    vec.reserve(2);
    assert_eq!(vec.capacity(), 8);
    assert!(vec.capacity() - vec.len() >= 2);
    // Doubling is not enough: the request decides.
    vec.reserve(100);
    assert_eq!(vec.capacity(), 104);
    assert!(vec.capacity() - vec.len() >= 100);
    assert_eq!(contents(&vec), vec![0, 1, 2, 3]);
}

#[test]
fn try_reserve_grows_like_reserve() {
    let mut vec = serial::Vec::<i32>::new();
    assert_eq!(vec.try_reserve(10), Ok(()));
    assert_eq!(vec.capacity(), 10);
    assert_eq!(vec.try_reserve(10), Ok(()));
    assert_eq!(vec.capacity(), 10);
    vec.push(1);
    assert_eq!(vec.try_reserve(10), Ok(()));
    assert_eq!(vec.capacity(), 20);
}

#[test]
fn try_reserve_reports_capacity_overflow() {
    let mut vec = serial::Vec::<u64>::new();
    vec.push(1);
    let capacity = vec.capacity();
    // The element count fits, its size in bytes does not.
    let error = vec.try_reserve(usize::MAX / 4).unwrap_err();
    assert_eq!(error.kind(), serial::TryReserveErrorKind::CapacityOverflow);
    // The element count does not fit.
    let error = vec.try_reserve(usize::MAX).unwrap_err();
    assert_eq!(error.kind(), serial::TryReserveErrorKind::CapacityOverflow);
    assert_eq!(vec.capacity(), capacity);
    assert_eq!(vec.len(), 1);
    assert_eq!(vec[0], 1);
}

#[test]
fn elements_without_size_need_no_capacity() {
    let mut vec = serial::Vec::<()>::new();
    assert_eq!(vec.capacity(), usize::MAX);
    for _ in 0..1000 {
        vec.push(());
    }
    assert_eq!(vec.len(), 1000);
    assert_eq!(vec.capacity(), usize::MAX);
    vec.reserve(usize::MAX - 1000);
    assert_eq!(vec.capacity(), usize::MAX);
    assert_eq!(vec.pop(), Some(()));
    assert_eq!(vec.len(), 999);
    let vec = serial::Vec::<()>::with_capacity(5);
    assert_eq!(vec.capacity(), usize::MAX);
}

#[test]
fn elements_without_size_cannot_grow() {
    let mut vec = serial::Vec::<()>::new();
    vec.push(());
    let error = vec.try_reserve(usize::MAX).unwrap_err();
    assert_eq!(error.kind(), serial::TryReserveErrorKind::CapacityOverflow);
    assert_eq!(vec.try_reserve(usize::MAX - 1), Ok(()));
}

#[test]
fn removed_elements_are_dropped_once() {
    let mock = DropMock::new();
    {
        let mut vec = serial::Vec::<DropMock>::new();
        for _ in 0..8 {
            vec.push(mock.clone());
        }
        assert_eq!(mock.drop_cnt(), 0);
        drop(vec.pop());
        assert_eq!(mock.drop_cnt(), 1);
        drop(vec.remove(2));
        assert_eq!(mock.drop_cnt(), 2);
        vec.insert(1, mock.clone());
        let mut other = serial::Vec::<DropMock>::new();
        other.push(mock.clone());
        other.push(mock.clone());
        vec.append(&mut other);
        assert_eq!(mock.drop_cnt(), 2);
        drop(other);
        assert_eq!(mock.drop_cnt(), 2);
        assert_eq!(vec.len(), 9);
    }
    assert_eq!(mock.drop_cnt(), 11);
}
