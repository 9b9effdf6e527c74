use blasterball::allocator::{LinkedListAllocator, MemChunk};
use blasterball::vec::Vec;
use std::mem;

// An allocator with a heap of one mebibyte: enough for every test here
fn successful_allocator() -> LinkedListAllocator {
    LinkedListAllocator::new(MemChunk::new(0x10_0000, 0x10_0000))
}

#[test]
fn test_push1() {
    let mut allocator = successful_allocator();
    let mut v: Vec<u8> = Vec::with_capacity(5, &mut allocator);
    v.push(1, &mut allocator);
    v.push(2, &mut allocator);
    v.push(255, &mut allocator);
    assert_eq!(1, *v.index(0));
    assert_eq!(2, *v.index(1));
    assert_eq!(255, *v.index(2));
}

#[test]
fn test_push2() {
    let mut allocator = successful_allocator();
    let mut v: Vec<u8> = Vec::with_capacity(3, &mut allocator);
    v.push(2, &mut allocator);
    v.push(5, &mut allocator);
    v.push(10, &mut allocator);
    v.push(11, &mut allocator);
    assert_eq!(v.capacity(), 6);
}

#[test]
fn test_pop1() {
    let mut allocator = successful_allocator();
    let mut v = Vec::with_capacity(3, &mut allocator);
    v.push(212, &mut allocator);
    v.push(33, &mut allocator);
    assert_eq!(v.len(), 2);
    assert_eq!(v.pop(), 33);
    assert_eq!(v.len(), 1);
    assert_eq!(v.pop(), 212);
    assert_eq!(v.len(), 0);
}

#[should_panic]
#[test]
fn test_pop2() {
    let mut allocator = successful_allocator();
    let mut v: Vec<i32> = Vec::with_capacity(1, &mut allocator);
    v.pop();
}

#[test]
fn test_index() {
    let mut allocator = successful_allocator();
    let mut v = Vec::with_capacity(5, &mut allocator);
    v.push(2, &mut allocator);
    assert_eq!(*v.index(0), 2);
    v.push(3, &mut allocator);
    assert_eq!(*v.index(1), 3);
    *v.index_mut(0) = 100_000;
    assert_eq!(*v.index(0), 100_000);
}

#[test]
fn test_iter() {
    let mut allocator = successful_allocator();
    let mut v = Vec::with_capacity(2, &mut allocator);
    v.push(2, &mut allocator);
    v.push(4, &mut allocator);
    let mut v_iter = v.iter();
    assert_eq!(v_iter.next(), Some(&2));
    assert_eq!(v_iter.next(), Some(&4));
    assert_eq!(v_iter.next(), None);
}

#[test]
fn test_iter_mut() {
    let mut allocator = successful_allocator();
    let mut v = Vec::with_capacity(2, &mut allocator);
    v.push(4, &mut allocator);
    v.push(9, &mut allocator);
    {
        let mut v_iter_mut = v.iter_mut();
        let first_item = v_iter_mut.next();
        assert_eq!(first_item, Some(&mut 4));
        let first_item = first_item.unwrap();
        *first_item = 999_999_999;
    }
    assert_eq!(*v.index(0), 999_999_999);
}

#[test]
fn vec_clone() {
    let mut allocator = successful_allocator();
    let mut v = Vec::with_capacity(3, &mut allocator);
    v.push(4, &mut allocator);
    v.push(5, &mut allocator);
    v.push(87777, &mut allocator);
    let other_v = v.clone(&mut allocator);
    assert_eq!(v, other_v);
    assert_eq!(v.len(), other_v.len());
    assert_eq!(v.capacity(), other_v.capacity());
}

#[test]
fn try_pop_gives_none_on_an_empty_vector() {
    let mut allocator = successful_allocator();
    let mut v: Vec<u16> = Vec::with_capacity(2, &mut allocator);
    assert_eq!(v.try_pop(), None);
    v.push(7, &mut allocator);
    v.push(8, &mut allocator);
    assert_eq!(v.try_pop(), Some(8));
    assert_eq!(v.try_pop(), Some(7));
    assert_eq!(v.try_pop(), None);
    assert_eq!(v.len(), 0);
    assert_eq!(v.capacity(), 2);
}

#[test]
fn growth_doubles_the_capacity_once_and_keeps_the_items() {
    let mut allocator = successful_allocator();
    let mut v: Vec<u32> = Vec::with_capacity(4, &mut allocator);
    let first_buffer = v.as_ptr();
    assert_eq!(first_buffer, 0x10_0000);
    for n in 0..4 {
        v.push(10 * n, &mut allocator);
        assert_eq!(v.capacity(), 4);
        assert_eq!(v.as_ptr(), first_buffer);
    }
    assert_eq!(
        allocator.free_regions().as_slice(),
        &[MemChunk::new(0x10_0010, 0x10_0000 - 16)]
    );
    v.push(40, &mut allocator);
    assert_eq!(v.capacity(), 8);
    assert_eq!(v.len(), 5);
    // One block of twice the size was allocated, and the old block given back
    assert_eq!(v.as_ptr(), 0x10_0010);
    assert_eq!(
        allocator.free_regions().as_slice(),
        &[MemChunk::new(0x10_0000, 16), MemChunk::new(0x10_0030, 0x10_0000 - 48)]
    );
    assert!(allocator.holds_block(v.as_ptr(), 8 * mem::size_of::<u32>()));
    for n in 0..5 {
        assert_eq!(*v.index(n), 10 * n as u32);
    }
    // No further allocation before the vector is full again
    for n in 5..8 {
        v.push(10 * n, &mut allocator);
        assert_eq!(v.capacity(), 8);
        assert_eq!(v.as_ptr(), 0x10_0010);
    }
    v.push(80, &mut allocator);
    assert_eq!(v.capacity(), 16);
    assert_eq!(v.iter().copied().collect::<std::vec::Vec<u32>>(), [0, 10, 20, 30, 40, 50, 60, 70, 80]);
}

#[test]
fn remove_keeps_the_order_of_the_other_items() {
    let mut allocator = successful_allocator();
    let mut v: Vec<char> = Vec::with_capacity(5, &mut allocator);
    for c in ['a', 'b', 'c', 'd', 'e'] {
        v.push(c, &mut allocator);
    }
    assert_eq!(v.remove(1), 'b');
    assert_eq!(v.len(), 4);
    assert_eq!(v.iter().collect::<String>(), "acde");
    assert_eq!(v.remove(3), 'e');
    assert_eq!(v.iter().collect::<String>(), "acd");
    assert_eq!(v.remove(0), 'a');
    assert_eq!(v.iter().collect::<String>(), "cd");
    assert_eq!(v.capacity(), 5);
}

#[test]
fn dropped_vector_gives_its_buffer_back() {
    let mut allocator = successful_allocator();
    let before = allocator.free_regions().clone();
    let mut v: Vec<u64> = Vec::with_capacity(2, &mut allocator);
    for n in 0..5 {
        v.push(n, &mut allocator);
    }
    assert_eq!(v.capacity(), 8);
    v.drop(&mut allocator);
    assert_eq!(allocator.free_regions(), &before);
}

#[test]
fn vectors_with_different_items_are_not_equal() {
    let mut allocator = successful_allocator();
    let mut v: Vec<u8> = Vec::with_capacity(2, &mut allocator);
    let mut w: Vec<u8> = Vec::with_capacity(7, &mut allocator);
    v.push(1, &mut allocator);
    w.push(1, &mut allocator);
    assert!(v == w);
    w.push(2, &mut allocator);
    assert!(v != w);
    v.push(3, &mut allocator);
    assert!(v != w);
}
