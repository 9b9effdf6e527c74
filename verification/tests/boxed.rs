use blasterball::allocator::{LinkedListAllocator, MemChunk};
use blasterball::boxed::Box;
use std::mem;

// An allocator with a heap of one mebibyte: enough for every test here
fn successful_allocator() -> LinkedListAllocator {
    LinkedListAllocator::new(MemChunk::new(0x10_0000, 0x10_0000))
}

// An allocator whose heap is all handed out
fn failing_allocator() -> LinkedListAllocator {
    let mut allocator = LinkedListAllocator::new(MemChunk::new(0x10_0000, 16));
    allocator.allocate(16, 1).unwrap();
    allocator
}

#[test]
fn boxed_test_partial_eq1() {
    let mut allocator = successful_allocator();
    let box1 = Box::new(32, &mut allocator);
    let box2 = Box::new(32, &mut allocator);
    let box3 = Box::new(1984, &mut allocator);
    assert_eq!(box1, box2);
    assert_ne!(box1, box3);
}

#[test]
fn boxed_test_partial_eq2() {
    let mut allocator = successful_allocator();
    let box1 = Box::new(32, &mut allocator);
    let n1 = 32;
    let n2 = 1984;
    assert_eq!(box1, n1);
    assert_ne!(box1, n2);
}

#[test]
#[allow(unused_assignments)]
fn boxed_test_deref() {
    let mut allocator = successful_allocator();
    let box1 = Box::new(45, &mut allocator);
    let mut n = 1_000;
    n = *box1;
    assert_eq!(n, 45);
}

#[test]
fn boxed_test_deref_mut() {
    let mut allocator = successful_allocator();
    let mut b: Box<i32> = Box::new(45, &mut allocator);
    *b.deref_mut() = 999_999;
    assert_eq!(b, 999_999);
}

#[test]
#[should_panic]
fn boxed_test_failed_allocation() {
    let mut allocator = failing_allocator();
    let _box1 = Box::new(32, &mut allocator);
}

#[test]
fn boxed_box_into_raw() {
    let mut allocator = successful_allocator();
    let b: Box<usize> = Box::new(1984, &mut allocator);
    let (_b_ptr, b_val) = Box::into_raw(b);
    assert_eq!(b_val, 1984);
}

#[test]
fn boxed_box_from_raw() {
    let mut allocator = successful_allocator();
    let ptr = allocator.allocate(mem::size_of::<i32>(), mem::align_of::<i32>()).unwrap();
    let b = Box::<i32>::from_raw(ptr, 100_000_000);
    assert_eq!(*b, 100_000_000);
}

#[test]
fn box_takes_its_size_from_the_heap_and_gives_it_back() {
    let mut allocator = successful_allocator();
    let before = allocator.free_regions().clone();
    let b = Box::new(7u64, &mut allocator);
    assert_eq!(b.as_ptr(), 0x10_0000);
    assert!(allocator.holds_block(b.as_ptr(), mem::size_of::<u64>()));
    assert_eq!(
        allocator.free_regions().as_slice(),
        &[MemChunk::new(0x10_0000 + mem::size_of::<u64>(), 0x10_0000 - mem::size_of::<u64>())]
    );
    b.drop(&mut allocator);
    assert_eq!(allocator.free_regions(), &before);
}

#[test]
fn box_address_is_aligned_for_the_value() {
    let mut allocator = LinkedListAllocator::new(MemChunk::new(0x10_0001, 0x1000));
    let b = Box::new(1u64, &mut allocator);
    assert_eq!(b.as_ptr() % mem::align_of::<u64>(), 0);
    assert_eq!(b.as_ptr(), 0x10_0008);
}

#[test]
fn into_raw_keeps_the_block_and_from_raw_gets_it_back() {
    let mut allocator = successful_allocator();
    let b = Box::new(5u32, &mut allocator);
    let addr = b.as_ptr();
    let (ptr, val) = Box::into_raw(b);
    assert_eq!(ptr, addr);
    // Nothing was given back: the block is still handed out
    assert!(allocator.holds_block(ptr, mem::size_of::<u32>()));
    let b = Box::from_raw(ptr, val);
    assert_eq!(b.as_ptr(), addr);
    assert_eq!(*b, 5);
    b.drop(&mut allocator);
    assert!(!allocator.holds_block(ptr, mem::size_of::<u32>()));
}
