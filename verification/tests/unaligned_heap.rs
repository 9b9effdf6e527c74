use blasterball::allocator::{LinkedListAllocator, MemChunk};
use blasterball::boxed::Box;
use blasterball::boxed_fn::BoxedFn;
use blasterball::event_hook::EventInfo;
use blasterball::vec::Vec;
use std::cell::Cell;
use std::mem;

// A heap that starts at an address which is aligned for nothing but bytes
fn successful_allocator() -> LinkedListAllocator {
    LinkedListAllocator::new(MemChunk::new(0x20_0001, 0x8_0000))
}

// An allocator that was given a heap too small for anything but a byte
fn failing_allocator() -> LinkedListAllocator {
    LinkedListAllocator::new(MemChunk::new(0x20_0001, 1))
}

#[test]
fn test_partial_eq1() {
    let mut allocator = successful_allocator();
    let box1 = Box::new(32, &mut allocator);
    let box2 = Box::new(32, &mut allocator);
    let box3 = Box::new(1984, &mut allocator);
    assert_eq!(box1, box2);
    assert_ne!(box1, box3);
}

#[test]
fn test_partial_eq2() {
    let mut allocator = successful_allocator();
    let box1 = Box::new(32, &mut allocator);
    let n1 = 32;
    let n2 = 1984;
    assert_eq!(box1, n1);
    assert_ne!(box1, n2);
}

#[test]
#[allow(unused_assignments)]
fn test_deref() {
    let mut allocator = successful_allocator();
    let box1 = Box::new(45, &mut allocator);
    let mut n = 1_000;
    n = *box1;
    assert_eq!(n, 45);
}

#[test]
fn test_deref_mut() {
    let mut allocator = successful_allocator();
    let mut b: Box<i32> = Box::new(45, &mut allocator);
    *b.deref_mut() = 999_999;
    assert_eq!(b, 999_999);
}

#[test]
#[should_panic]
fn test_failed_allocation() {
    let mut allocator = failing_allocator();
    let _box1 = Box::new(32, &mut allocator);
}

#[test]
fn box_into_raw() {
    let mut allocator = successful_allocator();
    let b: Box<usize> = Box::new(1984, &mut allocator);
    let (b_ptr, b_val) = Box::into_raw(b);
    assert_eq!(b_val, 1984);
    assert_eq!(b_ptr % mem::align_of::<usize>(), 0);
}

#[test]
fn box_from_raw() {
    let mut allocator = successful_allocator();
    let ptr = allocator.allocate(mem::size_of::<i32>(), mem::align_of::<i32>()).unwrap();
    let b = Box::<i32>::from_raw(ptr, 100_000_000);
    assert_eq!(*b, 100_000_000);
}

#[test]
fn test_fn_call() {
    let mut allocator = successful_allocator();
    let was_called = Cell::new(false);
    let mut f = BoxedFn::new(
        |_| {
            was_called.set(true);
        },
        &mut allocator,
    );
    assert!(!was_called.get());
    f.call(EventInfo::Timer);
    assert!(was_called.get());
}

#[test]
fn test_vec_of_boxed_fn() {
    let no_of_fns_called = Cell::new(0);
    let mut allocator = successful_allocator();
    let mut v: Vec<BoxedFn> = Vec::with_capacity(3, &mut allocator);
    for _ in 0..3 {
        let f = BoxedFn::new(|_| no_of_fns_called.set(no_of_fns_called.get() + 1), &mut allocator);
        v.push(f, &mut allocator);
    }
    for i in 0..v.len() {
        v.index_mut(i).call(EventInfo::Timer);
    }
    assert_eq!(no_of_fns_called.get(), 3);
}

#[test]
fn test_clone() {
    let mut allocator = successful_allocator();
    let x = Cell::new(0);
    let f = BoxedFn::new(|_| x.set(x.get() + 1), &mut allocator);
    let mut g = f.clone(&mut allocator);
    f.drop(&mut allocator);
    assert_eq!(x.get(), 0);
    g.call(EventInfo::Timer);
    assert_eq!(x.get(), 1);
}
