use blasterball::allocator::{LinkedListAllocator, MemChunk};
use blasterball::boxed_fn::{callable_layout, BoxedFn};
use blasterball::event_hook::EventInfo;
use blasterball::keyboard::{KeyCode, KeyDirection, KeyEvent};
use blasterball::vec::Vec;
use std::cell::Cell;
use std::mem;

// An allocator with a heap of one mebibyte: enough for every test here
fn successful_allocator() -> LinkedListAllocator {
    LinkedListAllocator::new(MemChunk::new(0x10_0000, 0x10_0000))
}

#[test]
fn boxed_fn_test_fn_call() {
    let mut allocator = successful_allocator();
    let was_called = Cell::new(false);
    let mut f = BoxedFn::new(
        |_| {
            was_called.set(true);
        },
        &mut allocator,
    );
    assert!(!was_called.get());
    f.call(EventInfo::Timer);
    assert!(was_called.get());
}

#[test]
fn boxed_fn_test_vec_of_boxed_fn() {
    let no_of_fns_called = Cell::new(0);
    let mut allocator = successful_allocator();
    let mut v: Vec<BoxedFn> = Vec::with_capacity(3, &mut allocator);
    v.push(BoxedFn::new(|_| no_of_fns_called.set(no_of_fns_called.get() + 1), &mut allocator), &mut allocator);
    v.push(BoxedFn::new(|_| no_of_fns_called.set(no_of_fns_called.get() + 1), &mut allocator), &mut allocator);
    v.push(BoxedFn::new(|_| no_of_fns_called.set(no_of_fns_called.get() + 1), &mut allocator), &mut allocator);
    v.iter_mut().for_each(|f| f.call(EventInfo::Timer));
    assert_eq!(no_of_fns_called.get(), 3);
}

#[test]
fn boxed_fn_test_clone() {
    let mut allocator = successful_allocator();
    let x = Cell::new(0);
    let f = BoxedFn::new(|_| x.set(x.get() + 1), &mut allocator);
    let mut g = f.clone(&mut allocator);
    f.drop(&mut allocator);
    assert_eq!(x.get(), 0);
    g.call(EventInfo::Timer);
    assert_eq!(x.get(), 1);
}

#[test]
fn calling_n_times_shows_n_calls() {
    let mut allocator = successful_allocator();
    let count = Cell::new(0u32);
    let mut f = BoxedFn::new(|_| count.set(count.get() + 1), &mut allocator);
    for n in 1..=17 {
        f.call(EventInfo::Timer);
        assert_eq!(count.get(), n);
    }
}

#[test]
fn the_closure_gets_the_event() {
    let mut allocator = successful_allocator();
    let seen = Cell::new(None);
    let mut f = BoxedFn::new(|event| seen.set(Some(event)), &mut allocator);
    let event = EventInfo::Keyboard(KeyEvent { keycode: KeyCode::Q, direction: KeyDirection::Up });
    f.call(event);
    assert_eq!(seen.get(), Some(event));
    f.call(EventInfo::Timer);
    assert_eq!(seen.get(), Some(EventInfo::Timer));
}

#[test]
fn block_holds_the_table_and_the_closure() {
    fn layout_of<F: Fn(EventInfo) + Copy>(_: &F) -> Option<(usize, usize)> {
        callable_layout::<F>()
    }
    let word = mem::size_of::<usize>();
    // A closure that captures nothing still takes the table's three entries
    let nothing = |_: EventInfo| {};
    assert_eq!(layout_of(&nothing), Some((3 * word, mem::align_of::<usize>())));
    // One reference more for a closure that captures one
    let cell = Cell::new(0);
    let one = |_: EventInfo| cell.set(1);
    assert_eq!(layout_of(&one), Some((4 * word, mem::align_of::<usize>())));
    // A byte is padded up to the alignment of the table
    let byte = 3u8;
    let small = move |_: EventInfo| {
        std::hint::black_box(byte);
    };
    assert_eq!(layout_of(&small), Some((4 * word, mem::align_of::<usize>())));
    // A capture that is aligned more strictly than the table moves up and aligns the block
    let wide = 1u128;
    let aligned = move |_: EventInfo| {
        std::hint::black_box(wide);
    };
    let align = mem::align_of::<u128>();
    let offset = (3 * word).div_ceil(align) * align;
    assert_eq!(layout_of(&aligned), Some(((offset + 16).div_ceil(align) * align, align)));
}

#[test]
fn each_handle_owns_a_block_of_its_own() {
    let mut allocator = successful_allocator();
    let before = allocator.free_regions().clone();
    let word = mem::size_of::<usize>();
    let x = Cell::new(0);
    let f = BoxedFn::new(|_| x.set(x.get() + 1), &mut allocator);
    let mut g = f.clone(&mut allocator);
    let mut h = g.clone(&mut allocator);
    assert_eq!(
        allocator.free_regions().as_slice(),
        &[MemChunk::new(0x10_0000 + 12 * word, 0x10_0000 - 12 * word)]
    );
    assert!(allocator.holds_block(0x10_0000, 4 * word));
    assert!(allocator.holds_block(0x10_0000 + 4 * word, 4 * word));
    assert!(allocator.holds_block(0x10_0000 + 8 * word, 4 * word));
    f.drop(&mut allocator);
    assert!(!allocator.holds_block(0x10_0000, 4 * word));
    assert!(allocator.holds_block(0x10_0000 + 4 * word, 4 * word));
    g.call(EventInfo::Timer);
    h.call(EventInfo::Timer);
    assert_eq!(x.get(), 2);
    g.drop(&mut allocator);
    h.drop(&mut allocator);
    assert_eq!(allocator.free_regions(), &before);
}

#[test]
fn a_handle_knows_its_block() {
    let mut allocator = LinkedListAllocator::new(MemChunk::new(0x10_0004, 0x1000));
    let cell = Cell::new(0);
    let f = BoxedFn::new(|_| cell.set(1), &mut allocator);
    let word = mem::size_of::<usize>();
    assert_eq!(f.layout(), (4 * word, mem::align_of::<usize>()));
    assert_eq!(f.as_ptr(), 0x10_0008);
    let g = f.clone(&mut allocator);
    assert_eq!(g.layout(), f.layout());
    assert_eq!(g.as_ptr(), 0x10_0008 + 4 * word);
}
