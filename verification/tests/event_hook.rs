use blasterball::allocator::{LinkedListAllocator, MemChunk};
use blasterball::boxed_fn::BoxedFn;
use blasterball::event_hook::{EventHooker, EventInfo, EventKind};
use blasterball::keyboard::{KeyCode, KeyDirection, KeyEvent};
use std::cell::{Cell, RefCell};

// An allocator with a heap of one mebibyte: enough for every test here
fn successful_allocator() -> LinkedListAllocator {
    LinkedListAllocator::new(MemChunk::new(0x10_0000, 0x10_0000))
}

fn key_down(keycode: KeyCode) -> EventInfo {
    EventInfo::Keyboard(KeyEvent { keycode, direction: KeyDirection::Down })
}

#[test]
fn test_event_hooker1() {
    // This variable is increased everytime a timer handler is called
    let timer_no = Cell::new(0);
    // This variable is increased everytime a keyboard handler is called
    let keyboard_no = Cell::new(0);
    let mut allocator = successful_allocator();
    let mut event_hooker = EventHooker::new(&mut allocator);
    // Registering the timer and keyboard handlers
    let func = BoxedFn::new(|_| timer_no.set(timer_no.get() + 1), &mut allocator);
    let _timer_handler_hook_id = event_hooker.hook_event(EventKind::Timer, func, &mut allocator);
    let func = BoxedFn::new(|_| keyboard_no.set(keyboard_no.get() + 1), &mut allocator);
    let _keyboard_handler_hook_id =
        event_hooker.hook_event(EventKind::Keyboard, func, &mut allocator);
    // Send the timer event 3 times
    for _ in 0..3 {
        event_hooker.send_event(EventInfo::Timer);
    }
    // Since the timer event was sent 3 times and no keyboard
    // event has been sent, then the timer_no should have increased
    // to 3 and the keyboard_no should have remained 0
    assert_eq!(timer_no.get(), 3);
    assert_eq!(keyboard_no.get(), 0);
    // Send the keyboard event 3 times
    for _ in 0..3 {
        event_hooker.send_event(EventInfo::Keyboard(KeyEvent {
            keycode: KeyCode::A,
            direction: KeyDirection::Down,
        }));
    }
    // The timer_no should still be 3 and the keyboard_no should increase to 3
    assert_eq!(timer_no.get(), 3);
    assert_eq!(keyboard_no.get(), 3);
}

#[test]
fn test_event_hooker2() {
    // The number of times the timer handler was called
    let no_of_calls = Cell::new(0);
    let mut allocator = successful_allocator();
    let mut event_hooker = EventHooker::new(&mut allocator);
    let func = BoxedFn::new(|_| no_of_calls.set(no_of_calls.get() + 1), &mut allocator);
    let hook_id = event_hooker.hook_event(EventKind::Timer, func, &mut allocator);
    // Send the timer event 5 times
    for _ in 0..5 {
        event_hooker.send_event(EventInfo::Timer);
    }
    // Verify that no_of_calls increased to 5
    // (no_of_calls is incremented with every invocation
    // of the timer handler)
    assert_eq!(no_of_calls.get(), 5);
    // Unregister the timer handler
    event_hooker.unhook_event(EventKind::Timer, hook_id, &mut allocator).unwrap();
    // Send the timer event 5 times and verify that
    // no_of_calls remained the same
    for _ in 0..5 {
        event_hooker.send_event(EventInfo::Timer);
    }
    assert_eq!(no_of_calls.get(), 5);
}

#[test]
fn ids_count_up_and_are_never_used_again() {
    let mut allocator = successful_allocator();
    let mut event_hooker = EventHooker::new(&mut allocator);
    let func = BoxedFn::new(|_| {}, &mut allocator);
    assert_eq!(event_hooker.hook_event(EventKind::Timer, func, &mut allocator), 0);
    let func = BoxedFn::new(|_| {}, &mut allocator);
    assert_eq!(event_hooker.hook_event(EventKind::Keyboard, func, &mut allocator), 1);
    let func = BoxedFn::new(|_| {}, &mut allocator);
    assert_eq!(event_hooker.hook_event(EventKind::Timer, func, &mut allocator), 2);
    assert_eq!(event_hooker.unhook_event(EventKind::Timer, 2, &mut allocator), Ok(()));
    let func = BoxedFn::new(|_| {}, &mut allocator);
    assert_eq!(event_hooker.hook_event(EventKind::Timer, func, &mut allocator), 3);
}

#[test]
fn handlers_fire_in_the_order_they_were_hooked() {
    let fired: RefCell<Vec<(usize, EventInfo)>> = RefCell::new(Vec::new());
    let mut allocator = successful_allocator();
    let mut event_hooker = EventHooker::new(&mut allocator);
    let first = BoxedFn::new(|event| fired.borrow_mut().push((0, event)), &mut allocator);
    let second = BoxedFn::new(|event| fired.borrow_mut().push((1, event)), &mut allocator);
    let third = BoxedFn::new(|event| fired.borrow_mut().push((2, event)), &mut allocator);
    let other = BoxedFn::new(|event| fired.borrow_mut().push((3, event)), &mut allocator);
    event_hooker.hook_event(EventKind::Keyboard, first, &mut allocator);
    event_hooker.hook_event(EventKind::Keyboard, second, &mut allocator);
    event_hooker.hook_event(EventKind::Timer, other, &mut allocator);
    event_hooker.hook_event(EventKind::Keyboard, third, &mut allocator);
    event_hooker.send_event(key_down(KeyCode::ArrowLeft));
    event_hooker.send_event(EventInfo::Timer);
    assert_eq!(
        *fired.borrow(),
        vec![
            (0, key_down(KeyCode::ArrowLeft)),
            (1, key_down(KeyCode::ArrowLeft)),
            (2, key_down(KeyCode::ArrowLeft)),
            (3, EventInfo::Timer),
        ]
    );
}

#[test]
fn unhook_removes_the_matching_handler_and_no_other() {
    let calls = [Cell::new(0), Cell::new(0), Cell::new(0)];
    let mut allocator = successful_allocator();
    let mut event_hooker = EventHooker::new(&mut allocator);
    let mut ids = Vec::new();
    for count in &calls {
        let func = BoxedFn::new(move |_| count.set(count.get() + 1), &mut allocator);
        ids.push(event_hooker.hook_event(EventKind::Timer, func, &mut allocator));
    }
    event_hooker.send_event(EventInfo::Timer);
    assert_eq!(event_hooker.unhook_event(EventKind::Timer, ids[1], &mut allocator), Ok(()));
    event_hooker.send_event(EventInfo::Timer);
    assert_eq!([calls[0].get(), calls[1].get(), calls[2].get()], [2, 1, 2]);
    // The handler is gone: it cannot be removed twice
    assert_eq!(event_hooker.unhook_event(EventKind::Timer, ids[1], &mut allocator), Err(()));
    event_hooker.send_event(EventInfo::Timer);
    assert_eq!([calls[0].get(), calls[1].get(), calls[2].get()], [3, 1, 3]);
}

#[test]
fn unhook_fails_for_an_unknown_id_and_for_the_other_kind() {
    let count = Cell::new(0);
    let mut allocator = successful_allocator();
    let mut event_hooker = EventHooker::new(&mut allocator);
    let func = BoxedFn::new(|_| count.set(count.get() + 1), &mut allocator);
    let id = event_hooker.hook_event(EventKind::Timer, func, &mut allocator);
    let free = allocator.free_regions().clone();
    assert_eq!(event_hooker.unhook_event(EventKind::Timer, id + 1, &mut allocator), Err(()));
    assert_eq!(event_hooker.unhook_event(EventKind::Keyboard, id, &mut allocator), Err(()));
    assert_eq!(allocator.free_regions(), &free);
    event_hooker.send_event(EventInfo::Timer);
    assert_eq!(count.get(), 1);
}

#[test]
fn sending_to_a_kind_without_handlers_does_nothing() {
    let count = Cell::new(0);
    let mut allocator = successful_allocator();
    let mut event_hooker = EventHooker::new(&mut allocator);
    let func = BoxedFn::new(|_| count.set(count.get() + 1), &mut allocator);
    event_hooker.hook_event(EventKind::Keyboard, func, &mut allocator);
    let free = allocator.free_regions().clone();
    event_hooker.send_event(EventInfo::Timer);
    assert_eq!(count.get(), 0);
    assert_eq!(allocator.free_regions(), &free);
}

#[test]
fn unhook_gives_the_handler_block_back() {
    let mut allocator = successful_allocator();
    let mut event_hooker = EventHooker::new(&mut allocator);
    let free = allocator.free_regions().clone();
    let func = BoxedFn::new(|_| {}, &mut allocator);
    assert_ne!(allocator.free_regions(), &free);
    let id = event_hooker.hook_event(EventKind::Timer, func, &mut allocator);
    event_hooker.unhook_event(EventKind::Timer, id, &mut allocator).unwrap();
    assert_eq!(allocator.free_regions(), &free);
}

#[test]
fn the_eleventh_handler_makes_the_list_grow() {
    let count = Cell::new(0);
    let mut allocator = successful_allocator();
    let mut event_hooker = EventHooker::new(&mut allocator);
    for n in 0..25 {
        let func = BoxedFn::new(|_| count.set(count.get() + 1), &mut allocator);
        assert_eq!(event_hooker.hook_event(EventKind::Timer, func, &mut allocator), n);
    }
    event_hooker.send_event(EventInfo::Timer);
    assert_eq!(count.get(), 25);
    for window in allocator.free_regions().windows(2) {
        assert!(window[0].start_addr() + window[0].size() < window[1].start_addr());
    }
}

#[test]
fn event_info_knows_its_kind() {
    assert_eq!(EventInfo::Timer.kind(), EventKind::Timer);
    assert_eq!(key_down(KeyCode::Space).kind(), EventKind::Keyboard);
}

#[test]
fn the_registry_counts_its_handlers() {
    let mut allocator = successful_allocator();
    let mut event_hooker = EventHooker::new(&mut allocator);
    assert_eq!((event_hooker.len(EventKind::Timer), event_hooker.room(EventKind::Timer)), (0, 10));
    assert_eq!((event_hooker.len(EventKind::Keyboard), event_hooker.room(EventKind::Keyboard)), (0, 10));
    assert_eq!(event_hooker.next_id(), 0);
    for _ in 0..11 {
        let func = BoxedFn::new(|_| {}, &mut allocator);
        event_hooker.hook_event(EventKind::Keyboard, func, &mut allocator);
    }
    let func = BoxedFn::new(|_| {}, &mut allocator);
    event_hooker.hook_event(EventKind::Timer, func, &mut allocator);
    assert_eq!((event_hooker.len(EventKind::Timer), event_hooker.room(EventKind::Timer)), (1, 10));
    assert_eq!((event_hooker.len(EventKind::Keyboard), event_hooker.room(EventKind::Keyboard)), (11, 20));
    assert_eq!(event_hooker.next_id(), 12);
    event_hooker.unhook_event(EventKind::Keyboard, 4, &mut allocator).unwrap();
    assert_eq!((event_hooker.len(EventKind::Keyboard), event_hooker.room(EventKind::Keyboard)), (10, 20));
    assert_eq!(event_hooker.next_id(), 12);
}

#[test]
fn a_registry_that_does_not_fit_leaves_the_heap_alone() {
    let list = 10 * std::mem::size_of::<blasterball::event_hook::Handler>();
    // Room for one list of handlers, but not for two
    let mut allocator = LinkedListAllocator::new(MemChunk::new(0x10_0000, 2 * list - 1));
    assert!(EventHooker::try_new(&mut allocator).is_none());
    assert_eq!(allocator.free_regions().as_slice(), &[MemChunk::new(0x10_0000, 2 * list - 1)]);
    let mut allocator = LinkedListAllocator::new(MemChunk::new(0x10_0000, list - 1));
    assert!(EventHooker::try_new(&mut allocator).is_none());
    assert_eq!(allocator.free_regions().as_slice(), &[MemChunk::new(0x10_0000, list - 1)]);
    // Room for exactly two
    let mut allocator = LinkedListAllocator::new(MemChunk::new(0x10_0000, 2 * list));
    let event_hooker = EventHooker::try_new(&mut allocator).unwrap();
    assert!(allocator.free_regions().is_empty());
    assert_eq!(event_hooker.room(EventKind::Timer), 10);
}

#[test]
fn a_dropped_registry_gives_everything_back() {
    let mut allocator = successful_allocator();
    let free = allocator.free_regions().clone();
    let keep = allocator.allocate(100, 4).unwrap();
    let mut event_hooker = EventHooker::new(&mut allocator);
    for n in 0..30 {
        let kind = if n % 3 == 0 { EventKind::Timer } else { EventKind::Keyboard };
        let func = BoxedFn::new(|_| {}, &mut allocator);
        event_hooker.hook_event(kind, func, &mut allocator);
    }
    event_hooker.unhook_event(EventKind::Keyboard, 7, &mut allocator).unwrap();
    event_hooker.send_event(EventInfo::Timer);
    event_hooker.drop(&mut allocator);
    // The block that the registry did not hold is still handed out, and nothing else
    assert!(allocator.holds_block(keep, 100));
    allocator.dealloc(keep, 100);
    assert_eq!(allocator.free_regions(), &free);
}
