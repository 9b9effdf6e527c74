use blasterball::allocator::{LinkedListAllocator, MemChunk};

const ONE_KIB: usize = 1024;

// Where the test heaps start: any address will do, the allocator only keeps books
const HEAP_START: usize = 0x10_0000;

fn new_allocator(memory_size: usize) -> LinkedListAllocator {
    LinkedListAllocator::new(MemChunk::new(HEAP_START, memory_size))
}

fn sizes(allocator: &LinkedListAllocator) -> Vec<usize> {
    allocator.free_regions().iter().map(|region| region.size()).collect()
}

#[test]
#[allow(non_snake_case)]
fn test_allocate_3Kib() {
    let mut allocator = new_allocator(10 * ONE_KIB);
    let regions = allocator.free_regions();
    assert_eq!(regions[0].size(), 10 * ONE_KIB, "The first node should be 10Kib");
    assert_eq!(regions.len(), 1, "There should be only one node");
    let ptr = allocator.allocate(3 * ONE_KIB, 1);
    assert!(ptr.is_some(), "Allocation should have been successful");
    let regions = allocator.free_regions();
    assert_eq!(regions[0].size(), 7 * ONE_KIB, "The first node should now be 7Kib");
    assert_eq!(regions.len(), 1, "There should still be only one node");
}

#[test]
#[allow(non_snake_case)]
fn test_allocate_3_4_2Kib() {
    let mut allocator = new_allocator(10 * ONE_KIB);
    let regions = allocator.free_regions();
    assert_eq!(regions[0].size(), 10 * ONE_KIB, "The first node should be 10Kib");
    assert_eq!(regions.len(), 1, "There should be only one node");
    let ptr_3 = allocator.allocate(3 * ONE_KIB, 1);
    let ptr_4 = allocator.allocate(4 * ONE_KIB, 1);
    let ptr_2 = allocator.allocate(2 * ONE_KIB, 1);
    assert!(ptr_3.is_some(), "Allocation of 3Kib should have been successful");
    assert!(ptr_4.is_some(), "Allocation of 4Kib should have been successful");
    assert!(ptr_2.is_some(), "Allocation of 2Kib should have been successful");
    let regions = allocator.free_regions();
    assert_eq!(regions[0].size(), 1 * ONE_KIB, "The first node should now be 1Kib");
    assert_eq!(regions.len(), 1, "There should still be only one node");
}

fn setup_3_4_2_dealloc_test1() -> (LinkedListAllocator, usize) {
    let mut allocator = new_allocator(10 * ONE_KIB);
    let _ptr_3 = allocator.allocate(3 * ONE_KIB, 1);
    let ptr_4 = allocator.allocate(4 * ONE_KIB, 1).unwrap();
    let _ptr_2 = allocator.allocate(2 * ONE_KIB, 1);
    (allocator, ptr_4)
}

#[test]
#[allow(non_snake_case)]
fn test_dealloc_3_4_2Kib1() {
    let (mut allocator, four_kib_ptr) = setup_3_4_2_dealloc_test1();
    let regions = allocator.free_regions();
    assert_eq!(regions[0].size(), 1 * ONE_KIB, "The first node should be 1Kib");
    assert_eq!(regions.len(), 1, "There should still be only one node");
    allocator.dealloc(four_kib_ptr, 4 * ONE_KIB);
    let regions = allocator.free_regions();
    assert_eq!(regions[0].size(), 4 * ONE_KIB, "The first node should now be 4Kib");
    assert!(regions.len() > 1, "There should be a next node");
    assert_eq!(regions[1].size(), 1 * ONE_KIB, "The second node should be 1Kib");
    assert_eq!(regions.len(), 2, "There should be only two nodes");
}

fn setup_3_4_2_dealloc_test2() -> (LinkedListAllocator, usize) {
    let mut allocator = new_allocator(10 * ONE_KIB);
    let ptr_3 = allocator.allocate(3 * ONE_KIB, 1).unwrap();
    let ptr_4 = allocator.allocate(4 * ONE_KIB, 1).unwrap();
    let _ptr_2 = allocator.allocate(2 * ONE_KIB, 1);
    allocator.dealloc(ptr_4, 4 * ONE_KIB);
    (allocator, ptr_3)
}

#[test]
#[allow(non_snake_case)]
fn test_dealloc_3_4_2Kib2() {
    let (mut allocator, three_kib_ptr) = setup_3_4_2_dealloc_test2();
    let regions = allocator.free_regions();
    assert_eq!(regions[0].size(), 4 * ONE_KIB, "First node should be 4Kib");
    assert!(regions.len() > 1, "There should be a second node");
    assert_eq!(regions[1].size(), 1 * ONE_KIB, "The second node should be 1Kib");
    assert!(regions.len() == 2, "There should be only two nodes");

    allocator.dealloc(three_kib_ptr, 3 * ONE_KIB);

    let regions = allocator.free_regions();
    assert_eq!(regions[0].size(), 7 * ONE_KIB, "The first node should be 7Kib");
    assert!(regions.len() > 1, "There should be a second node");
    assert_eq!(regions[1].size(), 1 * ONE_KIB, "The second node should be 1Kib");
    assert!(regions.len() == 2, "There should be only two nodes");
}

fn setup_3_4_2_dealloc_test3() -> (LinkedListAllocator, usize) {
    let mut allocator = new_allocator(10 * ONE_KIB);
    let ptr_3 = allocator.allocate(3 * ONE_KIB, 1).unwrap();
    let ptr_4 = allocator.allocate(4 * ONE_KIB, 1).unwrap();
    let ptr_2 = allocator.allocate(2 * ONE_KIB, 1).unwrap();
    allocator.dealloc(ptr_4, 4 * ONE_KIB);
    allocator.dealloc(ptr_3, 3 * ONE_KIB);
    (allocator, ptr_2)
}

#[test]
#[allow(non_snake_case)]
fn test_dealloc_3_4_2Kib3() {
    let (mut allocator, two_kib_ptr) = setup_3_4_2_dealloc_test3();
    let regions = allocator.free_regions();
    assert_eq!(regions[0].size(), 7 * ONE_KIB, "First node should be 7Kib");
    assert!(regions.len() > 1, "There should be a second node");
    assert_eq!(regions[1].size(), 1 * ONE_KIB, "The second node should be 1Kib");
    assert!(regions.len() == 2, "There should be only two nodes");

    allocator.dealloc(two_kib_ptr, 2 * ONE_KIB);

    let regions = allocator.free_regions();
    assert_eq!(regions[0].size(), 10 * ONE_KIB, "The first node should be 10Kib");
    assert!(regions.len() == 1, "There should not be a second node");
}

#[test]
fn first_block_starts_at_the_heap_start() {
    let mut allocator = new_allocator(10 * ONE_KIB);
    assert_eq!(allocator.allocate(3 * ONE_KIB, 1), Some(HEAP_START));
    assert_eq!(allocator.allocate(4 * ONE_KIB, 1), Some(HEAP_START + 3 * ONE_KIB));
    assert_eq!(
        allocator.free_regions()[0],
        MemChunk::new(HEAP_START + 7 * ONE_KIB, 3 * ONE_KIB)
    );
}

#[test]
fn exact_fit_at_region_start_removes_the_region() {
    let mut allocator = new_allocator(64);
    assert_eq!(allocator.allocate(64, 16), Some(HEAP_START));
    assert!(allocator.free_regions().is_empty());
    assert!(!allocator.has_room_for(1, 1));
    assert_eq!(allocator.allocate(1, 1), None);
}

#[test]
fn exact_fit_at_an_offset_keeps_the_bytes_before_it() {
    let mut allocator = LinkedListAllocator::new(MemChunk::new(0x1004, 0x1c));
    // The closest address aligned to 16 is 0x1010, and 0x10 bytes end the region
    assert_eq!(allocator.allocate(0x10, 16), Some(0x1010));
    assert_eq!(allocator.free_regions().as_slice(), &[MemChunk::new(0x1004, 0xc)]);
}

#[test]
fn larger_region_aligned_at_start_moves_the_region_up() {
    let mut allocator = LinkedListAllocator::new(MemChunk::new(0x1000, 0x100));
    assert_eq!(allocator.allocate(0x20, 0x1000), Some(0x1000));
    assert_eq!(allocator.free_regions().as_slice(), &[MemChunk::new(0x1020, 0xe0)]);
}

#[test]
fn larger_region_aligned_at_an_offset_is_split_in_two() {
    let mut allocator = LinkedListAllocator::new(MemChunk::new(0x1004, 0x100));
    assert_eq!(allocator.allocate(0x20, 0x40), Some(0x1040));
    assert_eq!(
        allocator.free_regions().as_slice(),
        &[MemChunk::new(0x1004, 0x3c), MemChunk::new(0x1060, 0xa4)]
    );
}

#[test]
fn region_too_small_after_alignment_is_skipped() {
    let mut allocator = LinkedListAllocator::new(MemChunk::new(0x1004, 0x20));
    // 0x20 bytes are free, but only 0x14 of them from the aligned address 0x1010 on
    assert_eq!(allocator.allocate(0x20, 16), None);
    assert_eq!(allocator.free_regions().as_slice(), &[MemChunk::new(0x1004, 0x20)]);
    assert_eq!(allocator.allocate(0x14, 16), Some(0x1010));
}

#[test]
fn first_fit_takes_the_lowest_region_that_fits() {
    let mut allocator = new_allocator(0x100);
    let a = allocator.allocate(0x10, 1).unwrap();
    let _b = allocator.allocate(0x10, 1).unwrap();
    let c = allocator.allocate(0x40, 1).unwrap();
    let _d = allocator.allocate(0x10, 1).unwrap();
    allocator.dealloc(a, 0x10);
    allocator.dealloc(c, 0x40);
    assert_eq!(sizes(&allocator), vec![0x10, 0x40, 0x90]);
    // Too large for the first free region, so it comes from the second
    assert_eq!(allocator.allocate(0x20, 1), Some(c));
    assert_eq!(sizes(&allocator), vec![0x10, 0x20, 0x90]);
    assert_eq!(allocator.allocate(0x10, 1), Some(a));
}

#[test]
fn alloc_then_dealloc_restores_the_free_list() {
    let mut allocator = LinkedListAllocator::new(MemChunk::new(0x1004, 0x100));
    for (size, align) in [(0x100usize, 1usize), (0x20, 1), (0x20, 0x40), (0xc4, 0x40), (1, 2)] {
        let before = allocator.free_regions().clone();
        let addr = allocator.allocate(size, align).unwrap();
        assert_eq!(addr % align, 0);
        assert!(allocator.holds_block(addr, size));
        allocator.dealloc(addr, size);
        assert_eq!(allocator.free_regions(), &before);
    }
}

#[test]
fn free_and_live_bytes_make_up_the_region() {
    let mut allocator = new_allocator(10 * ONE_KIB);
    let mut live: Vec<(usize, usize)> = Vec::new();
    let requests = [(100usize, 8usize), (700, 64), (32, 32), (4096, 4096), (1, 1), (900, 16)];
    for round in 0..4 {
        for (size, align) in requests {
            if let Some(addr) = allocator.allocate(size, align) {
                live.push((addr, size));
            }
        }
        // Give back every other block, oldest first
        let mut kept = Vec::new();
        for (n, (addr, size)) in live.drain(..).enumerate() {
            if (n + round) % 2 == 0 {
                allocator.dealloc(addr, size);
            } else {
                kept.push((addr, size));
            }
        }
        live = kept;
        let free: usize = sizes(&allocator).iter().sum();
        let used: usize = live.iter().map(|(_, size)| size).sum();
        assert_eq!(free + used, 10 * ONE_KIB);
        for (addr, size) in &live {
            assert!(allocator.holds_block(*addr, *size));
        }
        for pair in allocator.free_regions().windows(2) {
            assert!(pair[0].start_addr() + pair[0].size() < pair[1].start_addr());
        }
    }
    for (addr, size) in live {
        allocator.dealloc(addr, size);
    }
    assert_eq!(
        allocator.free_regions().as_slice(),
        &[MemChunk::new(HEAP_START, 10 * ONE_KIB)]
    );
}

#[test]
fn holds_block_refuses_free_and_empty_blocks() {
    let mut allocator = new_allocator(0x100);
    let addr = allocator.allocate(0x10, 1).unwrap();
    assert!(allocator.holds_block(addr, 0x10));
    assert!(!allocator.holds_block(addr, 0x11));
    assert!(!allocator.holds_block(addr, 0));
    assert!(!allocator.holds_block(usize::MAX, 1));
    allocator.dealloc(addr, 0x10);
    assert!(!allocator.holds_block(addr, 0x10));
}

#[test]
fn mem_chunk_addresses() {
    let chunk = MemChunk::new(0x2000, 0x100);
    assert_eq!(chunk.start_addr(), 0x2000);
    assert_eq!(chunk.end_addr(), 0x20ff);
    assert_eq!(chunk.size(), 0x100);
}
