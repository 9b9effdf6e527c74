//! The Task State Segment.
use vstd::prelude::*;

verus! {

/// The size of the Task State Segment in bytes, as the processor reads it.
pub const TSS_SIZE: u16 = 104;

/// The Task State Segment. Stack pointers are held as addresses, and the
/// null pointer as address 0.
#[derive(Debug, Clone, Copy)]
pub struct TSS {
    pub reserved1: u32,
    /// Stack pointers for different privilege levels
    pub privilege_stack_table: [u64; 3],
    pub reserved2: u64,
    /// Stack pointers for switching stacks when an interrupt handler wants to
    pub interrupt_stack_table: [u64; 7],
    pub reserved3: u64,
    pub reserved4: u16,
    /// Offset from the TSS start address to the IO permission bit map
    pub io_map_base_addr: u16,
}

impl TSS {
    /// Creates a new TSS with all the stack pointers set to null pointers
    /// and no IO permission bit map: the offset of the map is the size of
    /// the TSS, which says that there is none.
    pub fn new() -> (tss: TSS)
        ensures
            forall|i: int| 0 <= i < 3 ==> tss.privilege_stack_table@[i] == 0,
            forall|i: int| 0 <= i < 7 ==> tss.interrupt_stack_table@[i] == 0,
            tss.io_map_base_addr == TSS_SIZE,
            tss.reserved1 == 0,
            tss.reserved2 == 0,
            tss.reserved3 == 0,
            tss.reserved4 == 0,
    {
        TSS {
            privilege_stack_table: [0, 0, 0],
            interrupt_stack_table: [0, 0, 0, 0, 0, 0, 0],
            // Setting this field to the size of the TSS indicates that
            // there is no IO permission bit map
            io_map_base_addr: TSS_SIZE,
            // Always better to leave the reserved fields as 0s
            reserved1: 0,
            reserved2: 0,
            reserved3: 0,
            reserved4: 0,
        }
    }
}

} // verus!
