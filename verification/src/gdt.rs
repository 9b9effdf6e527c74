//! The Global Descriptor Table and what goes into it.
use vstd::prelude::*;

verus! {

/// An artificial limit placed on the number of entries that can be placed in
/// the GDT's descriptor array, for convenience.
pub const MAX_NO_OF_ENTRIES: usize = 8;

/// The descriptor is valid.
pub const VALID: u64 = 0x0000_8000_0000_0000;

/// The limit is counted in pages.
pub const GRANULARITY: u64 = 0x0080_0000_0000_0000;

/// Bits 0 to 15 of the limit, all set.
pub const LIMIT_0_15: u64 = 0x0000_0000_0000_ffff;

/// Bits 48 to 51 of the descriptor, the rest of the limit, all set.
pub const LIMIT_48_51: u64 = 0x000f_0000_0000_0000;

/// The segment holds 64-bit code.
pub const IS_CODE: u64 = 0x0020_0000_0000_0000;

/// The segment can be executed.
pub const EXECUTABLE: u64 = 0x0000_0800_0000_0000;

/// The segment is a code or a data segment, no system segment.
pub const NON_SYSTEM_SEGMENT: u64 = 0x0000_1000_0000_0000;

/// The segment can be read (code) or written (data).
pub const READ_WRITE: u64 = 0x0000_0200_0000_0000;

/// The bits that both the code and the data segment set.
pub const SHARED: u64 = 0x008f_9200_0000_ffff;

/// The descriptor of the code segment.
pub const CODE_SEGMENT: u64 = 0x00af_9a00_0000_ffff;

/// The descriptor of the data segment.
pub const DATA_SEGMENT: u64 = 0x008f_9200_0000_ffff;

/// The error for a table without room for a descriptor of one entry.
pub const NO_SPACE: &'static str = "no enough space for descriptor";

/// The error for a table without room for a descriptor of two entries.
pub const NO_SPACE_FOR_SYSTEM: &'static str = "No enough space for descriptor";

/// The segment descriptors are made of the bits they are named after.
pub proof fn lemma_descriptor_bits()
    ensures
        SHARED == NON_SYSTEM_SEGMENT | GRANULARITY | LIMIT_0_15 | LIMIT_48_51 | VALID | READ_WRITE,
        CODE_SEGMENT == SHARED | EXECUTABLE | IS_CODE,
        DATA_SEGMENT == SHARED,
        VALID == 1u64 << 47,
        GRANULARITY == 1u64 << 55,
        LIMIT_48_51 == 0xfu64 << 48,
        IS_CODE == 1u64 << 53,
        EXECUTABLE == 1u64 << 43,
        NON_SYSTEM_SEGMENT == 1u64 << 44,
        READ_WRITE == 1u64 << 41,
{
    assert(0x008f_9200_0000_ffffu64 == 0x0000_1000_0000_0000u64 | 0x0080_0000_0000_0000u64
        | 0x0000_0000_0000_ffffu64 | 0x000f_0000_0000_0000u64 | 0x0000_8000_0000_0000u64
        | 0x0000_0200_0000_0000u64) by (bit_vector);
    assert(0x00af_9a00_0000_ffffu64 == 0x008f_9200_0000_ffffu64 | 0x0000_0800_0000_0000u64
        | 0x0020_0000_0000_0000u64) by (bit_vector);
    assert(0x0000_8000_0000_0000u64 == 1u64 << 47 && 0x0080_0000_0000_0000u64 == 1u64 << 55
        && 0x000f_0000_0000_0000u64 == 0xfu64 << 48 && 0x0020_0000_0000_0000u64 == 1u64 << 53
        && 0x0000_0800_0000_0000u64 == 1u64 << 43 && 0x0000_1000_0000_0000u64 == 1u64 << 44
        && 0x0000_0200_0000_0000u64 == 1u64 << 41) by (bit_vector);
}

/// The limit of a Task State Segment: its size in bytes minus one.
pub const TSS_LIMIT: u64 = 103;

/// The type of a system segment that is an available 64-bit TSS, in its
/// place in a descriptor.
pub const TSS_AVAILABLE: u64 = 0x0000_0900_0000_0000;

/// The lower entry of the descriptor of a Task State Segment at `base`.
pub open spec fn tss_lower(base: u64) -> u64 {
    (TSS_LIMIT & 0xffff) | ((base & 0xff_ffff) << 16) | TSS_AVAILABLE | VALID | (((TSS_LIMIT >> 16)
        & 0xf) << 48) | (((base >> 24) & 0xff) << 56)
}

/// The upper entry of the descriptor of a Task State Segment at `base`.
pub open spec fn tss_upper(base: u64) -> u64 {
    base >> 32
}

/// The address that the two entries of a Task State Segment's descriptor
/// hold.
pub open spec fn tss_base(upper: u64, lower: u64) -> u64 {
    ((lower >> 16) & 0xff_ffff) | (((lower >> 56) & 0xff) << 24) | (upper << 32)
}

/// The descriptor of a Task State Segment holds the segment's address, its
/// limit in the low sixteen bits, and says that the segment is present and
/// an available TSS.
pub proof fn lemma_tss_descriptor(base: u64)
    ensures
        tss_base(tss_upper(base), tss_lower(base)) == base,
        tss_lower(base) & 0xffff == TSS_LIMIT,
        (tss_lower(base) >> 40) & 0xff == 0x89,
        (tss_lower(base) >> 48) & 0xf == 0,
{
    let lower = (103u64 & 0xffff) | ((base & 0xff_ffff) << 16) | 0x0000_0900_0000_0000u64
        | 0x0000_8000_0000_0000u64 | (((103u64 >> 16) & 0xf) << 48) | (((base >> 24) & 0xff) << 56);
    assert(tss_lower(base) == lower);
    assert(((lower >> 16) & 0xff_ffff) | (((lower >> 56) & 0xff) << 24) | ((base >> 32) << 32)
        == base && lower & 0xffff == 103 && (lower >> 40) & 0xff == 0x89 && (lower >> 48) & 0xf
        == 0) by (bit_vector)
        requires
            lower == (103u64 & 0xffff) | ((base & 0xff_ffff) << 16) | 0x0000_0900_0000_0000u64
                | 0x0000_8000_0000_0000u64 | (((103u64 >> 16) & 0xf) << 48) | (((base >> 24)
                & 0xff) << 56),
    ;
}

/// A segment descriptor.
#[derive(Debug, Clone, Copy, PartialEq, Eq, Structural)]
pub enum Descriptor {
    NonSystem(u64),
    /// (upper 64 bits, lower 64 bits) of segment descriptor
    System(u64, u64),
}

impl Descriptor {
    /// The descriptor of the code segment.
    pub fn code_segment() -> (descriptor: Descriptor)
        ensures
            descriptor == Descriptor::NonSystem(CODE_SEGMENT),
    {
        Descriptor::NonSystem(CODE_SEGMENT)
    }

    /// The descriptor of the data segment.
    pub fn data_segment() -> (descriptor: Descriptor)
        ensures
            descriptor == Descriptor::NonSystem(DATA_SEGMENT),
    {
        Descriptor::NonSystem(DATA_SEGMENT)
    }

    /// The descriptor of a Task State Segment at address `base`. It takes
    /// two entries. The lower one holds the segment's limit (its size minus
    /// one), the low 32 bits of the address, the type of an available 64-bit
    /// TSS and the bit that says the segment is present; the upper one holds
    /// the high 32 bits of the address.
    pub fn tss_segment(base: u64) -> (descriptor: Descriptor)
        ensures
            descriptor == Descriptor::System(tss_upper(base), tss_lower(base)),
    {
        let limit: u64 = TSS_LIMIT;
        let lower = (limit & 0xffff) | ((base & 0xff_ffff) << 16) | TSS_AVAILABLE | VALID | (((limit
            >> 16) & 0xf) << 48) | (((base >> 24) & 0xff) << 56);
        Descriptor::System(base >> 32, lower)
    }

    /// The number of entries that the descriptor takes in the table.
    pub open spec fn entries(self) -> int {
        match self {
            Descriptor::NonSystem(_) => 1,
            Descriptor::System(_, _) => 2,
        }
    }
}

/// Index into a GDT.
#[derive(Debug, Clone, Copy, PartialEq, Eq, Structural)]
pub struct SegmentSelector(pub u16);

impl SegmentSelector {
    /// Create a segment selector from an index: the index takes the bits
    /// from bit 3 up.
    pub fn new(index: u16) -> (selector: SegmentSelector)
        ensures
            selector.0 == index << 3,
            index < 8192 ==> selector.0 == 8 * index,
    {
        assert(index < 8192 ==> index << 3 == 8 * index) by (bit_vector);
        SegmentSelector(index << 3)
    }
}

/// The Global Descriptor Table.
pub struct GDT {
    // The segment descriptors
    descriptors: [u64; 8],
    // The next index available to place a descriptor in the GDT
    next_index: usize,
}

/// Tells the processor where a descriptor table is located.
pub struct DescriptorTablePointer<'a> {
    // Size of the descriptor table - 1
    limit: u16,
    // The descriptor table
    base: &'a GDT,
}

impl<'a> DescriptorTablePointer<'a> {
    /// Size of the descriptor table - 1.
    pub closed spec fn spec_limit(&self) -> u16 {
        self.limit
    }

    /// The descriptor table.
    pub closed spec fn spec_base(&self) -> &'a GDT {
        self.base
    }

    /// Size of the descriptor table - 1.
    #[verifier::when_used_as_spec(spec_limit)]
    pub fn limit(&self) -> (limit: u16)
        ensures
            limit == self.spec_limit(),
    {
        self.limit
    }

    /// The descriptor table.
    #[verifier::when_used_as_spec(spec_base)]
    pub fn base(&self) -> (base: &'a GDT)
        ensures
            base == self.spec_base(),
    {
        self.base
    }
}

impl GDT {
    /// The segment descriptors, used and unused.
    pub closed spec fn descriptors(&self) -> Seq<u64> {
        self.descriptors@
    }

    /// The next index available to place a descriptor in the GDT.
    pub closed spec fn spec_next_index(&self) -> usize {
        self.next_index
    }

    /// The invariant of the table: it has its eight entries, the first of
    /// which stays the null descriptor, and the next index is within it or
    /// right behind it.
    pub open spec fn wf(&self) -> bool {
        &&& self.descriptors().len() == MAX_NO_OF_ENTRIES
        &&& self.descriptors()[0] == 0
        &&& 1 <= self.spec_next_index() <= MAX_NO_OF_ENTRIES
    }

    /// Creates a new GDT. The first entry is kept as a null descriptor:
    /// descriptors are inserted from index 1 on.
    pub fn new() -> (gdt: GDT)
        ensures
            gdt.wf(),
            gdt.spec_next_index() == 1,
            forall|i: int| 0 <= i < MAX_NO_OF_ENTRIES ==> gdt.descriptors()[i] == 0,
    {
        GDT { descriptors: [0, 0, 0, 0, 0, 0, 0, 0], next_index: 1 }
    }

    /// The next index available to place a descriptor in the GDT.
    #[verifier::when_used_as_spec(spec_next_index)]
    pub fn next_index(&self) -> (index: usize)
        ensures
            index == self.spec_next_index(),
    {
        self.next_index
    }

    /// The descriptor table entry at `index`.
    pub fn entry(&self, index: usize) -> (entry: u64)
        requires
            self.wf(),
            index < MAX_NO_OF_ENTRIES,
        ensures
            entry == self.descriptors()[index as int],
    {
        self.descriptors[index]
    }

    /// Adds a segment descriptor to the descriptors array, at the next
    /// index, and returns the selector for that index. A system descriptor
    /// takes two entries: the lower half first, then the upper. When the
    /// table has no room for the descriptor, nothing changes.
    pub fn add_descriptor(&mut self, descriptor: Descriptor) -> (r: Result<
        SegmentSelector,
        &'static str,
    >)
        requires
            old(self).wf(),
        ensures
            final(self).wf(),
            r is Ok <==> old(self).spec_next_index() + descriptor.entries() <= MAX_NO_OF_ENTRIES,
            r matches Ok(selector) ==> {
                &&& selector.0 == 8 * old(self).spec_next_index()
                &&& final(self).spec_next_index() == old(self).spec_next_index()
                    + descriptor.entries()
                &&& final(self).descriptors() == match descriptor {
                    Descriptor::NonSystem(value) => old(self).descriptors().update(
                        old(self).spec_next_index() as int,
                        value,
                    ),
                    Descriptor::System(higher, lower) => old(self).descriptors().update(
                        old(self).spec_next_index() as int,
                        lower,
                    ).update(old(self).spec_next_index() + 1, higher),
                }
            },
            r matches Err(message) ==> {
                &&& *final(self) == *old(self)
                &&& message == match descriptor {
                    Descriptor::NonSystem(_) => NO_SPACE,
                    Descriptor::System(_, _) => NO_SPACE_FOR_SYSTEM,
                }
            },
    {
        match descriptor {
            Descriptor::NonSystem(value) => {
                // Is array full?
                if self.next_index >= MAX_NO_OF_ENTRIES {
                    return Err(NO_SPACE);
                }
                self.descriptors[self.next_index] = value;
                self.next_index += 1;
                Ok(SegmentSelector::new(self.next_index as u16 - 1))
            },
            Descriptor::System(higher, lower) => {
                // Is there enough space for a system descriptor?
                if self.next_index + 1 >= MAX_NO_OF_ENTRIES {
                    return Err(NO_SPACE_FOR_SYSTEM);
                }
                self.descriptors[self.next_index] = lower;
                self.descriptors[self.next_index + 1] = higher;
                self.next_index += 2;
                Ok(SegmentSelector::new(self.next_index as u16 - 2))
            },
        }
    }

    /// Creates a descriptor table pointer that tells the processor where
    /// the GDT is located and how large it is.
    pub fn as_pointer(&'static self) -> (pointer: DescriptorTablePointer<'static>)
        ensures
            pointer.spec_base() == self,
            pointer.spec_limit() == table_limit(),
    {
        let size = core::mem::size_of::<GDT>();
        let limit = if size > 0 {
            size - 1
        } else {
            0
        };
        DescriptorTablePointer { base: self, limit: limit as u16 }
    }
}

/// The limit of the table: its size in bytes minus one, in sixteen bits.
pub open spec fn table_limit() -> u16 {
    if vstd::layout::size_of::<GDT>() > 0 {
        (((vstd::layout::size_of::<GDT>() - 1) as usize) as u16)
    } else {
        0
    }
}

/// The registers that hold segment selectors.
#[derive(Debug, Clone, Copy, PartialEq, Eq, Structural)]
pub enum Register {
    Code,
    Data,
    Stack,
}

/// A selector to load into a segment register: what setting the register
/// asks of the machine.
#[derive(Debug, Clone, Copy, PartialEq, Eq, Structural)]
pub struct RegisterLoad {
    pub register: Register,
    pub selector: u16,
}

/// A register that holds a segment selector.
pub trait SegmentRegister {
    /// The register.
    spec fn register(&self) -> Register;

    /// The load of `selector` into the register.
    fn set(&self, selector: SegmentSelector) -> (load: RegisterLoad)
        ensures
            load.register == self.register(),
            load.selector == selector.0,
    ;
}

/// The data segment register.
pub struct DS;

/// The stack segment register.
pub struct SS;

/// The code segment register.
pub struct CS;

impl SegmentRegister for DS {
    open spec fn register(&self) -> Register {
        Register::Data
    }

    fn set(&self, selector: SegmentSelector) -> (load: RegisterLoad) {
        RegisterLoad { register: Register::Data, selector: selector.0 }
    }
}

impl SegmentRegister for SS {
    open spec fn register(&self) -> Register {
        Register::Stack
    }

    fn set(&self, selector: SegmentSelector) -> (load: RegisterLoad) {
        RegisterLoad { register: Register::Stack, selector: selector.0 }
    }
}

impl SegmentRegister for CS {
    open spec fn register(&self) -> Register {
        Register::Code
    }

    fn set(&self, selector: SegmentSelector) -> (load: RegisterLoad) {
        RegisterLoad { register: Register::Code, selector: selector.0 }
    }
}

} // verus!
