//! The Interrupt Descriptor Table and its entries.
use crate::gdt::SegmentSelector;
use core::marker::PhantomData;
use vstd::prelude::*;

verus! {

/// The number of entries that the processor keeps for its own exceptions.
pub const NO_OF_EXCEPTIONS: usize = 32;

/// The number of entries that are left for interrupts.
pub const NO_OF_INTERRUPTS: usize = 256 - NO_OF_EXCEPTIONS;

/// Marks an entry whose service routine takes the stack frame.
#[derive(Debug, Clone, Copy, PartialEq, Eq, Structural)]
pub struct ServiceRoutine;

/// Marks an entry whose service routine takes the stack frame and an error
/// code.
#[derive(Debug, Clone, Copy, PartialEq, Eq, Structural)]
pub struct ServiceRoutineWithErrCode;

/// Marks an entry whose service routine takes the stack frame and an error
/// code, and does not return.
#[derive(Debug, Clone, Copy, PartialEq, Eq, Structural)]
pub struct ServiceRoutineWithNoReturn;

/// Options in an IDT entry.
#[derive(Debug, Clone, Copy, PartialEq, Eq, Structural)]
pub struct Options(pub u16);

/// The option that says the entry is present.
pub const PRESENT: u16 = 0x8000;

/// The type of an entry through which the processor goes with interrupts
/// disabled.
pub const INTERRUPT_GATE: u16 = 0x0e00;

/// The type of an entry through which the processor goes with interrupts
/// as they are.
pub const TRAP_GATE: u16 = 0x0f00;

/// The options of the entry of an exception: present, and entered with
/// interrupts as they are.
pub const EXCEPTION_OPTIONS: u16 = 0x8f00;

/// The options of the entry of an interrupt: present, and entered with
/// interrupts disabled.
pub const INTERRUPT_OPTIONS: u16 = 0x8e00;

/// The address that is held in three parts: bits 0 to 15, 16 to 31 and 32
/// to 63.
pub open spec fn joined(low: u16, middle: u16, upper: u32) -> u64 {
    (low as u64) | ((middle as u64) << 16) | ((upper as u64) << 32)
}

/// The parts of an address make up the address.
pub proof fn lemma_joined(addr: u64)
    ensures
        joined((addr & 0xffff) as u16, ((addr >> 16) & 0xffff) as u16, (addr >> 32) as u32) == addr,
        EXCEPTION_OPTIONS == PRESENT | TRAP_GATE,
        INTERRUPT_OPTIONS == PRESENT | INTERRUPT_GATE,
{
    let low = (addr & 0xffff) as u16;
    let middle = ((addr >> 16) & 0xffff) as u16;
    let upper = (addr >> 32) as u32;
    assert((low as u64) | ((middle as u64) << 16) | ((upper as u64) << 32) == addr) by (bit_vector)
        requires
            low == (addr & 0xffff) as u16,
            middle == ((addr >> 16) & 0xffff) as u16,
            upper == (addr >> 32) as u32,
    ;
    assert(0x8f00u16 == 0x8000u16 | 0x0f00u16 && 0x8e00u16 == 0x8000u16 | 0x0e00u16)
        by (bit_vector);
}

/// An entry in the IDT.
#[derive(Debug)]
pub struct Entry<T> {
    /// The lower 16 bits of the handler's interrupt service routine
    pub handler_ptr_low: u16,
    /// The segment selector of the code segment
    pub segment_selector: SegmentSelector,
    /// The IDT entry options
    pub options: Options,
    /// The next 16 bits of the interrupt service routine
    pub handler_ptr_middle: u16,
    /// The upper 32 bits of the interrupt service routine
    pub handler_ptr_upper: u32,
    pub reserved: u32,
    /// Makes use of the type that the entry is generic in
    pub phantom: PhantomData<T>,
}

impl<T> Entry<T> {
    /// Whether the entry is empty: every field of it is zero.
    pub open spec fn is_empty(self) -> bool {
        &&& self.handler_ptr_low == 0
        &&& self.segment_selector == SegmentSelector(0)
        &&& self.options == Options(0)
        &&& self.handler_ptr_middle == 0
        &&& self.handler_ptr_upper == 0
        &&& self.reserved == 0
    }

    /// The address of the entry's service routine.
    pub open spec fn handler(self) -> u64 {
        joined(self.handler_ptr_low, self.handler_ptr_middle, self.handler_ptr_upper)
    }

    /// An entry for the service routine at address `handler`, which runs in
    /// the code segment of `segment_selector`, with the given options.
    pub fn new(handler: u64, segment_selector: SegmentSelector, options: Options) -> (entry: Entry<
        T,
    >)
        ensures
            entry.handler() == handler,
            entry.handler_ptr_low == (handler & 0xffff) as u16,
            entry.handler_ptr_middle == ((handler >> 16) & 0xffff) as u16,
            entry.handler_ptr_upper == (handler >> 32) as u32,
            entry.segment_selector == segment_selector,
            entry.options == options,
            entry.reserved == 0,
    {
        proof {
            lemma_joined(handler);
        }
        Entry {
            handler_ptr_low: (handler & 0xffff) as u16,
            segment_selector,
            options,
            handler_ptr_middle: ((handler >> 16) & 0xffff) as u16,
            handler_ptr_upper: (handler >> 32) as u32,
            reserved: 0,
            phantom: PhantomData,
        }
    }

    /// An entry for the service routine of an exception: present, and
    /// entered with interrupts as they are.
    pub fn exception(handler: u64, segment_selector: SegmentSelector) -> (entry: Entry<T>)
        ensures
            entry.handler() == handler,
            entry.segment_selector == segment_selector,
            entry.options == Options(EXCEPTION_OPTIONS),
            entry.reserved == 0,
    {
        Entry::new(handler, segment_selector, Options(EXCEPTION_OPTIONS))
    }

    /// An entry for the service routine of an interrupt: present, and
    /// entered with interrupts disabled.
    pub fn interrupt(handler: u64, segment_selector: SegmentSelector) -> (entry: Entry<T>)
        ensures
            entry.handler() == handler,
            entry.segment_selector == segment_selector,
            entry.options == Options(INTERRUPT_OPTIONS),
            entry.reserved == 0,
    {
        Entry::new(handler, segment_selector, Options(INTERRUPT_OPTIONS))
    }

    /// Creates an empty entry.
    pub fn empty() -> (entry: Entry<T>)
        ensures
            entry.is_empty(),
    {
        Entry {
            handler_ptr_low: 0,
            segment_selector: SegmentSelector(0),
            options: Options(0),
            handler_ptr_middle: 0,
            handler_ptr_upper: 0,
            reserved: 0,
            phantom: PhantomData,
        }
    }
}

/// The Interrupt Descriptor Table.
pub struct IDT {
    pub divide_by_zero: Entry<ServiceRoutine>,
    pub debug: Entry<ServiceRoutine>,
    pub nmi_interrupt: Entry<ServiceRoutine>,
    pub breakpoint: Entry<ServiceRoutine>,
    pub overflow: Entry<ServiceRoutine>,
    pub bound_range_exceeded: Entry<ServiceRoutine>,
    pub invalid_opcode: Entry<ServiceRoutine>,
    pub device_not_available: Entry<ServiceRoutine>,
    pub double_fault: Entry<ServiceRoutineWithNoReturn>,
    pub coprocessor_segment_overrun: Entry<ServiceRoutine>,
    pub invalid_tss: Entry<ServiceRoutineWithErrCode>,
    pub segment_not_present: Entry<ServiceRoutineWithErrCode>,
    pub stack_segment_fault: Entry<ServiceRoutineWithErrCode>,
    pub general_protection: Entry<ServiceRoutineWithErrCode>,
    pub page_fault: Entry<ServiceRoutineWithErrCode>,
    pub reserved1: Entry<ServiceRoutine>,
    pub floating_point_error: Entry<ServiceRoutine>,
    pub alignment_check: Entry<ServiceRoutineWithErrCode>,
    pub machine_check: Entry<ServiceRoutineWithNoReturn>,
    pub simd_floating_point_exception: Entry<ServiceRoutine>,
    pub virtualization_exception: Entry<ServiceRoutine>,
    pub control_protection_exception: Entry<ServiceRoutineWithErrCode>,
    pub reserved2: Vec<Entry<ServiceRoutine>>,
    pub interrupts: Vec<Entry<ServiceRoutine>>,
}

/// A list of `n` empty entries.
fn empty_entries(n: usize) -> (entries: Vec<Entry<ServiceRoutine>>)
    ensures
        entries@.len() == n,
        forall|i: int| 0 <= i < n ==> (#[trigger] entries@[i]).is_empty(),
{
    let mut entries: Vec<Entry<ServiceRoutine>> = Vec::new();
    let mut i: usize = 0;
    while i < n
        invariant
            i <= n,
            entries@.len() == i,
            forall|j: int| 0 <= j < i ==> (#[trigger] entries@[j]).is_empty(),
        decreases n - i,
    {
        entries.push(Entry::empty());
        i += 1;
    }
    entries
}

impl IDT {
    /// Whether every exception entry of the table is empty.
    pub open spec fn exceptions_empty(&self) -> bool {
        &&& self.divide_by_zero.is_empty()
        &&& self.debug.is_empty()
        &&& self.nmi_interrupt.is_empty()
        &&& self.breakpoint.is_empty()
        &&& self.overflow.is_empty()
        &&& self.bound_range_exceeded.is_empty()
        &&& self.invalid_opcode.is_empty()
        &&& self.device_not_available.is_empty()
        &&& self.double_fault.is_empty()
        &&& self.coprocessor_segment_overrun.is_empty()
        &&& self.invalid_tss.is_empty()
        &&& self.segment_not_present.is_empty()
        &&& self.stack_segment_fault.is_empty()
        &&& self.general_protection.is_empty()
        &&& self.page_fault.is_empty()
        &&& self.reserved1.is_empty()
        &&& self.floating_point_error.is_empty()
        &&& self.alignment_check.is_empty()
        &&& self.machine_check.is_empty()
        &&& self.simd_floating_point_exception.is_empty()
        &&& self.virtualization_exception.is_empty()
        &&& self.control_protection_exception.is_empty()
    }

    /// A table of 256 empty entries: the 32 that the processor keeps for
    /// its exceptions, and 224 for interrupts.
    pub fn new() -> (idt: IDT)
        ensures
            idt.exceptions_empty(),
            idt.reserved2@.len() == 10,
            forall|i: int| 0 <= i < 10 ==> (#[trigger] idt.reserved2@[i]).is_empty(),
            idt.interrupts@.len() == NO_OF_INTERRUPTS,
            forall|i: int| 0 <= i < NO_OF_INTERRUPTS ==> (#[trigger] idt.interrupts@[i]).is_empty(),
    {
        IDT {
            divide_by_zero: Entry::empty(),
            debug: Entry::empty(),
            nmi_interrupt: Entry::empty(),
            breakpoint: Entry::empty(),
            overflow: Entry::empty(),
            bound_range_exceeded: Entry::empty(),
            invalid_opcode: Entry::empty(),
            device_not_available: Entry::empty(),
            double_fault: Entry::empty(),
            coprocessor_segment_overrun: Entry::empty(),
            invalid_tss: Entry::empty(),
            segment_not_present: Entry::empty(),
            stack_segment_fault: Entry::empty(),
            general_protection: Entry::empty(),
            page_fault: Entry::empty(),
            reserved1: Entry::empty(),
            floating_point_error: Entry::empty(),
            alignment_check: Entry::empty(),
            machine_check: Entry::empty(),
            simd_floating_point_exception: Entry::empty(),
            virtualization_exception: Entry::empty(),
            control_protection_exception: Entry::empty(),
            reserved2: empty_entries(10),
            interrupts: empty_entries(NO_OF_INTERRUPTS),
        }
    }
}

/// The values pushed on the stack when an interrupt service routine is
/// called by the processor.
#[derive(Debug, Clone, Copy, PartialEq, Eq, Structural)]
pub struct InterruptStackFrame {
    /// The address of the instruction that was executing before the
    /// processor switched to the service routine
    pub original_instruction_ptr: u64,
    /// The code segment selector that was being used before the control
    /// switch to the service routine, padded to 64 bits
    pub original_code_segment: u64,
    /// The contents of the FLAGS register at the time of the control switch
    /// to the service routine
    pub flags: u64,
    /// Address of the stack at the time of the switch
    pub original_stack_ptr: u64,
    /// The stack segment selector at the time of the switch
    pub original_stack_segment: u64,
}

} // verus!
