use blasterball::gdt::{
    Descriptor, Register, RegisterLoad, SegmentRegister, SegmentSelector, CS, DS, GDT, SS,
};
use blasterball::interrupts::{Entry, Options, ServiceRoutine, ServiceRoutineWithErrCode, IDT};
use blasterball::pics::PICs;
use blasterball::port::{Port, PortWrite};
use blasterball::tss::TSS;

#[test]
fn the_segment_descriptors_are_the_flat_64_bit_ones() {
    assert_eq!(Descriptor::code_segment(), Descriptor::NonSystem(0x00af_9a00_0000_ffff));
    assert_eq!(Descriptor::data_segment(), Descriptor::NonSystem(0x008f_9200_0000_ffff));
    let shared = (1u64 << 44) | (1 << 55) | 0xffff | (0xf << 48) | (1 << 47) | (1 << 41);
    assert_eq!(Descriptor::data_segment(), Descriptor::NonSystem(shared));
    assert_eq!(Descriptor::code_segment(), Descriptor::NonSystem(shared | (1 << 43) | (1 << 53)));
}

#[test]
fn a_selector_is_the_index_shifted_by_three() {
    assert_eq!(SegmentSelector::new(0), SegmentSelector(0));
    assert_eq!(SegmentSelector::new(1), SegmentSelector(8));
    assert_eq!(SegmentSelector::new(5), SegmentSelector(40));
    assert_eq!(SegmentSelector::new(0x1fff), SegmentSelector(0xfff8));
    assert_eq!(SegmentSelector::new(0x2001), SegmentSelector(8));
}

#[test]
fn descriptors_go_in_from_index_one() {
    let mut gdt = GDT::new();
    assert_eq!(gdt.next_index(), 1);
    assert_eq!(gdt.add_descriptor(Descriptor::code_segment()), Ok(SegmentSelector(8)));
    assert_eq!(gdt.add_descriptor(Descriptor::data_segment()), Ok(SegmentSelector(16)));
    assert_eq!(gdt.add_descriptor(Descriptor::System(0xaaaa, 0xbbbb)), Ok(SegmentSelector(24)));
    assert_eq!(gdt.next_index(), 5);
    let entries: Vec<u64> = (0..8).map(|index| gdt.entry(index)).collect();
    assert_eq!(
        entries,
        [0, 0x00af_9a00_0000_ffff, 0x008f_9200_0000_ffff, 0xbbbb, 0xaaaa, 0, 0, 0]
    );
}

#[test]
fn a_full_table_takes_no_descriptor() {
    let mut gdt = GDT::new();
    for index in 1..7 {
        assert_eq!(gdt.add_descriptor(Descriptor::NonSystem(index)), Ok(SegmentSelector::new(index as u16)));
    }
    // One entry is left: not enough for a system descriptor
    assert_eq!(
        gdt.add_descriptor(Descriptor::System(1, 2)),
        Err("No enough space for descriptor")
    );
    assert_eq!(gdt.next_index(), 7);
    assert_eq!(gdt.add_descriptor(Descriptor::NonSystem(7)), Ok(SegmentSelector(56)));
    assert_eq!(gdt.add_descriptor(Descriptor::NonSystem(8)), Err("no enough space for descriptor"));
    assert_eq!(gdt.add_descriptor(Descriptor::System(1, 2)), Err("No enough space for descriptor"));
    assert_eq!(gdt.next_index(), 8);
    assert_eq!((0..8).map(|index| gdt.entry(index)).collect::<Vec<u64>>(), [0, 1, 2, 3, 4, 5, 6, 7]);
}

#[test]
fn the_pointer_knows_the_table_and_its_limit() {
    let gdt: &'static GDT = Box::leak(Box::new(GDT::new()));
    let pointer = gdt.as_pointer();
    assert_eq!(pointer.limit() as usize, std::mem::size_of::<GDT>() - 1);
    assert!(std::ptr::eq(pointer.base(), gdt));
}

#[test]
fn each_segment_register_is_set_to_the_selector() {
    let selector = SegmentSelector::new(2);
    assert_eq!(CS.set(selector), RegisterLoad { register: Register::Code, selector: 16 });
    assert_eq!(DS.set(selector), RegisterLoad { register: Register::Data, selector: 16 });
    assert_eq!(SS.set(selector), RegisterLoad { register: Register::Stack, selector: 16 });
}

#[test]
fn a_new_tss_has_no_stacks_and_no_io_map() {
    let tss = TSS::new();
    assert_eq!(tss.privilege_stack_table, [0; 3]);
    assert_eq!(tss.interrupt_stack_table, [0; 7]);
    assert_eq!(tss.io_map_base_addr, 104);
    assert_eq!((tss.reserved1, tss.reserved2, tss.reserved3, tss.reserved4), (0, 0, 0, 0));
}

fn is_empty<T>(entry: &Entry<T>) -> bool {
    entry.handler_ptr_low == 0
        && entry.segment_selector == SegmentSelector(0)
        && entry.options == Options(0)
        && entry.handler_ptr_middle == 0
        && entry.handler_ptr_upper == 0
        && entry.reserved == 0
}

#[test]
fn a_new_idt_is_empty() {
    let idt = IDT::new();
    assert!(is_empty(&idt.divide_by_zero));
    assert!(is_empty(&idt.breakpoint));
    assert!(is_empty(&idt.double_fault));
    assert!(is_empty(&idt.page_fault));
    assert!(is_empty(&idt.control_protection_exception));
    assert_eq!(idt.reserved2.len(), 10);
    assert_eq!(idt.interrupts.len(), 256 - 32);
    assert!(idt.reserved2.iter().all(is_empty));
    assert!(idt.interrupts.iter().all(is_empty));
    assert!(is_empty(&Entry::<ServiceRoutine>::empty()));
}

#[test]
fn a_port_write_names_the_port_and_the_value() {
    let mut port = Port::new(0x60);
    assert_eq!(port.number(), 0x60);
    assert_eq!(port.write(0xab), PortWrite { port: 0x60, value: 0xab });
}

#[test]
fn the_pics_are_set_up_in_order() {
    let mut pics = PICs::new();
    let writes: Vec<(u16, u8)> = pics.init().iter().map(|write| (write.port, write.value)).collect();
    assert_eq!(
        writes,
        [
            (0x20, 0x11),
            (0x80, 0),
            (0xa0, 0x11),
            (0x80, 0),
            (0x21, 32),
            (0x80, 0),
            (0xa1, 40),
            (0x80, 0),
            (0x21, 4),
            (0x80, 0),
            (0xa1, 2),
            (0x80, 0),
            (0x21, 1),
            (0x80, 0),
            (0xa1, 1),
            (0x80, 0),
            (0x21, 0xfe),
            (0xa1, 0xff),
        ]
    );
}

#[test]
fn end_of_interrupt_goes_to_the_second_pic_from_line_eight_on() {
    let mut pics = PICs::new();
    let eoi = |port| PortWrite { port, value: 0x20 };
    assert_eq!(pics.end_of_interrupt(0), [eoi(0x20)]);
    assert_eq!(pics.end_of_interrupt(1), [eoi(0x20)]);
    assert_eq!(pics.end_of_interrupt(7), [eoi(0x20)]);
    assert_eq!(pics.end_of_interrupt(8), [eoi(0x20), eoi(0xa0)]);
    assert_eq!(pics.end_of_interrupt(15), [eoi(0x20), eoi(0xa0)]);
}

#[test]
fn a_tss_descriptor_holds_the_address_in_its_two_entries() {
    let base = 0x1234_5678_9abc_def0u64;
    let Descriptor::System(upper, lower) = Descriptor::tss_segment(base) else {
        panic!("the descriptor of a TSS takes two entries");
    };
    assert_eq!(upper, 0x1234_5678);
    // Limit 103, address bits 0 to 23, present and available TSS, address bits 24 to 31
    assert_eq!(lower, 0x9a00_89bc_def0_0067);
    assert_eq!(Descriptor::tss_segment(0), Descriptor::System(0, 0x0000_8900_0000_0067));
    assert_eq!(
        Descriptor::tss_segment(u64::MAX),
        Descriptor::System(0xffff_ffff, 0xff00_89ff_ffff_0067)
    );
}

#[test]
fn an_entry_holds_the_address_of_its_routine_in_three_parts() {
    let selector = SegmentSelector::new(1);
    let entry: Entry<ServiceRoutine> = Entry::interrupt(0x1122_3344_5566_7788, selector);
    assert_eq!(entry.handler_ptr_low, 0x7788);
    assert_eq!(entry.handler_ptr_middle, 0x5566);
    assert_eq!(entry.handler_ptr_upper, 0x1122_3344);
    assert_eq!(entry.segment_selector, selector);
    assert_eq!(entry.options, Options(0x8e00));
    assert_eq!(entry.reserved, 0);
    let entry: Entry<ServiceRoutineWithErrCode> = Entry::exception(0xffff_8000_0010_2030, selector);
    assert_eq!(
        (entry.handler_ptr_low, entry.handler_ptr_middle, entry.handler_ptr_upper),
        (0x2030, 0x0010, 0xffff_8000)
    );
    assert_eq!(entry.options, Options(0x8f00));
    let entry: Entry<ServiceRoutine> = Entry::new(7, SegmentSelector(0), Options(3));
    assert_eq!((entry.handler_ptr_low, entry.handler_ptr_middle, entry.handler_ptr_upper), (7, 0, 0));
    assert_eq!((entry.segment_selector, entry.options), (SegmentSelector(0), Options(3)));
}
