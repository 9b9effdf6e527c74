//! The two chained Programmable Interrupt Controllers that map hardware
//! interrupts to interrupt vector numbers for the CPU.
//!
//! The library decides which bytes go to which ports, in which order. It
//! does not touch the ports: the caller puts the bytes out.
use crate::port::{Port, PortWrite};
use vstd::prelude::*;

verus! {

/// The command that starts a controller's initialisation.
pub const CMD_INIT: u8 = 0x11;

/// The mode that the controllers are told they work in.
pub const MODE_8086: u8 = 0x01;

/// The command that ends an interrupt.
pub const END_OF_INTERRUPT: u8 = 0x20;

/// The garbage port that is written to for waiting.
pub const WAIT_PORT: u16 = 0x80;

/// The index in the IDT that the first controller's interrupts start at.
pub const FIRST_OFFSET: u8 = 32;

/// The index in the IDT that the second controller's interrupts start at.
pub const SECOND_OFFSET: u8 = 40;

/// A Programmable Interrupt Controller.
struct PIC {
    // The base index in the IDT that the PIC's interrupts are mapped to
    offset: u8,
    // PIC's command port
    command: Port,
    // PIC's data port
    data: Port,
}

/// The chained PICs.
pub struct PICs {
    first: PIC,
    second: PIC,
}

/// The write of `value` to `port`.
pub open spec fn write_of(port: u16, value: u8) -> PortWrite {
    PortWrite { port, value }
}

/// The write to the garbage port that gives a controller time.
pub open spec fn wait() -> PortWrite {
    write_of(WAIT_PORT, 0)
}

/// The writes that set the controllers up, in order, with a wait after each
/// but the last two: start the initialisation of both, give both their
/// base offsets, tell the first that the second is on its line 2 and the
/// second that it is connected there, tell both their mode, and mask every
/// line but the timer's.
pub open spec fn init_writes() -> Seq<PortWrite> {
    seq![
        write_of(0x20, CMD_INIT),
        wait(),
        write_of(0xa0, CMD_INIT),
        wait(),
        write_of(0x21, FIRST_OFFSET),
        wait(),
        write_of(0xa1, SECOND_OFFSET),
        wait(),
        write_of(0x21, 4),
        wait(),
        write_of(0xa1, 2),
        wait(),
        write_of(0x21, MODE_8086),
        wait(),
        write_of(0xa1, MODE_8086),
        wait(),
        write_of(0x21, 0b11111110),
        write_of(0xa1, 0b11111111),
    ]
}

/// The writes that end interrupt `number`: the command goes to the first
/// controller, and to the second as well when the interrupt came through it.
pub open spec fn end_of_interrupt_writes(number: u8) -> Seq<PortWrite> {
    if number >= 8 {
        seq![write_of(0x20, END_OF_INTERRUPT), write_of(0xa0, END_OF_INTERRUPT)]
    } else {
        seq![write_of(0x20, END_OF_INTERRUPT)]
    }
}

impl PICs {
    #[verifier::type_invariant]
    spec fn wired(self) -> bool {
        &&& self.first.offset == FIRST_OFFSET
        &&& self.first.command == Port(0x20)
        &&& self.first.data == Port(0x21)
        &&& self.second.offset == SECOND_OFFSET
        &&& self.second.command == Port(0xa0)
        &&& self.second.data == Port(0xa1)
    }

    /// The indices in the IDT that the interrupts of the first and of the
    /// second controller start at.
    pub closed spec fn offsets(self) -> (u8, u8) {
        (self.first.offset, self.second.offset)
    }

    /// The two controllers, mapped to the IDT right after the 32 entries
    /// that the processor keeps for itself, eight entries each.
    pub fn new() -> (pics: PICs)
        ensures
            pics.offsets() == (FIRST_OFFSET, SECOND_OFFSET),
    {
        let first = PIC { offset: FIRST_OFFSET, command: Port::new(0x20), data: Port::new(0x21) };
        let second = PIC { offset: SECOND_OFFSET, command: Port::new(0xa0), data: Port::new(0xa1) };
        PICs { first, second }
    }

    /// Set up the PICs: returns the writes to make, in order.
    pub fn init(&mut self) -> (writes: Vec<PortWrite>)
        ensures
            writes@ == init_writes(),
    {
        proof {
            use_type_invariant(&*self);
        }
        // Garbage port for waiting
        let mut wait_port = Port::new(WAIT_PORT);
        let mut writes = Vec::new();

        // Start initialization sequence
        writes.push(self.first.command.write(CMD_INIT));
        writes.push(wait_port.write(0));
        writes.push(self.second.command.write(CMD_INIT));
        writes.push(wait_port.write(0));

        // Setup base offsets
        writes.push(self.first.data.write(self.first.offset));
        writes.push(wait_port.write(0));
        writes.push(self.second.data.write(self.second.offset));
        writes.push(wait_port.write(0));

        // Tell first that there is a second PIC at IRQ 2
        writes.push(self.first.data.write(4));
        writes.push(wait_port.write(0));
        // Tell the second PIC it's connected to the first's line 2
        writes.push(self.second.data.write(2));
        writes.push(wait_port.write(0));

        // Telling the PICs about the environment they're in
        writes.push(self.first.data.write(MODE_8086));
        writes.push(wait_port.write(0));
        writes.push(self.second.data.write(MODE_8086));
        writes.push(wait_port.write(0));

        // Setting the interrupt masks
        // Line 0 on the first PIC is for the timer,
        // so setting it to 0
        writes.push(self.first.data.write(0b11111110));
        writes.push(self.second.data.write(0b11111111));
        assert(writes@ =~= init_writes());
        writes
    }

    /// Sends the EOI command to the PICs in charge of an interrupt that was
    /// just handled: returns the writes to make, in order.
    pub fn end_of_interrupt(&mut self, number: u8) -> (writes: Vec<PortWrite>)
        ensures
            writes@ == end_of_interrupt_writes(number),
    {
        proof {
            use_type_invariant(&*self);
        }
        let mut writes = Vec::new();
        writes.push(self.first.command.write(END_OF_INTERRUPT));
        if number >= 8 {
            writes.push(self.second.command.write(END_OF_INTERRUPT));
        }
        assert(writes@ =~= end_of_interrupt_writes(number));
        writes
    }
}

} // verus!
