//! The machine's IO ports, and what is asked of them.
use vstd::prelude::*;

verus! {

/// An IO port.
#[derive(Debug, Clone, Copy, PartialEq, Eq, Structural)]
pub struct Port(pub u16);

/// A byte to put out on a port: what a write asks of the machine.
#[derive(Debug, Clone, Copy, PartialEq, Eq, Structural)]
pub struct PortWrite {
    pub port: u16,
    pub value: u8,
}

impl Port {
    /// Create a new port.
    pub fn new(port_no: u16) -> (port: Port)
        ensures
            port.0 == port_no,
    {
        Port(port_no)
    }

    /// The number of the port.
    pub fn number(&self) -> (port_no: u16)
        ensures
            port_no == self.0,
    {
        self.0
    }

    /// The write of `value` to the port.
    pub fn write(&mut self, value: u8) -> (write: PortWrite)
        ensures
            write.port == old(self).0,
            write.value == value,
            final(self).0 == old(self).0,
        no_unwind
    {
        PortWrite { port: self.0, value }
    }
}

} // verus!
