use vstd::prelude::*;

verus! {

/// The four standard serial ports.
#[derive(Clone, Copy, Debug, PartialEq, Eq, Structural)]
pub enum SerialPort {
    COM1,
    COM2,
    COM3,
    COM4,
}

pub open spec fn base_port_of(p: SerialPort) -> u16 {
    match p {
        SerialPort::COM1 => 0x3F8u16,
        SerialPort::COM2 => 0x2F8u16,
        SerialPort::COM3 => 0x3E8u16,
        SerialPort::COM4 => 0x2E8u16,
    }
}

impl SerialPort {
    /// The port's base I/O address.
    pub fn base_port(&self) -> (r: u16)
        ensures
            r == base_port_of(*self),
    {
        match self {
            SerialPort::COM1 => 0x3F8,
            SerialPort::COM2 => 0x2F8,
            SerialPort::COM3 => 0x3E8,
            SerialPort::COM4 => 0x2E8,
        }
    }
}

/// Register offsets from a UART's base port.
pub const DATA: u16 = 0;
pub const INT_CTRL: u16 = 1;
pub const FIFO_CTRL: u16 = 2;
pub const LINE_CTRL: u16 = 3;
pub const MODEM_CTRL: u16 = 4;
pub const LINE_STATUS: u16 = 5;

/// Line-status bits.
pub const LINE_DATA_READY: u8 = 0x01;
pub const LINE_THR_EMPTY: u8 = 0x20;

/// The port writes that set a UART up: interrupts off, divisor 3 (38400
/// baud), 8 bits without parity and one stop bit, FIFO enabled and
/// cleared with a 14-byte threshold, IRQs, RTS and DSR on.
pub open spec fn init_writes(base: u16) -> Seq<(u16, u8)> {
    seq![
        ((base + INT_CTRL) as u16, 0x00u8),
        ((base + LINE_CTRL) as u16, 0x80u8),
        ((base + DATA) as u16, 0x03u8),
        ((base + INT_CTRL) as u16, 0x00u8),
        ((base + LINE_CTRL) as u16, 0x03u8),
        ((base + FIFO_CTRL) as u16, 0xC7u8),
        ((base + MODEM_CTRL) as u16, 0x0Bu8),
    ]
}

/// A 16550-compatible UART.
#[derive(Clone, Copy, Debug, PartialEq, Eq, Structural)]
pub struct SerialDevice {
    pub base: u16,
}

impl SerialDevice {
    pub fn new(port: SerialPort) -> (r: SerialDevice)
        ensures
            r.base == base_port_of(port),
    {
        SerialDevice { base: port.base_port() }
    }

    /// The I/O address of register `offset`.
    pub fn register(&self, offset: u16) -> (r: u16)
        requires
            self.base + offset <= u16::MAX,
        ensures
            r == self.base + offset,
    {
        self.base + offset
    }

    /// The (port, value) writes, in order, that initialize the bus.
    pub fn init_bus(&self) -> (r: Vec<(u16, u8)>)
        requires
            self.base + MODEM_CTRL <= u16::MAX,
        ensures
            r@ == init_writes(self.base),
    {
        let mut w: Vec<(u16, u8)> = Vec::new();
        w.push((self.base + INT_CTRL, 0x00));
        w.push((self.base + LINE_CTRL, 0x80));
        w.push((self.base + DATA, 0x03));
        w.push((self.base + INT_CTRL, 0x00));
        w.push((self.base + LINE_CTRL, 0x03));
        w.push((self.base + FIFO_CTRL, 0xC7));
        w.push((self.base + MODEM_CTRL, 0x0B));
        assert(w@ =~= init_writes(self.base));
        w
    }

    /// The transmitter can take a byte, by the line status read.
    pub fn is_empty(line_status: u8) -> (r: bool)
        ensures
            r == (line_status & LINE_THR_EMPTY != 0),
    {
        line_status & LINE_THR_EMPTY != 0
    }

    /// A received byte is waiting, by the line status read.
    pub fn has_received(line_status: u8) -> (r: bool)
        ensures
            r == (line_status & LINE_DATA_READY != 0),
    {
        line_status & LINE_DATA_READY != 0
    }
}

} // verus!
