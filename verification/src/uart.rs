//! Programming the BCM2837 mini UART: register addresses, the
//! initialisation sequence and the status bits the driver polls.

use vstd::prelude::*;

verus! {

/// Base of the peripheral window as the kernel maps it.
pub const MMIO_BASE: u64 = 0xFFFF_FF80_3F00_0000;

/// The registers the driver touches.
#[derive(Clone, Copy, PartialEq, Eq, Structural, Debug)]
pub enum UartRegister {
    /// Auxiliary enables.
    AuxEnb,
    /// Mini UART data.
    MuIo,
    /// Mini UART interrupt enable.
    MuIer,
    /// Mini UART interrupt identify (FIFO clear).
    MuIir,
    /// Mini UART line control.
    MuLcr,
    /// Mini UART line status.
    MuLsr,
    /// Mini UART extra control (receiver and transmitter enable).
    MuCntl,
    /// Mini UART baud rate.
    MuBaud,
    /// GPIO function select for pins 10 to 19.
    GpFsel1,
    /// GPIO pull-up/down enable.
    GpPud,
    /// GPIO pull-up/down clock for pins 0 to 31.
    GpPudClk0,
}

/// Offset of a register from `MMIO_BASE`.
pub open spec fn register_offset(reg: UartRegister) -> u64 {
    match reg {
        UartRegister::AuxEnb => 0x0021_5004,
        UartRegister::MuIo => 0x0021_5040,
        UartRegister::MuIer => 0x0021_5044,
        UartRegister::MuIir => 0x0021_5048,
        UartRegister::MuLcr => 0x0021_504C,
        UartRegister::MuLsr => 0x0021_5054,
        UartRegister::MuCntl => 0x0021_5060,
        UartRegister::MuBaud => 0x0021_5068,
        UartRegister::GpFsel1 => 0x0020_0004,
        UartRegister::GpPud => 0x0020_0094,
        UartRegister::GpPudClk0 => 0x0020_0098,
    }
}

impl UartRegister {
    /// Virtual address of the register: the BCM2837 peripheral address
    /// (`0x3F20_xxxx` for GPIO, `0x3F21_5xxx` for the auxiliaries) in the
    /// kernel's high mapping.
    pub fn address(self) -> (addr: u64)
        ensures
            addr == MMIO_BASE + register_offset(self),
            self == UartRegister::AuxEnb ==> addr == 0xFFFF_FF80_3F21_5004,
            self == UartRegister::MuIo ==> addr == 0xFFFF_FF80_3F21_5040,
            self == UartRegister::MuIer ==> addr == 0xFFFF_FF80_3F21_5044,
            self == UartRegister::MuIir ==> addr == 0xFFFF_FF80_3F21_5048,
            self == UartRegister::MuLcr ==> addr == 0xFFFF_FF80_3F21_504C,
            self == UartRegister::MuLsr ==> addr == 0xFFFF_FF80_3F21_5054,
            self == UartRegister::MuCntl ==> addr == 0xFFFF_FF80_3F21_5060,
            self == UartRegister::MuBaud ==> addr == 0xFFFF_FF80_3F21_5068,
            self == UartRegister::GpFsel1 ==> addr == 0xFFFF_FF80_3F20_0004,
            self == UartRegister::GpPud ==> addr == 0xFFFF_FF80_3F20_0094,
            self == UartRegister::GpPudClk0 ==> addr == 0xFFFF_FF80_3F20_0098,
    {
        let offset: u64 = match self {
            UartRegister::AuxEnb => 0x0021_5004,
            UartRegister::MuIo => 0x0021_5040,
            UartRegister::MuIer => 0x0021_5044,
            UartRegister::MuIir => 0x0021_5048,
            UartRegister::MuLcr => 0x0021_504C,
            UartRegister::MuLsr => 0x0021_5054,
            UartRegister::MuCntl => 0x0021_5060,
            UartRegister::MuBaud => 0x0021_5068,
            UartRegister::GpFsel1 => 0x0020_0004,
            UartRegister::GpPud => 0x0020_0094,
            UartRegister::GpPudClk0 => 0x0020_0098,
        };
        MMIO_BASE + offset
    }
}

/// One step of programming the UART.
#[derive(Clone, Copy, PartialEq, Eq, Structural, Debug)]
pub enum UartStep {
    /// Write a value to a register.
    Write(UartRegister, u32),
    /// Spin for this many iterations to let a GPIO setting settle.
    Pause(u32),
}

/// GPFSEL1 with pins 14 and 15 set to alternate function 5 (mini UART TX
/// and RX): fields [14:12] and [17:15] set to 0b010, every other bit kept.
pub open spec fn uart_pins_selected(old: u32, new: u32) -> bool {
    &&& new & !0x0003_F000u32 == old & !0x0003_F000u32
    &&& (new >> 12u32) & 7 == 2
    &&& (new >> 15u32) & 7 == 2
}

/// The mini UART driver's register logic.
pub struct Uart;

impl Uart {
    /// GPFSEL1 with the UART's pins switched to the mini UART.
    pub fn select_uart_pins(gpfsel1: u32) -> (value: u32)
        ensures
            value == (gpfsel1 & !0x0003_F000u32) | 0x0001_2000u32,
            uart_pins_selected(gpfsel1, value),
    {
        let mask: u32 = (7 << 12) | (7 << 15);
        let val: u32 = (2 << 12) | (2 << 15);
        let value = (gpfsel1 & !mask) | (val & mask);
        assert(value == (gpfsel1 & !0x0003_F000u32) | 0x0001_2000u32 && uart_pins_selected(
            gpfsel1,
            value,
        )) by (bit_vector)
            requires
                mask == (7u32 << 12u32) | (7u32 << 15u32),
                val == (2u32 << 12u32) | (2u32 << 15u32),
                value == (gpfsel1 & !mask) | (val & mask),
        ;
        value
    }

    /// The initialisation sequence, given the values AUXENB and GPFSEL1
    /// held before it: enable the mini UART, set 8-bit mode, clear the
    /// FIFOs, set 115200 baud, route GPIO 14 and 15 to it with pull-up/down
    /// off, and enable the transmitter and receiver.
    pub fn init(auxenb: u32, gpfsel1: u32) -> (steps: Vec<UartStep>)
        ensures
            steps@ == seq![
                UartStep::Write(UartRegister::AuxEnb, auxenb | 1),
                UartStep::Write(UartRegister::MuCntl, 0),
                UartStep::Write(UartRegister::MuIer, 0),
                UartStep::Write(UartRegister::MuLcr, 3),
                UartStep::Write(UartRegister::MuIir, 0x06),
                UartStep::Write(UartRegister::MuBaud, 270),
                UartStep::Write(UartRegister::GpFsel1, (gpfsel1 & !0x0003_F000u32) | 0x0001_2000u32),
                UartStep::Write(UartRegister::GpPud, 0),
                UartStep::Pause(150),
                UartStep::Write(UartRegister::GpPudClk0, 0x0000_C000),
                UartStep::Pause(150),
                UartStep::Write(UartRegister::GpPudClk0, 0),
                UartStep::Write(UartRegister::MuCntl, 3),
            ],
    {
        let fsel = Self::select_uart_pins(gpfsel1);
        let clk: u32 = (1 << 14) | (1 << 15);
        assert(clk == 0x0000_C000) by (bit_vector)
            requires
                clk == (1u32 << 14u32) | (1u32 << 15u32),
        ;
        let steps = vec![
            UartStep::Write(UartRegister::AuxEnb, auxenb | 1),
            UartStep::Write(UartRegister::MuCntl, 0),
            UartStep::Write(UartRegister::MuIer, 0),
            UartStep::Write(UartRegister::MuLcr, 3),
            UartStep::Write(UartRegister::MuIir, 0x06),
            UartStep::Write(UartRegister::MuBaud, 270),
            UartStep::Write(UartRegister::GpFsel1, fsel),
            UartStep::Write(UartRegister::GpPud, 0),
            UartStep::Pause(150),
            UartStep::Write(UartRegister::GpPudClk0, clk),
            UartStep::Pause(150),
            UartStep::Write(UartRegister::GpPudClk0, 0),
            UartStep::Write(UartRegister::MuCntl, 3),
        ];
        steps
    }

    /// The transmit FIFO can take a byte (LSR bit 5).
    pub fn tx_ready(lsr: u32) -> (ready: bool)
        ensures
            ready == ((lsr / 0x20) % 2 == 1),
    {
        let ready = (lsr & 0x20) != 0;
        assert(ready == ((lsr / 0x20) % 2 == 1)) by (bit_vector)
            requires
                ready == ((lsr & 0x20) != 0),
        ;
        ready
    }

    /// The receive FIFO holds a byte (LSR bit 0).
    pub fn rx_ready(lsr: u32) -> (ready: bool)
        ensures
            ready == (lsr % 2 == 1),
    {
        let ready = (lsr & 0x01) != 0;
        assert(ready == (lsr % 2 == 1)) by (bit_vector)
            requires
                ready == ((lsr & 0x01) != 0),
        ;
        ready
    }

    /// The byte received, from the data register's low 8 bits.
    pub fn received_byte(io: u32) -> (byte: u8)
        ensures
            byte == io % 256,
    {
        let low = io & 0xFF;
        assert(low == io % 256) by (bit_vector)
            requires
                low == io & 0xFF,
        ;
        low as u8
    }

    /// A byte received, if the receive FIFO holds one (LSR bit 0): the low
    /// 8 bits of what `read_io` reads from the data register.  When the FIFO
    /// is empty, `None` at once, and the data register is not read.
    pub fn poll_byte<F: FnOnce() -> u32>(lsr: u32, read_io: F) -> (byte: Option<u8>)
        requires
            read_io.requires(()),
        ensures
            lsr % 2 == 0 ==> byte is None,
            lsr % 2 == 1 ==> exists|io: u32| #[trigger] read_io.ensures((), io) && byte == Some((io % 256) as u8),
    {
        if !Self::rx_ready(lsr) {
            return None;
        }
        let io = read_io();
        let byte = Self::received_byte(io);
        assert(read_io.ensures((), io));
        Some(byte)
    }

    /// The write that sends `byte`, once the transmit FIFO has room; `None`
    /// while it is full (the driver polls LSR again).
    pub fn write_byte(lsr: u32, byte: u8) -> (step: Option<UartStep>)
        ensures
            step == if (lsr / 0x20) % 2 == 1 {
                Some(UartStep::Write(UartRegister::MuIo, byte as u32))
            } else {
                None
            },
    {
        if Self::tx_ready(lsr) {
            Some(UartStep::Write(UartRegister::MuIo, byte as u32))
        } else {
            None
        }
    }
}

} // verus!
