use lib::uart::{Uart, UartRegister, UartStep, MMIO_BASE};

#[test]
fn register_addresses() {
    assert_eq!(MMIO_BASE, 0x3F00_0000 | 0xFFFF_FF80_0000_0000);
    assert_eq!(UartRegister::AuxEnb.address(), 0xFFFF_FF80_3F21_5004);
    assert_eq!(UartRegister::MuIo.address(), 0xFFFF_FF80_3F21_5040);
    assert_eq!(UartRegister::MuLsr.address(), 0xFFFF_FF80_3F21_5054);
    assert_eq!(UartRegister::MuBaud.address(), 0xFFFF_FF80_3F21_5068);
    assert_eq!(UartRegister::GpFsel1.address(), 0xFFFF_FF80_3F20_0004);
    assert_eq!(UartRegister::GpPudClk0.address(), 0xFFFF_FF80_3F20_0098);
}

#[test]
fn uart_pins_keep_other_bits() {
    assert_eq!(Uart::select_uart_pins(0), 0x0001_2000);
    assert_eq!(Uart::select_uart_pins(0xFFFF_FFFF), 0xFFFD_2FFF);
    assert_eq!(Uart::select_uart_pins(0x0003_F000), 0x0001_2000);
}

#[test]
fn init_sequence() {
    let steps = Uart::init(0b100, 0xFFFF_FFFF);
    assert_eq!(
        steps,
        vec![
            UartStep::Write(UartRegister::AuxEnb, 0b101),
            UartStep::Write(UartRegister::MuCntl, 0),
            UartStep::Write(UartRegister::MuIer, 0),
            UartStep::Write(UartRegister::MuLcr, 3),
            UartStep::Write(UartRegister::MuIir, 6),
            UartStep::Write(UartRegister::MuBaud, 270),
            UartStep::Write(UartRegister::GpFsel1, 0xFFFD_2FFF),
            UartStep::Write(UartRegister::GpPud, 0),
            UartStep::Pause(150),
            UartStep::Write(UartRegister::GpPudClk0, (1 << 14) | (1 << 15)),
            UartStep::Pause(150),
            UartStep::Write(UartRegister::GpPudClk0, 0),
            UartStep::Write(UartRegister::MuCntl, 3),
        ]
    );
}

#[test]
fn status_bits() {
    assert!(Uart::tx_ready(0x20));
    assert!(Uart::tx_ready(0x61));
    assert!(!Uart::tx_ready(0x1F));
    assert!(Uart::rx_ready(0x01));
    assert!(!Uart::rx_ready(0x60));
    assert_eq!(Uart::received_byte(0x1_2341), 0x41);
}

#[test]
fn write_byte_waits_for_room() {
    assert_eq!(Uart::write_byte(0x00, b'x'), None);
    assert_eq!(Uart::write_byte(0x20, b'x'), Some(UartStep::Write(UartRegister::MuIo, 0x78)));
}

#[test]
fn poll_byte_reads_data_only_when_ready() {
    let mut reads = 0;
    assert_eq!(Uart::poll_byte(0x60, || { reads += 1; 0x41 }), None);
    assert_eq!(reads, 0);
    assert_eq!(Uart::poll_byte(0x61, || { reads += 1; 0x1_2342 }), Some(0x42));
    assert_eq!(reads, 1);
}
