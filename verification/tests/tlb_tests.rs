use lib::tlb::{TLBGranuleSize, TLBLevel, TLBMaintenance, TLBShareability, TlbiInstruction};

#[test]
fn invalidate_all_by_domain() {
    assert_eq!(TLBMaintenance::invalidate_all(TLBShareability::Full), Some(TlbiInstruction::Vmalle1));
    assert_eq!(TLBMaintenance::invalidate_all(TLBShareability::Inner), Some(TlbiInstruction::Vmalle1is));
    assert_eq!(TLBMaintenance::invalidate_all(TLBShareability::Outer), None);
}

#[test]
fn va_all_asid_4k_level3() {
    let r = TLBMaintenance::invalidate_va_all_asid(
        TLBGranuleSize::_4KB,
        TLBLevel::Level3,
        TLBShareability::Full,
        0x1234_5678,
    );
    assert_eq!(r, Some((TlbiInstruction::Vaae1, 0x12345 | (0b01 << 46) | (0b11 << 44))));
}

#[test]
fn va_operand_without_granule_has_no_ttl() {
    let r = TLBMaintenance::invalidate_va_all_asid_last(
        TLBGranuleSize::NoInformation,
        TLBLevel::Level2,
        TLBShareability::Inner,
        0xFFFF_FF80_0000_1000,
    );
    // the page number keeps va[55:12] only
    assert_eq!(r, Some((TlbiInstruction::Vaale1is, 0x0000_0FFF_F800_0001)));
}

#[test]
fn va_operand_granule_codes() {
    let v16 = TLBMaintenance::invalidate_va_all_asid(TLBGranuleSize::_16KB, TLBLevel::Level0, TLBShareability::Full, 0);
    assert_eq!(v16, Some((TlbiInstruction::Vaae1, 0b10 << 46)));
    let v64 = TLBMaintenance::invalidate_va_all_asid(TLBGranuleSize::_64KB, TLBLevel::Level1, TLBShareability::Full, 0);
    assert_eq!(v64, Some((TlbiInstruction::Vaae1, (0b11 << 46) | (0b01 << 44))));
}

#[test]
fn va_and_asid_puts_asid_on_top() {
    let r = TLBMaintenance::invalidate_va_and_asid(
        TLBGranuleSize::_4KB,
        TLBLevel::Level3,
        TLBShareability::Inner,
        0x40_0000,
        0x1_0005,
    );
    assert_eq!(r, Some((TlbiInstruction::Vae1is, (5 << 48) | (0b0111 << 44) | 0x400)));
    let r = TLBMaintenance::invalidate_va_and_asid_last(
        TLBGranuleSize::_4KB,
        TLBLevel::Level3,
        TLBShareability::Full,
        0x40_0000,
        0xFFFF,
    );
    assert_eq!(r, Some((TlbiInstruction::Vale1, (0xFFFF << 48) | (0b0111 << 44) | 0x400)));
}

#[test]
fn outer_shareable_requests_are_dropped() {
    assert_eq!(
        TLBMaintenance::invalidate_va_and_asid(TLBGranuleSize::_4KB, TLBLevel::Level3, TLBShareability::Outer, 0x1000, 1),
        None
    );
    assert_eq!(
        TLBMaintenance::invalidate_va_all_asid_last(TLBGranuleSize::_4KB, TLBLevel::Level3, TLBShareability::Outer, 0x1000),
        None
    );
}

#[test]
fn operand_fields_read_back() {
    let (_, v) = TLBMaintenance::invalidate_va_and_asid(
        TLBGranuleSize::_64KB,
        TLBLevel::Level2,
        TLBShareability::Full,
        0x00AB_CDEF_1234_5678,
        0x9876_5432,
    )
    .unwrap();
    assert_eq!(v & 0xFFF_FFFF_FFFF, (0x00AB_CDEF_1234_5678u64 >> 12) & 0xFFF_FFFF_FFFF);
    assert_eq!((v >> 44) & 0xF, 0b1110);
    assert_eq!(v >> 48, 0x5432);
}
