use lib::translate::{
    AtInstruction, PAFaultStatus, PASecure, PAShareability, TranslateVAtoPA, VADirection, VAStage,
};

#[test]
fn successful_translation_fields() {
    let info = TranslateVAtoPA::decode_par(0xFF00_0000_8000_0B80);
    assert!(info.pa_valid);
    assert_eq!(info.pa, 0x8000_0000);
    assert_eq!(info.attr, 0xFF);
    assert_eq!(info.share, PAShareability::InnerShareble);
    assert_eq!(info.secure, PASecure::Realm);
    assert_eq!(info.fst, PAFaultStatus::Invalid);
    assert!(!info.ptw);
    assert!(!info.s);
}

#[test]
fn shareability_and_security_codes() {
    let nonshare = TranslateVAtoPA::decode_par(0x0000_0000_0000_1000);
    assert_eq!(nonshare.share, PAShareability::NonShareble);
    assert_eq!(nonshare.secure, PASecure::Secure);
    assert_eq!(nonshare.pa, 0x1000);
    let outer = TranslateVAtoPA::decode_par(0x100 | 0x200);
    assert_eq!(outer.share, PAShareability::OuterShareble);
    assert_eq!(outer.secure, PASecure::NonSecure);
    let reserved = TranslateVAtoPA::decode_par(0x080 | 0x800);
    assert_eq!(reserved.share, PAShareability::Reserved);
    assert_eq!(reserved.secure, PASecure::Root);
}

#[test]
fn valid_pa_drops_bits_above_51() {
    let info = TranslateVAtoPA::decode_par(0x00F0_1234_5678_9ABE);
    assert!(info.pa_valid);
    assert_eq!(info.pa, 0x0000_1234_5678_9000);
    assert_eq!(info.attr, 0x00);
}

#[test]
fn fault_codes() {
    let info = TranslateVAtoPA::decode_par((0b000101 << 1) | 1 | 0x100);
    assert!(!info.pa_valid);
    assert_eq!(info.fst, PAFaultStatus::TranslationLevel1);
    assert!(info.ptw);
    assert!(!info.s);
    assert_eq!(info.pa, 0);
    assert_eq!(info.share, PAShareability::Invalid);
    assert_eq!(info.secure, PASecure::Invalid);

    let names = [
        PAFaultStatus::AddressSizeLevel0,
        PAFaultStatus::AddressSizeLevel1,
        PAFaultStatus::AddressSizeLevel2,
        PAFaultStatus::AddressSizeLevel3,
        PAFaultStatus::TranslationLevel0,
        PAFaultStatus::TranslationLevel1,
        PAFaultStatus::TranslationLevel2,
        PAFaultStatus::TranslationLevel3,
        PAFaultStatus::AccessFlagLevel0,
        PAFaultStatus::AccessFlagLevel1,
        PAFaultStatus::AccessFlagLevel2,
        PAFaultStatus::AccessFlagLevel3,
        PAFaultStatus::PermissionLevel0,
        PAFaultStatus::PermissionLevel1,
        PAFaultStatus::PermissionLevel2,
        PAFaultStatus::PermissionLevel3,
    ];
    for (code, name) in names.iter().enumerate() {
        let par = ((code as u64) << 1) | 1;
        assert_eq!(TranslateVAtoPA::decode_par(par).fst, *name);
    }
    assert_eq!(TranslateVAtoPA::decode_par((0b110000 << 1) | 1 | 0x200).fst, PAFaultStatus::TLBConflict);
    assert!(TranslateVAtoPA::decode_par((0b110000 << 1) | 1 | 0x200).s);
    assert_eq!(TranslateVAtoPA::decode_par((0b010000 << 1) | 1).fst, PAFaultStatus::Unknown);
    assert_eq!(TranslateVAtoPA::decode_par((0b111111 << 1) | 1).fst, PAFaultStatus::Unknown);
}

#[test]
fn test_reports_mapping() {
    assert!(TranslateVAtoPA::test(0x8000_0000));
    assert!(!TranslateVAtoPA::test(0x8000_0001));
    assert!(!TranslateVAtoPA::test(0x0F));
}

#[test]
fn at_instruction_choice() {
    assert_eq!(TranslateVAtoPA::el0_instruction(VAStage::Stage1, VADirection::ReadVA), AtInstruction::S1E0R);
    assert_eq!(TranslateVAtoPA::el0_instruction(VAStage::Stage1, VADirection::WriteVA), AtInstruction::S1E0W);
    assert_eq!(TranslateVAtoPA::el0_instruction(VAStage::Stage1and2, VADirection::ReadVA), AtInstruction::S12E0R);
    assert_eq!(TranslateVAtoPA::el0_instruction(VAStage::Stage1and2, VADirection::WriteVA), AtInstruction::S12E0W);
    assert_eq!(TranslateVAtoPA::el1_instruction(VAStage::Stage1, VADirection::ReadVA), AtInstruction::S1E1R);
    assert_eq!(TranslateVAtoPA::el1_instruction(VAStage::Stage1, VADirection::WriteVA), AtInstruction::S1E1W);
    assert_eq!(TranslateVAtoPA::el1_instruction(VAStage::Stage1and2, VADirection::ReadVA), AtInstruction::S12E1R);
    assert_eq!(TranslateVAtoPA::el1_instruction(VAStage::Stage1and2, VADirection::WriteVA), AtInstruction::S12E1W);
    assert_eq!(TranslateVAtoPA::el1_pan_instruction(VADirection::ReadVA), AtInstruction::S1E1RP);
    assert_eq!(TranslateVAtoPA::el1_pan_instruction(VADirection::WriteVA), AtInstruction::S1E1WP);
}
