//! Address translation (`AT`) requests and the decoding of their result
//! register, PAR_EL1.

use vstd::prelude::*;

verus! {

/// Address translation helpers.
pub struct TranslateVAtoPA;

/// Security state of the output address.
#[derive(Clone, Copy, PartialEq, Eq, Structural, Debug)]
pub enum PASecure {
    Invalid,
    Secure,
    NonSecure,
    Root,
    Realm,
}

/// Shareability of the output address.
#[derive(Clone, Copy, PartialEq, Eq, Structural, Debug)]
pub enum PAShareability {
    Invalid,
    NonShareble,
    OuterShareble,
    InnerShareble,
    Reserved,
}

/// Fault status of a failed translation.
#[derive(Clone, Copy, PartialEq, Eq, Structural, Debug)]
pub enum PAFaultStatus {
    Invalid,
    AddressSizeLevel0,
    AddressSizeLevel1,
    AddressSizeLevel2,
    AddressSizeLevel3,
    TranslationLevel0,
    TranslationLevel1,
    TranslationLevel2,
    TranslationLevel3,
    AccessFlagLevel0,
    AccessFlagLevel1,
    AccessFlagLevel2,
    AccessFlagLevel3,
    PermissionLevel0,
    PermissionLevel1,
    PermissionLevel2,
    PermissionLevel3,
    TLBConflict,
    /// A fault status code this kernel does not name.
    Unknown,
}

/// Whether the access to translate is a read or a write.
#[derive(Clone, Copy, PartialEq, Eq, Structural, Debug)]
pub enum VADirection {
    ReadVA,
    WriteVA,
}

/// Stages of translation to perform.
#[derive(Clone, Copy, PartialEq, Eq, Structural, Debug)]
pub enum VAStage {
    Stage1,
    Stage1and2,
}

/// The `AT` instructions the kernel issues.
#[derive(Clone, Copy, PartialEq, Eq, Structural, Debug)]
pub enum AtInstruction {
    S1E0R,
    S1E0W,
    S12E0R,
    S12E0W,
    S1E1R,
    S1E1W,
    S12E1R,
    S12E1W,
    /// EL1 read honouring PSTATE.PAN.
    S1E1RP,
    /// EL1 write honouring PSTATE.PAN.
    S1E1WP,
    /// EL1 translation without permission checks.
    S1E1A,
}

/// The decoded content of PAR_EL1 after an address translation.
#[derive(Clone, Copy, PartialEq, Eq, Structural, Debug)]
pub struct PAInformation {
    /// The translation succeeded and `pa` holds the output address.
    pub pa_valid: bool,
    pub share: PAShareability,
    pub secure: PASecure,
    /// Output address, bits [51:12].
    pub pa: u64,
    /// Memory attributes (MAIR encoding).
    pub attr: u8,
    /// Fault status of a failed translation.
    pub fst: PAFaultStatus,
    /// The fault happened on a stage 2 walk for a stage 1 table.
    pub ptw: bool,
    /// The fault happened at stage 2.
    pub s: bool,
}

/// The fault status named by a 6-bit FST code.
pub open spec fn fault_status(code: u64) -> PAFaultStatus {
    if code == 0b000000 {
        PAFaultStatus::AddressSizeLevel0
    } else if code == 0b000001 {
        PAFaultStatus::AddressSizeLevel1
    } else if code == 0b000010 {
        PAFaultStatus::AddressSizeLevel2
    } else if code == 0b000011 {
        PAFaultStatus::AddressSizeLevel3
    } else if code == 0b000100 {
        PAFaultStatus::TranslationLevel0
    } else if code == 0b000101 {
        PAFaultStatus::TranslationLevel1
    } else if code == 0b000110 {
        PAFaultStatus::TranslationLevel2
    } else if code == 0b000111 {
        PAFaultStatus::TranslationLevel3
    } else if code == 0b001000 {
        PAFaultStatus::AccessFlagLevel0
    } else if code == 0b001001 {
        PAFaultStatus::AccessFlagLevel1
    } else if code == 0b001010 {
        PAFaultStatus::AccessFlagLevel2
    } else if code == 0b001011 {
        PAFaultStatus::AccessFlagLevel3
    } else if code == 0b001100 {
        PAFaultStatus::PermissionLevel0
    } else if code == 0b001101 {
        PAFaultStatus::PermissionLevel1
    } else if code == 0b001110 {
        PAFaultStatus::PermissionLevel2
    } else if code == 0b001111 {
        PAFaultStatus::PermissionLevel3
    } else if code == 0b110000 {
        PAFaultStatus::TLBConflict
    } else {
        PAFaultStatus::Unknown
    }
}

/// PAR_EL1 decoded: bit 0 (F) tells a fault from a successful translation.
/// On a fault, FST is bits [6:1], PTW bit 8 and S bit 9; on success, PA is
/// bits [51:12], SH bits [8:7], NS bit 9, NSE bit 11 and ATTR bits [63:56].
pub open spec fn decoded_par(par: u64) -> PAInformation {
    if par % 2 == 1 {
        PAInformation {
            pa_valid: false,
            share: PAShareability::Invalid,
            secure: PASecure::Invalid,
            pa: 0,
            attr: 0,
            fst: fault_status((par / 2) % 64),
            ptw: (par / 0x100) % 2 == 1,
            s: (par / 0x200) % 2 == 1,
        }
    } else {
        let sh = (par / 0x80) % 4;
        let ns = (par / 0x200) % 2 == 1;
        let nse = (par / 0x800) % 2 == 1;
        PAInformation {
            pa_valid: true,
            share: if sh == 0 {
                PAShareability::NonShareble
            } else if sh == 2 {
                PAShareability::OuterShareble
            } else if sh == 3 {
                PAShareability::InnerShareble
            } else {
                PAShareability::Reserved
            },
            secure: if nse {
                if ns { PASecure::Realm } else { PASecure::Root }
            } else {
                if ns { PASecure::NonSecure } else { PASecure::Secure }
            },
            pa: ((par / 0x1000) % 0x100_0000_0000 * 0x1000) as u64,
            attr: (par / 0x100_0000_0000_0000) as u8,
            fst: PAFaultStatus::Invalid,
            ptw: false,
            s: false,
        }
    }
}

impl TranslateVAtoPA {
    /// The `AT` instruction that translates an EL0 access.
    pub fn el0_instruction(stage: VAStage, direction: VADirection) -> (instr: AtInstruction)
        ensures
            instr == match (stage, direction) {
                (VAStage::Stage1, VADirection::ReadVA) => AtInstruction::S1E0R,
                (VAStage::Stage1, VADirection::WriteVA) => AtInstruction::S1E0W,
                (VAStage::Stage1and2, VADirection::ReadVA) => AtInstruction::S12E0R,
                (VAStage::Stage1and2, VADirection::WriteVA) => AtInstruction::S12E0W,
            },
    {
        match stage {
            VAStage::Stage1 => match direction {
                VADirection::ReadVA => AtInstruction::S1E0R,
                VADirection::WriteVA => AtInstruction::S1E0W,
            },
            VAStage::Stage1and2 => match direction {
                VADirection::ReadVA => AtInstruction::S12E0R,
                VADirection::WriteVA => AtInstruction::S12E0W,
            },
        }
    }

    /// The `AT` instruction that translates an EL1 access.
    pub fn el1_instruction(stage: VAStage, direction: VADirection) -> (instr: AtInstruction)
        ensures
            instr == match (stage, direction) {
                (VAStage::Stage1, VADirection::ReadVA) => AtInstruction::S1E1R,
                (VAStage::Stage1, VADirection::WriteVA) => AtInstruction::S1E1W,
                (VAStage::Stage1and2, VADirection::ReadVA) => AtInstruction::S12E1R,
                (VAStage::Stage1and2, VADirection::WriteVA) => AtInstruction::S12E1W,
            },
    {
        match stage {
            VAStage::Stage1 => match direction {
                VADirection::ReadVA => AtInstruction::S1E1R,
                VADirection::WriteVA => AtInstruction::S1E1W,
            },
            VAStage::Stage1and2 => match direction {
                VADirection::ReadVA => AtInstruction::S12E1R,
                VADirection::WriteVA => AtInstruction::S12E1W,
            },
        }
    }

    /// The `AT` instruction that translates an EL1 access with the
    /// privileged-access-never checks.
    pub fn el1_pan_instruction(direction: VADirection) -> (instr: AtInstruction)
        ensures
            instr == match direction {
                VADirection::ReadVA => AtInstruction::S1E1RP,
                VADirection::WriteVA => AtInstruction::S1E1WP,
            },
    {
        match direction {
            VADirection::ReadVA => AtInstruction::S1E1RP,
            VADirection::WriteVA => AtInstruction::S1E1WP,
        }
    }

    /// Decodes the PAR_EL1 value left by an `AT` instruction.
    pub fn decode_par(par: u64) -> (info: PAInformation)
        ensures
            info == decoded_par(par),
            info.pa_valid == (par % 2 == 0),
            par % 2 == 0 ==> info.attr as int == par / 0x100_0000_0000_0000,
            par % 2 == 0 ==> info.pa as int == par % 0x10_0000_0000_0000 - par % 0x1000,
    {
        let mut info = PAInformation {
            pa_valid: false,
            pa: 0,
            attr: 0,
            share: PAShareability::Invalid,
            secure: PASecure::Invalid,
            fst: PAFaultStatus::Invalid,
            ptw: false,
            s: false,
        };
        let failed = (par & 0x1) == 1;
        let fst: u64 = (par & 0x0000_0000_0000_007E) >> 1;
        let ptw = ((par & 0x0000_0000_0000_0100) >> 8) == 1;
        let s_bit = ((par & 0x0000_0000_0000_0200) >> 9) == 1;
        let pa: u64 = par & 0x000F_FFFF_FFFF_F000;
        let attr: u64 = (par & 0xFF00_0000_0000_0000) >> 56;
        let sh: u64 = (par & 0x0000_0000_0000_0180) >> 7;
        let ns = ((par & 0x0000_0000_0000_0200) >> 9) == 1;
        let nse = ((par & 0x0000_0000_0000_0800) >> 11) == 1;
        proof {
            assert((failed <==> par % 2 == 1) && fst == (par / 2) % 64 && (ptw <==> (par / 0x100)
                % 2 == 1) && (s_bit <==> (par / 0x200) % 2 == 1) && pa == (par / 0x1000)
                % 0x100_0000_0000 * 0x1000 && attr == par / 0x100_0000_0000_0000 && sh == (par
                / 0x80) % 4 && (ns <==> (par / 0x200) % 2 == 1) && (nse <==> (par / 0x800) % 2
                == 1)) by (bit_vector)
                requires
                    failed == ((par & 0x1) == 1),
                    fst == (par & 0x0000_0000_0000_007E) >> 1,
                    ptw == (((par & 0x0000_0000_0000_0100) >> 8) == 1),
                    s_bit == (((par & 0x0000_0000_0000_0200) >> 9) == 1),
                    pa == par & 0x000F_FFFF_FFFF_F000,
                    attr == (par & 0xFF00_0000_0000_0000) >> 56,
                    sh == (par & 0x0000_0000_0000_0180) >> 7,
                    ns == (((par & 0x0000_0000_0000_0200) >> 9) == 1),
                    nse == (((par & 0x0000_0000_0000_0800) >> 11) == 1),
            ;
        }
        if failed {
            info.fst = match fst {
                0b000000 => PAFaultStatus::AddressSizeLevel0,
                0b000001 => PAFaultStatus::AddressSizeLevel1,
                0b000010 => PAFaultStatus::AddressSizeLevel2,
                0b000011 => PAFaultStatus::AddressSizeLevel3,
                0b000100 => PAFaultStatus::TranslationLevel0,
                0b000101 => PAFaultStatus::TranslationLevel1,
                0b000110 => PAFaultStatus::TranslationLevel2,
                0b000111 => PAFaultStatus::TranslationLevel3,
                0b001000 => PAFaultStatus::AccessFlagLevel0,
                0b001001 => PAFaultStatus::AccessFlagLevel1,
                0b001010 => PAFaultStatus::AccessFlagLevel2,
                0b001011 => PAFaultStatus::AccessFlagLevel3,
                0b001100 => PAFaultStatus::PermissionLevel0,
                0b001101 => PAFaultStatus::PermissionLevel1,
                0b001110 => PAFaultStatus::PermissionLevel2,
                0b001111 => PAFaultStatus::PermissionLevel3,
                0b110000 => PAFaultStatus::TLBConflict,
                _ => PAFaultStatus::Unknown,
            };
            info.ptw = ptw;
            info.s = s_bit;
        } else {
            info.pa_valid = true;
            info.pa = pa;
            info.attr = attr as u8;
            info.share = match sh {
                0b00 => PAShareability::NonShareble,
                0b10 => PAShareability::OuterShareble,
                0b11 => PAShareability::InnerShareble,
                _ => PAShareability::Reserved,
            };
            info.secure = if nse {
                if ns {
                    PASecure::Realm
                } else {
                    PASecure::Root
                }
            } else {
                if ns {
                    PASecure::NonSecure
                } else {
                    PASecure::Secure
                }
            };
        }
        info
    }

    /// Whether the translation that left `par` in PAR_EL1 found a mapping.
    pub fn test(par: u64) -> (mapped: bool)
        ensures
            mapped == decoded_par(par).pa_valid,
            mapped == (par % 2 == 0),
    {
        let info = Self::decode_par(par);
        if info.pa_valid {
            return true;
        }
        false
    }
}


/// A translation succeeded exactly when PAR_EL1.F (bit 0) is clear; its
/// output address is 4 KiB aligned and below 2^52, and a failed translation
/// reports no address, shareability or security state.
pub proof fn lemma_par_outcome(par: u64)
    ensures
        decoded_par(par).pa_valid <==> par % 2 == 0,
        decoded_par(par).pa_valid ==> decoded_par(par).pa % 0x1000 == 0 && decoded_par(par).pa
            < 0x10_0000_0000_0000 && decoded_par(par).fst == PAFaultStatus::Invalid,
        !decoded_par(par).pa_valid ==> decoded_par(par).pa == 0 && decoded_par(par).share
            == PAShareability::Invalid && decoded_par(par).secure == PASecure::Invalid
            && decoded_par(par).fst != PAFaultStatus::Invalid,
{
    let page = (par / 0x1000) % 0x100_0000_0000;
    assert(page * 0x1000 % 0x1000 == 0 && page * 0x1000 < 0x10_0000_0000_0000) by (nonlinear_arith)
        requires
            0 <= page < 0x100_0000_0000,
    ;
}

/// The kind of a translation fault: 0 address size, 1 translation, 2 access
/// flag, 3 permission; -1 for the others.
pub open spec fn fault_class(status: PAFaultStatus) -> int {
    match status {
        PAFaultStatus::AddressSizeLevel0 | PAFaultStatus::AddressSizeLevel1
        | PAFaultStatus::AddressSizeLevel2 | PAFaultStatus::AddressSizeLevel3 => 0,
        PAFaultStatus::TranslationLevel0 | PAFaultStatus::TranslationLevel1
        | PAFaultStatus::TranslationLevel2 | PAFaultStatus::TranslationLevel3 => 1,
        PAFaultStatus::AccessFlagLevel0 | PAFaultStatus::AccessFlagLevel1
        | PAFaultStatus::AccessFlagLevel2 | PAFaultStatus::AccessFlagLevel3 => 2,
        PAFaultStatus::PermissionLevel0 | PAFaultStatus::PermissionLevel1
        | PAFaultStatus::PermissionLevel2 | PAFaultStatus::PermissionLevel3 => 3,
        _ => -1,
    }
}

/// The translation table level a fault names; -1 for faults without one.
pub open spec fn fault_level(status: PAFaultStatus) -> int {
    match status {
        PAFaultStatus::AddressSizeLevel0 | PAFaultStatus::TranslationLevel0
        | PAFaultStatus::AccessFlagLevel0 | PAFaultStatus::PermissionLevel0 => 0,
        PAFaultStatus::AddressSizeLevel1 | PAFaultStatus::TranslationLevel1
        | PAFaultStatus::AccessFlagLevel1 | PAFaultStatus::PermissionLevel1 => 1,
        PAFaultStatus::AddressSizeLevel2 | PAFaultStatus::TranslationLevel2
        | PAFaultStatus::AccessFlagLevel2 | PAFaultStatus::PermissionLevel2 => 2,
        PAFaultStatus::AddressSizeLevel3 | PAFaultStatus::TranslationLevel3
        | PAFaultStatus::AccessFlagLevel3 | PAFaultStatus::PermissionLevel3 => 3,
        _ => -1,
    }
}

/// How each PAR_EL1 field reaches the decoded result.  On success: the
/// attributes are bits [63:56] unchanged, the address is bits [51:12] in
/// place, SH (bits [8:7]) 0/2/3 is non/outer/inner shareable and 1
/// reserved, NS (bit 9) marks the non-secure and realm states and NSE
/// (bit 11) the root and realm states.  On a fault: FST codes 0 to 15 give
/// the fault kind (code / 4) at the level (code % 4), code 48 a TLB conflict,
/// every other code an unknown fault, and PTW and S are bits 8 and 9.
pub proof fn lemma_par_fields(par: u64)
    ensures
        par % 2 == 0 ==> {
            let info = decoded_par(par);
            let sh = (par / 0x80) % 4;
            &&& info.attr as int == par / 0x100_0000_0000_0000
            &&& info.pa as int == par % 0x10_0000_0000_0000 - par % 0x1000
            &&& (info.share == PAShareability::NonShareble <==> sh == 0)
            &&& (info.share == PAShareability::Reserved <==> sh == 1)
            &&& (info.share == PAShareability::OuterShareble <==> sh == 2)
            &&& (info.share == PAShareability::InnerShareble <==> sh == 3)
            &&& ((info.secure == PASecure::NonSecure || info.secure == PASecure::Realm) <==> (par
                / 0x200) % 2 == 1)
            &&& ((info.secure == PASecure::Root || info.secure == PASecure::Realm) <==> (par / 0x800)
                % 2 == 1)
            &&& info.secure != PASecure::Invalid
            &&& !info.ptw && !info.s
        },
        par % 2 == 1 ==> {
            let info = decoded_par(par);
            let code = (par / 2) % 64;
            &&& code < 16 ==> fault_class(info.fst) == code / 4 && fault_level(info.fst) == code % 4
            &&& code == 48 ==> info.fst == PAFaultStatus::TLBConflict
            &&& (code >= 16 && code != 48) ==> info.fst == PAFaultStatus::Unknown
            &&& info.ptw == ((par / 0x100) % 2 == 1)
            &&& info.s == ((par / 0x200) % 2 == 1)
            &&& info.attr == 0
        },
{
    let page = (par / 0x1000) % 0x100_0000_0000;
    assert(page * 0x1000 == par % 0x10_0000_0000_0000 - par % 0x1000) by (nonlinear_arith)
        requires
            page == (par / 0x1000) % 0x100_0000_0000,
    {
        assert(par % 0x10_0000_0000_0000 == (par / 0x1000) % 0x100_0000_0000 * 0x1000 + par % 0x1000)
            by (nonlinear_arith);
    }
}

} // verus!
