//! TLB invalidation requests and the register operands of `TLBI` by address.

use vstd::prelude::*;

verus! {

/// TLB maintenance for the stage 1 EL1&0 translation regime.
pub struct TLBMaintenance;

/// Translation table level that holds the leaf entry for the address.
#[derive(Clone, Copy, PartialEq, Eq, Structural, Debug)]
pub enum TLBLevel {
    Level0,
    Level1,
    Level2,
    Level3,
}

/// Translation granule in use, or no hint.
#[derive(Clone, Copy, PartialEq, Eq, Structural, Debug)]
pub enum TLBGranuleSize {
    NoInformation,
    _4KB,
    /// Not implemented on Cortex-A53.
    _16KB,
    _64KB,
}

/// Shareability domain of an invalidation.
#[derive(Clone, Copy, PartialEq, Eq, Structural, Debug)]
pub enum TLBShareability {
    Full,
    Inner,
    /// Not implemented on Cortex-A53: requests for it are dropped.
    Outer,
}

/// The `TLBI` instructions the kernel issues.
#[derive(Clone, Copy, PartialEq, Eq, Structural, Debug)]
pub enum TlbiInstruction {
    /// All stage 1 EL1&0 entries.
    Vmalle1,
    Vmalle1is,
    /// By address, any ASID.
    Vaae1,
    Vaae1is,
    /// By address, any ASID, last level only.
    Vaale1,
    Vaale1is,
    /// By address and ASID.
    Vae1,
    Vae1is,
    /// By address and ASID, last level only.
    Vale1,
    Vale1is,
}

/// The TTL hint (operand bits [47:44]): the granule code in the upper two
/// bits and the level in the lower two, or 0 when no granule is given.
pub open spec fn ttl_hint(granule: TLBGranuleSize, level: TLBLevel) -> nat {
    let lvl: nat = match level {
        TLBLevel::Level0 => 0,
        TLBLevel::Level1 => 1,
        TLBLevel::Level2 => 2,
        TLBLevel::Level3 => 3,
    };
    match granule {
        TLBGranuleSize::NoInformation => 0,
        TLBGranuleSize::_4KB => 4 + lvl,
        TLBGranuleSize::_16KB => 8 + lvl,
        TLBGranuleSize::_64KB => 12 + lvl,
    }
}

/// `TLBI` by-address operand without an ASID: the page number `va[55:12]`
/// in bits [43:0] and the TTL hint in bits [47:44].
pub open spec fn va_operand(granule: TLBGranuleSize, level: TLBLevel, va: u64) -> nat {
    ((va / 0x1000) % 0x1000_0000_0000 + ttl_hint(granule, level) * 0x1000_0000_0000) as nat
}

/// `TLBI` by-address operand with the ASID's low 16 bits in bits [63:48].
pub open spec fn va_asid_operand(granule: TLBGranuleSize, level: TLBLevel, va: u64, asid: u64) -> nat {
    (va_operand(granule, level, va) + (asid % 0x1_0000) * 0x1_0000_0000_0000) as nat
}

/// The instruction for a by-address invalidation: `all_asid` picks the
/// any-ASID form, `last` the last-level form, `share` the broadcast form.
pub open spec fn va_instruction(share: TLBShareability, all_asid: bool, last: bool) -> Option<TlbiInstruction> {
    match share {
        TLBShareability::Full => Some(
            if all_asid {
                if last { TlbiInstruction::Vaale1 } else { TlbiInstruction::Vaae1 }
            } else {
                if last { TlbiInstruction::Vale1 } else { TlbiInstruction::Vae1 }
            },
        ),
        TLBShareability::Inner => Some(
            if all_asid {
                if last { TlbiInstruction::Vaale1is } else { TlbiInstruction::Vaae1is }
            } else {
                if last { TlbiInstruction::Vale1is } else { TlbiInstruction::Vae1is }
            },
        ),
        TLBShareability::Outer => None,
    }
}

impl TLBMaintenance {
    /// Operand bits [43:0] and [47:44] for a by-address `TLBI`.
    fn page_operand(granule: TLBGranuleSize, level: TLBLevel, va: u64) -> (v: u64)
        ensures
            v as nat == va_operand(granule, level, va),
            v < 0x1_0000_0000_0000,
    {
        let page: u64 = (va >> 12) & 0x0000_0FFF_FFFF_FFFF;
        let ttl: u64 = match granule {
            TLBGranuleSize::NoInformation => 0,
            TLBGranuleSize::_4KB => 0b0100,
            TLBGranuleSize::_16KB => 0b1000,
            TLBGranuleSize::_64KB => 0b1100,
        };
        let ttl: u64 = if ttl == 0 {
            0
        } else {
            match level {
                TLBLevel::Level0 => ttl | 0b00,
                TLBLevel::Level1 => ttl | 0b01,
                TLBLevel::Level2 => ttl | 0b10,
                TLBLevel::Level3 => ttl | 0b11,
            }
        };
        proof {
            assert(page == (va / 0x1000) % 0x1000_0000_0000) by (bit_vector)
                requires
                    page == (va >> 12) & 0x0000_0FFF_FFFF_FFFF,
            ;
            assert((0b0100u64 | 0b00) == 4 && (0b0100u64 | 0b01) == 5 && (0b0100u64 | 0b10) == 6
                && (0b0100u64 | 0b11) == 7 && (0b1000u64 | 0b00) == 8 && (0b1000u64 | 0b01) == 9
                && (0b1000u64 | 0b10) == 10 && (0b1000u64 | 0b11) == 11 && (0b1100u64 | 0b00) == 12
                && (0b1100u64 | 0b01) == 13 && (0b1100u64 | 0b10) == 14 && (0b1100u64 | 0b11) == 15)
                by (bit_vector);
            assert(ttl == ttl_hint(granule, level));
            assert(page | (ttl << 44) == page + ttl * 0x1000_0000_0000) by (bit_vector)
                requires
                    page < 0x1000_0000_0000,
                    ttl < 16,
            ;
        }
        page | (ttl << 44)
    }

    /// Invalidate every cached stage 1 EL1&0 translation; `None` for the
    /// unsupported outer shareable domain.
    pub fn invalidate_all(share: TLBShareability) -> (instr: Option<TlbiInstruction>)
        ensures
            instr == match share {
                TLBShareability::Full => Some(TlbiInstruction::Vmalle1),
                TLBShareability::Inner => Some(TlbiInstruction::Vmalle1is),
                TLBShareability::Outer => None::<TlbiInstruction>,
            },
    {
        match share {
            TLBShareability::Full => Some(TlbiInstruction::Vmalle1),
            TLBShareability::Inner => Some(TlbiInstruction::Vmalle1is),
            _ => None,
        }
    }

    /// Invalidate the translations of `va` for every ASID.
    pub fn invalidate_va_all_asid(granule: TLBGranuleSize, level: TLBLevel, share: TLBShareability, va: u64) -> (request: Option<(TlbiInstruction, u64)>)
        ensures
            share == TLBShareability::Full ==> (request matches Some((i, _)) && i == TlbiInstruction::Vaae1),
            share == TLBShareability::Inner ==> (request matches Some((i, _)) && i == TlbiInstruction::Vaae1is),
            share == TLBShareability::Outer ==> request is None,
            request == match va_instruction(share, true, false) {
                Some(i) => Some((i, va_operand(granule, level, va) as u64)),
                None => None,
            },
    {
        Self::by_address(Self::page_operand(granule, level, va), share, true, false)
    }

    /// Invalidate the last-level translations of `va` for every ASID.
    pub fn invalidate_va_all_asid_last(granule: TLBGranuleSize, level: TLBLevel, share: TLBShareability, va: u64) -> (request: Option<(TlbiInstruction, u64)>)
        ensures
            share == TLBShareability::Full ==> (request matches Some((i, _)) && i == TlbiInstruction::Vaale1),
            share == TLBShareability::Inner ==> (request matches Some((i, _)) && i == TlbiInstruction::Vaale1is),
            share == TLBShareability::Outer ==> request is None,
            request == match va_instruction(share, true, true) {
                Some(i) => Some((i, va_operand(granule, level, va) as u64)),
                None => None,
            },
    {
        Self::by_address(Self::page_operand(granule, level, va), share, true, true)
    }

    /// Invalidate the translations of `va` tagged with `asid`.
    pub fn invalidate_va_and_asid(granule: TLBGranuleSize, level: TLBLevel, share: TLBShareability, va: u64, asid: u64) -> (request: Option<(TlbiInstruction, u64)>)
        ensures
            share == TLBShareability::Full ==> (request matches Some((i, _)) && i == TlbiInstruction::Vae1),
            share == TLBShareability::Inner ==> (request matches Some((i, _)) && i == TlbiInstruction::Vae1is),
            share == TLBShareability::Outer ==> request is None,
            request == match va_instruction(share, false, false) {
                Some(i) => Some((i, va_asid_operand(granule, level, va, asid) as u64)),
                None => None,
            },
    {
        let v = Self::with_asid(Self::page_operand(granule, level, va), asid);
        Self::by_address(v, share, false, false)
    }

    /// Invalidate the last-level translations of `va` tagged with `asid`.
    pub fn invalidate_va_and_asid_last(granule: TLBGranuleSize, level: TLBLevel, share: TLBShareability, va: u64, asid: u64) -> (request: Option<(TlbiInstruction, u64)>)
        ensures
            share == TLBShareability::Full ==> (request matches Some((i, _)) && i == TlbiInstruction::Vale1),
            share == TLBShareability::Inner ==> (request matches Some((i, _)) && i == TlbiInstruction::Vale1is),
            share == TLBShareability::Outer ==> request is None,
            request == match va_instruction(share, false, true) {
                Some(i) => Some((i, va_asid_operand(granule, level, va, asid) as u64)),
                None => None,
            },
    {
        let v = Self::with_asid(Self::page_operand(granule, level, va), asid);
        Self::by_address(v, share, false, true)
    }

    /// Put the ASID's low 16 bits into operand bits [63:48].
    fn with_asid(v: u64, asid: u64) -> (r: u64)
        requires
            v < 0x1_0000_0000_0000,
        ensures
            r as nat == v + (asid % 0x1_0000) * 0x1_0000_0000_0000,
    {
        let r = v | ((asid << 48) & 0xFFFF_0000_0000_0000);
        assert(r == v + (asid % 0x1_0000) * 0x1_0000_0000_0000) by (bit_vector)
            requires
                v < 0x1_0000_0000_0000,
                r == v | ((asid << 48) & 0xFFFF_0000_0000_0000),
        ;
        r
    }

    fn by_address(v: u64, share: TLBShareability, all_asid: bool, last: bool) -> (request: Option<(TlbiInstruction, u64)>)
        ensures
            request == match va_instruction(share, all_asid, last) {
                Some(i) => Some((i, v)),
                None => None,
            },
    {
        let instr = match share {
            TLBShareability::Full => if all_asid {
                if last { TlbiInstruction::Vaale1 } else { TlbiInstruction::Vaae1 }
            } else {
                if last { TlbiInstruction::Vale1 } else { TlbiInstruction::Vae1 }
            },
            TLBShareability::Inner => if all_asid {
                if last { TlbiInstruction::Vaale1is } else { TlbiInstruction::Vaae1is }
            } else {
                if last { TlbiInstruction::Vale1is } else { TlbiInstruction::Vae1is }
            },
            TLBShareability::Outer => return None,
        };
        Some((instr, v))
    }
}


/// The fields of a by-address `TLBI` operand read back as given: the page
/// number `va[55:12]` in bits [43:0], the TTL hint in bits [47:44] and the
/// ASID's low 16 bits in bits [63:48].
pub proof fn lemma_operand_fields(granule: TLBGranuleSize, level: TLBLevel, va: u64, asid: u64)
    ensures
        va_asid_operand(granule, level, va, asid) < 0x1_0000_0000_0000_0000,
        va_asid_operand(granule, level, va, asid) % 0x1000_0000_0000 == (va / 0x1000) % 0x1000_0000_0000,
        (va_asid_operand(granule, level, va, asid) / 0x1000_0000_0000) % 16 == ttl_hint(granule, level),
        va_asid_operand(granule, level, va, asid) / 0x1_0000_0000_0000 == asid % 0x1_0000,
        va_operand(granule, level, va) == va_asid_operand(granule, level, va, 0),
        (va_asid_operand(granule, level, va, asid) / 0x4000_0000_0000) % 4 == match granule {
            TLBGranuleSize::NoInformation => 0int,
            TLBGranuleSize::_4KB => 1int,
            TLBGranuleSize::_16KB => 2int,
            TLBGranuleSize::_64KB => 3int,
        },
        granule != TLBGranuleSize::NoInformation ==> (va_asid_operand(granule, level, va, asid)
            / 0x1000_0000_0000) % 4 == match level {
            TLBLevel::Level0 => 0int,
            TLBLevel::Level1 => 1int,
            TLBLevel::Level2 => 2int,
            TLBLevel::Level3 => 3int,
        },
        granule == TLBGranuleSize::NoInformation ==> (va_asid_operand(granule, level, va, asid)
            / 0x1000_0000_0000) % 16 == 0,
{
    let page = (va / 0x1000) % 0x1000_0000_0000;
    let ttl = ttl_hint(granule, level);
    let a = asid % 0x1_0000;
    let v = page + ttl * 0x1000_0000_0000 + a * 0x1_0000_0000_0000;
    assert(ttl < 16);
    assert(v % 0x1000_0000_0000 == page && (v / 0x1000_0000_0000) % 16 == ttl && v
        / 0x1_0000_0000_0000 == a && v < 0x1_0000_0000_0000_0000) by (nonlinear_arith)
        requires
            0 <= page < 0x1000_0000_0000,
            0 <= ttl < 16,
            0 <= a < 0x1_0000,
            v == page + ttl * 0x1000_0000_0000 + a * 0x1_0000_0000_0000,
    ;
}

/// The instruction invalidates in the Inner Shareable domain (broadcast to
/// the other cores): the `...IS` forms.
pub open spec fn is_broadcast(instr: TlbiInstruction) -> bool {
    match instr {
        TlbiInstruction::Vmalle1is | TlbiInstruction::Vaae1is | TlbiInstruction::Vaale1is
        | TlbiInstruction::Vae1is | TlbiInstruction::Vale1is => true,
        _ => false,
    }
}

/// The instruction matches entries of every ASID: the `VAA...` forms.
pub open spec fn is_any_asid(instr: TlbiInstruction) -> bool {
    match instr {
        TlbiInstruction::Vaae1 | TlbiInstruction::Vaae1is | TlbiInstruction::Vaale1
        | TlbiInstruction::Vaale1is => true,
        _ => false,
    }
}

/// The instruction only removes last-level (leaf) entries: the `...L...` forms.
pub open spec fn is_last_level(instr: TlbiInstruction) -> bool {
    match instr {
        TlbiInstruction::Vaale1 | TlbiInstruction::Vaale1is | TlbiInstruction::Vale1
        | TlbiInstruction::Vale1is => true,
        _ => false,
    }
}

/// A by-address invalidation is dropped for the outer shareable domain;
/// otherwise its instruction is the broadcast form exactly for the inner
/// shareable domain, the any-ASID form exactly when every ASID is asked
/// for, and the last-level form exactly when only leaves are asked for.
pub proof fn lemma_va_instruction_forms(share: TLBShareability, all_asid: bool, last: bool)
    ensures
        share == TLBShareability::Outer ==> va_instruction(share, all_asid, last) is None,
        share != TLBShareability::Outer ==> (va_instruction(share, all_asid, last) matches Some(i)
            && is_broadcast(i) == (share == TLBShareability::Inner) && is_any_asid(i) == all_asid
            && is_last_level(i) == last),
{
}

} // verus!
