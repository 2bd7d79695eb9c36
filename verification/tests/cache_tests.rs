use lib::cache::{
    ceil_log2, CacheDataOperation, CacheInstruction, CacheInstructionOperation, CacheMaintenance,
    CachePlan, CacheType,
};

// CCSIDR_EL1 values of a Cortex-A53: 32 KiB 2-way instruction cache,
// 32 KiB 4-way level 1 data cache, 512 KiB 16-way level 2 cache, 64-byte lines.
const I_CCSIDR: u64 = (255 << 13) | (1 << 3) | 2;
const D1_CCSIDR: u64 = (127 << 13) | (3 << 3) | 2;
const D2_CCSIDR: u64 = (511 << 13) | (15 << 3) | 2;

fn a53() -> CacheMaintenance {
    CacheMaintenance::new(I_CCSIDR, D1_CCSIDR, D2_CCSIDR)
}

#[test]
fn ceil_log2_small_values() {
    assert_eq!(ceil_log2(0), 0);
    assert_eq!(ceil_log2(1), 0);
    assert_eq!(ceil_log2(2), 1);
    assert_eq!(ceil_log2(3), 2);
    assert_eq!(ceil_log2(4), 2);
    assert_eq!(ceil_log2(5), 3);
    assert_eq!(ceil_log2(64), 6);
    assert_eq!(ceil_log2(65), 7);
}

#[test]
fn ceil_log2_large_values() {
    assert_eq!(ceil_log2(1 << 63), 63);
    assert_eq!(ceil_log2((1 << 63) + 1), 64);
    assert_eq!(ceil_log2(u64::MAX), 64);
}

#[test]
fn ceil_log2_brackets_its_argument() {
    for n in 2u64..5000 {
        let r = ceil_log2(n);
        assert!(n <= 1u64 << r);
        assert!((1u64 << (r - 1)) < n);
    }
}

#[test]
fn decodes_cortex_a53_geometry() {
    let c = a53();
    assert_eq!(c.get_size(CacheType::Instruction), 32 * 1024);
    assert_eq!(c.get_size(CacheType::DataLevel1), 32 * 1024);
    assert_eq!(c.get_size(CacheType::DataLevel2), 512 * 1024);

    let i = c.info(CacheType::Instruction);
    assert_eq!(i.cache_type(), CacheType::Instruction);
    assert_eq!(i.line_size(), 64);
    assert_eq!(i.associativity(), 2);
    assert_eq!(i.num_sets(), 256);
    assert_eq!(i.sets_lo(), 0);
    assert_eq!(i.ways_lo(), 0);

    let d1 = c.info(CacheType::DataLevel1);
    assert_eq!(d1.line_size(), 64);
    assert_eq!(d1.associativity(), 4);
    assert_eq!(d1.num_sets(), 128);
    assert_eq!(d1.sets_lo(), 6);
    assert_eq!(d1.ways_lo(), 30);

    let d2 = c.info(CacheType::DataLevel2);
    assert_eq!(d2.cache_type(), CacheType::DataLevel2);
    assert_eq!(d2.associativity(), 16);
    assert_eq!(d2.num_sets(), 512);
    assert_eq!(d2.sets_lo(), 6);
    assert_eq!(d2.ways_lo(), 28);
}

#[test]
fn decodes_extreme_fields() {
    // All fields at their maximum: 2 KiB lines, 1024 ways, 32768 sets.
    let all = 0x0FFF_FFFFu64;
    let c = CacheMaintenance::new(0, all, all);
    let d = c.info(CacheType::DataLevel1);
    assert_eq!(d.line_size(), 2048);
    assert_eq!(d.associativity(), 1024);
    assert_eq!(d.num_sets(), 32768);
    assert_eq!(d.cache_size(), 2048 * 1024 * 32768);
    assert_eq!(d.ways_lo(), 22);
    assert_eq!(d.sets_lo(), 11);
    // All fields at their minimum: 16-byte lines, one way, one set.
    let i = c.info(CacheType::Instruction);
    assert_eq!(i.line_size(), 16);
    assert_eq!(i.associativity(), 1);
    assert_eq!(i.num_sets(), 1);
    assert_eq!(i.cache_size(), 16);
    let c = CacheMaintenance::new(0, 0, 0);
    assert_eq!(c.info(CacheType::DataLevel2).ways_lo(), 32);
    assert_eq!(c.info(CacheType::DataLevel2).sets_lo(), 4);
}

#[test]
fn icache_whole_operations() {
    let c = a53();
    assert!(matches!(
        c.icache_invalidate(CacheInstructionOperation::InvalidateAll, 0, 0),
        CachePlan::Whole(CacheInstruction::IcIallu)
    ));
    assert!(matches!(
        c.icache_invalidate(CacheInstructionOperation::InvalidateAllInnerSharebale, 0, 0),
        CachePlan::Whole(CacheInstruction::IcIalluis)
    ));
}

fn collect_addresses(plan: CachePlan) -> (CacheInstruction, Vec<u64>) {
    match plan {
        CachePlan::ByAddress(instr, mut walk) => {
            let mut v = Vec::new();
            while let Some(a) = walk.next_address() {
                v.push(a);
            }
            (instr, v)
        }
        _ => panic!("not a by-address plan"),
    }
}

#[test]
fn icache_by_va_whole_cache_when_range_is_zero() {
    let c = a53();
    let (instr, v) =
        collect_addresses(c.icache_invalidate(CacheInstructionOperation::InvalidateByVA, 0x8_0000, 0));
    assert_eq!(instr, CacheInstruction::IcIvau);
    assert_eq!(v.len(), 32 * 1024 / 64);
    assert_eq!(v[0], 0x8_0000);
    assert_eq!(v[1], 0x8_0040);
    assert_eq!(*v.last().unwrap(), 0x8_0000 + 32 * 1024 - 64);
}

#[test]
fn icache_by_va_partial_line_range() {
    let c = a53();
    // 100 bytes from an address inside a line: step_by visits 0x1010 and 0x1050.
    let (_, v) =
        collect_addresses(c.icache_invalidate(CacheInstructionOperation::InvalidateByVA, 0x1010, 100));
    assert_eq!(v, vec![0x1010, 0x1050]);
}

#[test]
fn dcache_by_va_whole_cache_when_range_is_zero() {
    let c = a53();
    let (instr, v) =
        collect_addresses(c.dcache_invalidate(CacheDataOperation::CleanByVAtoPoC, 0x4000, 0));
    assert_eq!(instr, CacheInstruction::DcCvac);
    // the larger level (512 KiB level 2) in 64-byte lines
    assert_eq!(v.len(), 512 * 1024 / 64);
    assert_eq!(v[0], 0x4000);
    assert_eq!(v[1], 0x4040);
    assert_eq!(*v.last().unwrap(), 0x4000 + 512 * 1024 - 64);
}

#[test]
fn dcache_by_va_small_cache_when_range_is_zero() {
    // 16-byte lines, 2 ways, 2 sets: 64-byte caches.
    let c = CacheMaintenance::new(0x2008, 0x2008, 0x2008);
    assert_eq!(c.get_size(CacheType::DataLevel1), 64);
    let (_, v) =
        collect_addresses(c.dcache_invalidate(CacheDataOperation::CleanByVAtoPoC, 0x1000, 0));
    assert_eq!(v, vec![0x1000, 0x1010, 0x1020, 0x1030]);
}

#[test]
fn dcache_by_va_instructions() {
    let c = a53();
    let cases = [
        (CacheDataOperation::InvalidateByVAtoPoC, CacheInstruction::DcIvac),
        (CacheDataOperation::InvalidateByVAtoPoU, CacheInstruction::DcIvau),
        (CacheDataOperation::CleanByVAtoPoC, CacheInstruction::DcCvac),
        (CacheDataOperation::CleanByVAtoPoU, CacheInstruction::DcCvau),
        (CacheDataOperation::CleanInvalidateByVAtoPoC, CacheInstruction::DcCivac),
    ];
    for (op, expected) in cases {
        let (instr, v) = collect_addresses(c.dcache_invalidate(op, 0x10_0000, 256));
        assert_eq!(instr, expected);
        assert_eq!(v, vec![0x10_0000, 0x10_0040, 0x10_0080, 0x10_00C0]);
    }
}

#[test]
fn dcache_uses_smaller_line() {
    // level 1 with 32-byte lines, level 2 with 64-byte lines.
    let c = CacheMaintenance::new(I_CCSIDR, (127 << 13) | (3 << 3) | 1, D2_CCSIDR);
    let (_, v) =
        collect_addresses(c.dcache_invalidate(CacheDataOperation::InvalidateByVAtoPoC, 0, 100));
    assert_eq!(v, vec![0, 32, 64, 96]);
}

#[test]
fn dcache_set_way_walk() {
    let c = a53();
    match c.dcache_invalidate(CacheDataOperation::CleanInvalidateBySetWay, 0, 0) {
        CachePlan::BySetWay(instr, mut walk) => {
            assert_eq!(instr, CacheInstruction::DcCisw);
            let mut ops = Vec::new();
            while let Some(op) = walk.next_operand() {
                ops.push(op);
            }
            assert_eq!(ops.len(), 4 * 128 + 16 * 512);
            assert_eq!(ops[0], 0);
            assert_eq!(ops[1], 1 << 6);
            assert_eq!(ops[127], 127 << 6);
            assert_eq!(ops[128], 1 << 30);
            assert_eq!(ops[511], (3 << 30) | (127 << 6));
            assert_eq!(ops[512], 0b10);
            assert_eq!(ops[513], 0b10 | (1 << 6));
            assert_eq!(ops[512 + 512], 0b10 | (1 << 28));
            assert_eq!(*ops.last().unwrap(), 0b10 | (15 << 28) | (511 << 6));
            assert_eq!(walk.next_operand(), None);
        }
        _ => panic!("not a set/way plan"),
    }
}

#[test]
fn dcache_set_way_instructions() {
    let c = a53();
    assert!(matches!(
        c.dcache_invalidate(CacheDataOperation::InvalidateBySetWay, 0, 0),
        CachePlan::BySetWay(CacheInstruction::DcIsw, _)
    ));
    assert!(matches!(
        c.dcache_invalidate(CacheDataOperation::CleanBySetWay, 0, 0),
        CachePlan::BySetWay(CacheInstruction::DcCsw, _)
    ));
}

#[test]
fn dcache_zero_is_unsupported() {
    let c = a53();
    assert!(matches!(
        c.dcache_invalidate(CacheDataOperation::ZeroByVA, 0x1000, 64),
        CachePlan::Unsupported
    ));
}

#[test]
fn line_walk_covers_range_up_to_top_of_memory() {
    let mut walk = lib::cache::LineWalk::new(u64::MAX - 100, u64::MAX, 64);
    assert_eq!(walk.next_address(), Some(u64::MAX - 100));
    assert_eq!(walk.next_address(), Some(u64::MAX - 36));
    assert_eq!(walk.next_address(), None);
    assert_eq!(walk.next_address(), None);
}

#[test]
fn line_walk_empty_range() {
    let mut walk = lib::cache::LineWalk::new(0x2000, 0x2000, 64);
    assert_eq!(walk.next_address(), None);
}
