//! Cache geometry (decoded from CCSIDR_EL1) and cache maintenance walks.

use vstd::prelude::*;
use crate::arith::{
    bit_length, lemma_bit_length_at_most, lemma_ceil_log2_bounds, lemma_two_pow_64,
    lemma_two_pow_monotone, lemma_two_pow_small, spec_ceil_log2, two_pow,
};

verus! {

/// `ceil(log2(n))`, and 0 for `n <= 1`: the number of address bits needed to
/// index `n` cache ways or the bytes of an `n`-byte line.
pub fn ceil_log2(n: u64) -> (bits: u32)
    ensures
        bits == spec_ceil_log2(n as nat),
        n <= two_pow(bits as nat),
        bits > 0 ==> two_pow((bits - 1) as nat) < n,
        bits <= 64,
{
    proof {
        lemma_ceil_log2_bounds(n as nat);
    }
    let mut bits: u32 = 0;
    if n <= 1 {
        return 0;
    }
    let mut m: u64 = n - 1;
    proof {
        lemma_two_pow_64();
        lemma_bit_length_at_most(m as nat, 64);
    }
    while m != 0
        invariant
            bits + bit_length(m as nat) == bit_length((n - 1) as nat),
            bit_length((n - 1) as nat) <= 64,
            n > 1,
        decreases m,
    {
        assert(m >> 1 == m / 2) by (bit_vector);
        m = m >> 1;
        bits = bits + 1;
    }
    bits
}


/// The three caches of a Cortex-A53 core that the kernel maintains.
#[derive(Clone, Copy, PartialEq, Eq, Structural, Debug)]
pub enum CacheType {
    Instruction,
    DataLevel1,
    DataLevel2,
}

/// Instruction cache operations.
#[derive(Clone, Copy, PartialEq, Eq, Structural, Debug)]
pub enum CacheInstructionOperation {
    /// Invalidate all to the Point of Unification, Inner Shareable.
    InvalidateAllInnerSharebale,
    /// Invalidate all to the Point of Unification.
    InvalidateAll,
    /// Invalidate by virtual address to the Point of Unification.
    InvalidateByVA,
}

/// Data cache operations.  "Clean" writes dirty lines back to memory,
/// "invalidate" drops them; PoC is the Point of Coherency (outside the core),
/// PoU the Point of Unification (inside it).
#[derive(Clone, Copy, PartialEq, Eq, Structural, Debug)]
pub enum CacheDataOperation {
    InvalidateByVAtoPoC,
    InvalidateByVAtoPoU,
    InvalidateBySetWay,
    CleanByVAtoPoC,
    CleanByVAtoPoU,
    CleanBySetWay,
    CleanInvalidateByVAtoPoC,
    CleanInvalidateBySetWay,
    /// Zero by virtual address: not supported; nothing is done for it.
    ZeroByVA,
}

/// Line size in bytes that CCSIDR_EL1 describes: `16 * 2^LineSize`, where
/// LineSize is bits [2:0].
pub open spec fn ccsidr_line_size(ccsidr: u64) -> nat {
    16 * two_pow((ccsidr % 8) as nat)
}

/// Number of ways that CCSIDR_EL1 describes: Associativity (bits [12:3]) plus one.
pub open spec fn ccsidr_associativity(ccsidr: u64) -> nat {
    ((ccsidr / 8) % 1024 + 1) as nat
}

/// Number of sets that CCSIDR_EL1 describes: NumSets (bits [27:13]) plus one.
pub open spec fn ccsidr_num_sets(ccsidr: u64) -> nat {
    ((ccsidr / 8192) % 32768 + 1) as nat
}

/// Geometry of one cache.
pub struct CacheInformation {
    cache_type: CacheType,
    /// Total size of the cache in bytes.
    cache_size: usize,
    /// Size of one cache line in bytes.
    line_size: u64,
    /// Number of ways.
    associativity: u64,
    /// Number of sets.
    num_sets: u64,
    /// Lowest bit of the set field in a set/way operand.
    sets_lo: u8,
    /// Lowest bit of the way field in a set/way operand.
    ways_lo: u8,
}

impl CacheInformation {
    pub closed spec fn kind(&self) -> CacheType {
        self.cache_type
    }

    pub closed spec fn size(&self) -> usize {
        self.cache_size
    }

    pub closed spec fn line(&self) -> u64 {
        self.line_size
    }

    pub closed spec fn ways(&self) -> u64 {
        self.associativity
    }

    pub closed spec fn sets(&self) -> u64 {
        self.num_sets
    }

    pub closed spec fn set_shift(&self) -> u8 {
        self.sets_lo
    }

    pub closed spec fn way_shift(&self) -> u8 {
        self.ways_lo
    }

    /// This is the geometry that `ccsidr` describes for a cache of kind `kind`;
    /// `set_way` says whether the set/way operand shifts were derived
    /// (they are left at 0 for the instruction cache).
    pub open spec fn decodes(&self, kind: CacheType, ccsidr: u64, set_way: bool) -> bool {
        &&& self.kind() == kind
        &&& self.line() == ccsidr_line_size(ccsidr)
        &&& self.ways() == ccsidr_associativity(ccsidr)
        &&& self.sets() == ccsidr_num_sets(ccsidr)
        &&& self.size() == (self.line() * self.sets() * self.ways()) as usize
        &&& set_way ==> self.way_shift() == 32 - spec_ceil_log2(self.ways() as nat)
            && self.set_shift() == spec_ceil_log2(self.line() as nat)
        &&& !set_way ==> self.way_shift() == 0 && self.set_shift() == 0
    }

    /// The ranges that any decoded geometry stays within.
    pub open spec fn well_formed(&self) -> bool {
        &&& 16 <= self.line() <= 2048
        &&& 1 <= self.ways() <= 1024
        &&& 1 <= self.sets() <= 32768
        &&& 22 <= self.way_shift() <= 32 || self.way_shift() == 0
        &&& self.set_shift() <= 11
    }

    pub fn cache_type(&self) -> (kind: CacheType)
        ensures
            kind == self.kind(),
    {
        self.cache_type
    }

    pub fn cache_size(&self) -> (size: usize)
        ensures
            size == self.size(),
    {
        self.cache_size
    }

    pub fn line_size(&self) -> (line: u64)
        ensures
            line == self.line(),
    {
        self.line_size
    }

    pub fn associativity(&self) -> (ways: u64)
        ensures
            ways == self.ways(),
    {
        self.associativity
    }

    pub fn num_sets(&self) -> (sets: u64)
        ensures
            sets == self.sets(),
    {
        self.num_sets
    }

    pub fn sets_lo(&self) -> (shift: u8)
        ensures
            shift == self.set_shift(),
    {
        self.sets_lo
    }

    pub fn ways_lo(&self) -> (shift: u8)
        ensures
            shift == self.way_shift(),
    {
        self.ways_lo
    }

    fn from_ccsidr(kind: CacheType, ccsidr: u64, set_way: bool) -> (info: Self)
        ensures
            info.decodes(kind, ccsidr, set_way),
            info.well_formed(),
    {
        let x = ccsidr & 7;
        let sets_field = (ccsidr & 0x0FFF_E000) >> 13;
        let ways_field = (ccsidr & 0x0000_1FF8) >> 3;
        proof {
            assert(x == ccsidr % 8 && sets_field == (ccsidr / 8192) % 32768 && ways_field == (
            ccsidr / 8) % 1024) by (bit_vector)
                requires
                    x == ccsidr & 7,
                    sets_field == (ccsidr & 0x0FFF_E000) >> 13,
                    ways_field == (ccsidr & 0x0000_1FF8) >> 3,
            ;
            assert((16u64 << x) == (if x == 0 {
                16u64
            } else if x == 1 {
                32u64
            } else if x == 2 {
                64u64
            } else if x == 3 {
                128u64
            } else if x == 4 {
                256u64
            } else if x == 5 {
                512u64
            } else if x == 6 {
                1024u64
            } else {
                2048u64
            })) by (bit_vector)
                requires
                    x < 8,
            ;
        }
        let line_size: u64 = 16u64 << x;
        let num_sets: u64 = sets_field + 1;
        let associativity: u64 = ways_field + 1;
        proof {
            reveal_with_fuel(two_pow, 8);
            assert(line_size == ccsidr_line_size(ccsidr));
            assert(line_size * num_sets <= 2048 * 32768) by (nonlinear_arith)
                requires
                    line_size <= 2048,
                    num_sets <= 32768,
            ;
            assert(line_size * num_sets * associativity <= 2048 * 32768 * 1024) by (nonlinear_arith)
                requires
                    line_size * num_sets <= 2048 * 32768,
                    associativity <= 1024,
            ;
        }
        let cache_size = #[verifier::truncate] ((line_size * num_sets * associativity) as usize);
        let mut sets_lo: u8 = 0;
        let mut ways_lo: u8 = 0;
        if set_way {
            let way_bits = ceil_log2(associativity);
            let line_bits = ceil_log2(line_size);
            proof {
                lemma_two_pow_small();
                if way_bits > 10 {
                    lemma_two_pow_monotone(10, (way_bits - 1) as nat);
                }
                if line_bits > 11 {
                    lemma_two_pow_monotone(11, (line_bits - 1) as nat);
                }
            }
            ways_lo = 32 - way_bits as u8;
            sets_lo = line_bits as u8;
            proof {
                if associativity == 1 {
                    assert(way_bits == 0);
                } else {
                    assert(way_bits >= 1);
                }
                assert(line_size >= 16);
                lemma_ceil_log2_bounds(line_size as nat);
            }
        }
        CacheInformation {
            cache_type: kind,
            cache_size,
            line_size,
            associativity,
            num_sets,
            sets_lo,
            ways_lo,
        }
    }
}


/// Geometry of the instruction cache and both data cache levels.
pub struct CacheMaintenance {
    init_done: bool,
    i_cache: CacheInformation,
    d_l1_cache: CacheInformation,
    d_l2_cache: CacheInformation,
}

impl CacheMaintenance {
    #[verifier::type_invariant]
    closed spec fn inv(&self) -> bool {
        &&& self.init_done
        &&& self.i_cache.well_formed()
        &&& self.d_l1_cache.well_formed()
        &&& self.d_l2_cache.well_formed()
        &&& self.i_cache.kind() == CacheType::Instruction
        &&& self.d_l1_cache.kind() == CacheType::DataLevel1
        &&& self.d_l2_cache.kind() == CacheType::DataLevel2
    }

    /// The geometry recorded for one cache.
    pub closed spec fn cache(&self, cache_type: CacheType) -> CacheInformation {
        match cache_type {
            CacheType::Instruction => self.i_cache,
            CacheType::DataLevel1 => self.d_l1_cache,
            CacheType::DataLevel2 => self.d_l2_cache,
        }
    }

    /// Builds the cache description from the CCSIDR_EL1 values read with
    /// CSSELR_EL1 selecting the level 1 instruction cache, the level 1 data
    /// cache and the level 2 data cache.
    pub fn new(i_ccsidr: u64, d_l1_ccsidr: u64, d_l2_ccsidr: u64) -> (caches: CacheMaintenance)
        ensures
            caches.cache(CacheType::Instruction).decodes(CacheType::Instruction, i_ccsidr, false),
            caches.cache(CacheType::DataLevel1).decodes(CacheType::DataLevel1, d_l1_ccsidr, true),
            caches.cache(CacheType::DataLevel2).decodes(CacheType::DataLevel2, d_l2_ccsidr, true),
    {
        let i_cache = CacheInformation::from_ccsidr(CacheType::Instruction, i_ccsidr, false);
        let d_l1_cache = CacheInformation::from_ccsidr(CacheType::DataLevel1, d_l1_ccsidr, true);
        let d_l2_cache = CacheInformation::from_ccsidr(CacheType::DataLevel2, d_l2_ccsidr, true);
        CacheMaintenance { init_done: true, i_cache, d_l1_cache, d_l2_cache }
    }

    /// The geometry recorded for one cache.
    pub fn info(&self, cache_type: CacheType) -> (info: &CacheInformation)
        ensures
            *info == self.cache(cache_type),
    {
        match cache_type {
            CacheType::Instruction => &self.i_cache,
            CacheType::DataLevel1 => &self.d_l1_cache,
            CacheType::DataLevel2 => &self.d_l2_cache,
        }
    }

    /// Total size in bytes of one cache.
    pub fn get_size(&self, cache_type: CacheType) -> (size: usize)
        ensures
            size == self.cache(cache_type).size(),
    {
        proof {
            use_type_invariant(self);
        }
        if self.init_done {
            match cache_type {
                CacheType::Instruction => return self.i_cache.cache_size,
                CacheType::DataLevel1 => return self.d_l1_cache.cache_size,
                CacheType::DataLevel2 => return self.d_l2_cache.cache_size,
            }
        }
        0
    }
}


/// The addresses `start, start + step, start + 2 * step, ...` that lie below
/// `end`: one address in each cache line of `[start, end)` when `step` is the
/// line size.
pub open spec fn line_addresses(start: u64, end: u64, step: u64) -> Seq<u64> {
    let count: int = if start < end && step > 0 {
        (end - start - 1) / (step as int) + 1
    } else {
        0
    };
    Seq::new(count as nat, |i: int| (start + i * step) as u64)
}

/// Walk over `[start, end)` in steps of one cache line, as the maintenance
/// loops issue a by-address operation for each line.
pub struct LineWalk {
    next: u64,
    end: u64,
    step: u64,
}

impl LineWalk {
    #[verifier::type_invariant]
    closed spec fn inv(&self) -> bool {
        self.step > 0
    }

    /// The addresses still to be visited, in order.
    pub closed spec fn remaining(&self) -> Seq<u64> {
        line_addresses(self.next, self.end, self.step)
    }

    pub fn new(start: u64, end: u64, step: u64) -> (walk: LineWalk)
        requires
            step > 0,
        ensures
            walk.remaining() == line_addresses(start, end, step),
    {
        LineWalk { next: start, end, step }
    }

    /// The next address of the walk, or `None` once the walk is over.
    pub fn next_address(&mut self) -> (address: Option<u64>)
        ensures
            old(self).remaining().len() == 0 ==> address is None && final(self).remaining()
                == old(self).remaining(),
            old(self).remaining().len() > 0 ==> address == Some(old(self).remaining()[0])
                && final(self).remaining() == old(self).remaining().drop_first(),
    {
        proof {
            use_type_invariant(&*self);
        }
        if self.next >= self.end {
            return None;
        }
        let address = self.next;
        let ghost old_rem = self.remaining();
        let ghost start = self.next as int;
        let ghost end = self.end as int;
        let ghost step = self.step as int;
        if self.end - self.next <= self.step {
            self.next = self.end;
            proof {
                assert((end - start - 1) / step == 0) by (nonlinear_arith)
                    requires
                        0 <= end - start - 1 < step,
                ;
                assert(self.remaining() =~= old_rem.drop_first());
            }
        } else {
            self.next = self.next + self.step;
            proof {
                let x = end - start - 1;
                assert((x - step) / step == x / step - 1) by (nonlinear_arith)
                    requires
                        x >= step > 0,
                ;
                let new_rem = self.remaining();
                assert forall|i: int| 0 <= i < new_rem.len() implies new_rem[i] == old_rem[i + 1] by {
                    assert(start + step + i * step == start + (i + 1) * step) by (nonlinear_arith);
                }
                assert(new_rem =~= old_rem.drop_first());
            }
        }
        Some(address)
    }
}


/// The set/way operand of a `DC ISW/CSW/CISW` instruction: the level field
/// `level_bits` with the way number shifted to `way_shift` and the set
/// number shifted to `set_shift`.
pub open spec fn set_way_operand(level_bits: u64, way: u64, set: u64, way_shift: u8, set_shift: u8)
    -> u64 {
    (level_bits | (way << way_shift)) | (set << set_shift)
}

/// The operands for every (way, set) pair of one cache level, ways outer and
/// sets inner.
pub open spec fn level_operands(level_bits: u64, ways: u64, sets: u64, way_shift: u8, set_shift: u8)
    -> Seq<u64> {
    Seq::new(
        (ways * sets) as nat,
        |i: int|
            set_way_operand(
                level_bits,
                (i / (sets as int)) as u64,
                (i % (sets as int)) as u64,
                way_shift,
                set_shift,
            ),
    )
}

/// The set/way operands for a whole data cache level; `level_bits` is the
/// level field (0 for level 1, `0b10` for level 2).
pub open spec fn cache_operands(info: CacheInformation, level_bits: u64) -> Seq<u64> {
    level_operands(level_bits, info.ways(), info.sets(), info.way_shift(), info.set_shift())
}

#[derive(Clone, Copy)]
struct SetWayLevel {
    level_bits: u64,
    ways: u64,
    sets: u64,
    way_shift: u8,
    set_shift: u8,
}

impl SetWayLevel {
    spec fn operands(self) -> Seq<u64> {
        level_operands(self.level_bits, self.ways, self.sets, self.way_shift, self.set_shift)
    }

    spec fn well_formed(self) -> bool {
        1 <= self.ways <= 1024 && 1 <= self.sets <= 32768 && self.way_shift <= 32
            && self.set_shift <= 32
    }
}

/// Walk over every way and set of the level 1 data cache, then of the level 2
/// data cache, as the set/way maintenance loops issue their operations.
pub struct SetWayWalk {
    /// 0 while walking level 1, 1 while walking level 2, 2 when done.
    level: u8,
    way: u64,
    set: u64,
    first: SetWayLevel,
    second: SetWayLevel,
}

impl SetWayWalk {
    spec fn current(&self) -> SetWayLevel {
        if self.level == 0 {
            self.first
        } else {
            self.second
        }
    }

    spec fn position(&self) -> int {
        self.way * self.current().sets + self.set
    }

    #[verifier::type_invariant]
    closed spec fn inv(&self) -> bool {
        &&& self.first.well_formed()
        &&& self.second.well_formed()
        &&& self.level <= 2
        &&& self.level < 2 ==> self.way < self.current().ways && self.set < self.current().sets
    }

    /// The operands still to be issued, in order.
    pub closed spec fn remaining(&self) -> Seq<u64> {
        if self.level == 0 {
            self.first.operands().skip(self.position()) + self.second.operands()
        } else if self.level == 1 {
            self.second.operands().skip(self.position())
        } else {
            Seq::empty()
        }
    }

    /// The walk over both data cache levels described by `caches`.
    pub fn new(caches: &CacheMaintenance) -> (walk: SetWayWalk)
        ensures
            walk.remaining() == cache_operands(caches.cache(CacheType::DataLevel1), 0)
                + cache_operands(caches.cache(CacheType::DataLevel2), 2),
    {
        proof {
            use_type_invariant(caches);
        }
        let l1 = &caches.d_l1_cache;
        let l2 = &caches.d_l2_cache;
        let walk = SetWayWalk {
            level: 0,
            way: 0,
            set: 0,
            first: SetWayLevel {
                level_bits: 0,
                ways: l1.associativity,
                sets: l1.num_sets,
                way_shift: l1.ways_lo,
                set_shift: l1.sets_lo,
            },
            second: SetWayLevel {
                level_bits: 0b10,
                ways: l2.associativity,
                sets: l2.num_sets,
                way_shift: l2.ways_lo,
                set_shift: l2.sets_lo,
            },
        };
        assert(walk.first.operands().skip(0) =~= walk.first.operands());
        walk
    }

    /// The next set/way operand, or `None` once both levels are done.
    pub fn next_operand(&mut self) -> (operand: Option<u64>)
        ensures
            old(self).remaining().len() == 0 ==> operand is None && final(self).remaining()
                == old(self).remaining(),
            old(self).remaining().len() > 0 ==> operand == Some(old(self).remaining()[0])
                && final(self).remaining() == old(self).remaining().drop_first(),
    {
        proof {
            use_type_invariant(&*self);
        }
        if self.level >= 2 {
            return None;
        }
        let g = if self.level == 0 {
            self.first
        } else {
            self.second
        };
        let way = self.way;
        let set = self.set;
        let operand = (g.level_bits | (way << g.way_shift)) | (set << g.set_shift);
        let ghost old_rem = self.remaining();
        let ghost ops = g.operands();
        let ghost p = self.position();
        let ghost level = self.level;
        proof {
            let w = way as int;
            let s = set as int;
            let n = g.sets as int;
            vstd::arithmetic::div_mod::lemma_fundamental_div_mod_converse(p, n, w, s);
            vstd::arithmetic::mul::lemma_mul_inequality(w + 1, g.ways as int, n);
            assert((w + 1) * n == w * n + n) by (nonlinear_arith);
            assert(p < g.ways * g.sets);
            assert(ops[p] == operand);
            assert(old_rem[0] == operand);
        }
        let ghost rest = if level == 0 {
            self.second.operands()
        } else {
            Seq::<u64>::empty()
        };
        proof {
            assert(old_rem =~= ops.skip(p) + rest);
            assert(old_rem.drop_first() =~= ops.skip(p + 1) + rest);
        }
        if set + 1 < g.sets {
            self.set = set + 1;
            proof {
                assert(self.position() == p + 1);
                assert(self.remaining() =~= ops.skip(p + 1) + rest);
            }
        } else if way + 1 < g.ways {
            self.way = way + 1;
            self.set = 0;
            proof {
                assert(self.position() == p + 1) by (nonlinear_arith)
                    requires
                        self.position() == (way + 1) * g.sets,
                        p == way * g.sets + set,
                        set + 1 == g.sets,
                ;
                assert(self.remaining() =~= ops.skip(p + 1) + rest);
            }
        } else {
            self.way = 0;
            self.set = 0;
            self.level = self.level + 1;
            proof {
                assert(p + 1 == g.ways * g.sets) by (nonlinear_arith)
                    requires
                        p == way * g.sets + set,
                        set + 1 == g.sets,
                        way + 1 == g.ways,
                ;
                assert(ops.skip(p + 1) =~= Seq::<u64>::empty());
                assert(self.second.operands().skip(0) =~= self.second.operands());
                assert(self.remaining() =~= ops.skip(p + 1) + rest);
            }
        }
        Some(operand)
    }
}


/// The cache maintenance instructions the kernel issues.
#[derive(Clone, Copy, PartialEq, Eq, Structural, Debug)]
pub enum CacheInstruction {
    /// `IC IALLUIS`: invalidate all instruction caches, Inner Shareable.
    IcIalluis,
    /// `IC IALLU`: invalidate all instruction caches.
    IcIallu,
    /// `IC IVAU`: invalidate an instruction cache line by address to PoU.
    IcIvau,
    /// `DC IVAC`: invalidate a data cache line by address to PoC.
    DcIvac,
    /// `DC IVAU`: invalidate a data cache line by address to PoU.
    DcIvau,
    /// `DC CVAC`: clean a data cache line by address to PoC.
    DcCvac,
    /// `DC CVAU`: clean a data cache line by address to PoU.
    DcCvau,
    /// `DC CIVAC`: clean and invalidate a data cache line by address to PoC.
    DcCivac,
    /// `DC ISW`: invalidate a data cache line by set/way.
    DcIsw,
    /// `DC CSW`: clean a data cache line by set/way.
    DcCsw,
    /// `DC CISW`: clean and invalidate a data cache line by set/way.
    DcCisw,
}

/// What one maintenance request comes down to.  Every plan is issued after a
/// `DSB ISH`; all but `Unsupported` end with an `ISB`.
pub enum CachePlan {
    /// One instruction without an operand.
    Whole(CacheInstruction),
    /// The instruction once for every address of the walk.
    ByAddress(CacheInstruction, LineWalk),
    /// The instruction once for every operand of the walk.
    BySetWay(CacheInstruction, SetWayWalk),
    /// The operation is not supported: nothing is issued, not even the closing `ISB`.
    Unsupported,
}

/// The by-address instruction for a data cache operation, if it is one.
pub open spec fn data_by_address_instruction(op: CacheDataOperation) -> Option<CacheInstruction> {
    match op {
        CacheDataOperation::InvalidateByVAtoPoC => Some(CacheInstruction::DcIvac),
        CacheDataOperation::InvalidateByVAtoPoU => Some(CacheInstruction::DcIvau),
        CacheDataOperation::CleanByVAtoPoC => Some(CacheInstruction::DcCvac),
        CacheDataOperation::CleanByVAtoPoU => Some(CacheInstruction::DcCvau),
        CacheDataOperation::CleanInvalidateByVAtoPoC => Some(CacheInstruction::DcCivac),
        _ => None,
    }
}

/// The set/way instruction for a data cache operation, if it is one.
pub open spec fn data_set_way_instruction(op: CacheDataOperation) -> Option<CacheInstruction> {
    match op {
        CacheDataOperation::InvalidateBySetWay => Some(CacheInstruction::DcIsw),
        CacheDataOperation::CleanBySetWay => Some(CacheInstruction::DcCsw),
        CacheDataOperation::CleanInvalidateBySetWay => Some(CacheInstruction::DcCisw),
        _ => None,
    }
}

/// `plan` issues `instr` at every line of `[start, start + extent)` in steps of `step`.
pub open spec fn walks_range(plan: CachePlan, instr: CacheInstruction, start: u64, extent: int, step: u64) -> bool {
    &&& plan matches CachePlan::ByAddress(i, walk)
    &&& i == instr
    &&& walk.remaining() == line_addresses(start, (start + extent) as u64, step)
}

impl CacheMaintenance {
    /// Bytes covered by an instruction cache invalidation by address: the
    /// requested range, or the whole cache size when the range is 0.
    pub open spec fn icache_extent(&self, va_range: usize) -> int {
        if va_range == 0 {
            self.cache(CacheType::Instruction).size() as int
        } else {
            va_range as int
        }
    }

    /// The smaller of the two data cache line sizes.
    pub open spec fn data_line(&self) -> u64 {
        if self.cache(CacheType::DataLevel1).line() <= self.cache(CacheType::DataLevel2).line() {
            self.cache(CacheType::DataLevel1).line()
        } else {
            self.cache(CacheType::DataLevel2).line()
        }
    }

    /// The size of the larger data cache level: a range of this many bytes
    /// covers every data cache level.
    pub open spec fn data_size(&self) -> usize {
        if self.cache(CacheType::DataLevel1).size() <= self.cache(CacheType::DataLevel2).size() {
            self.cache(CacheType::DataLevel2).size()
        } else {
            self.cache(CacheType::DataLevel1).size()
        }
    }

    /// Bytes covered by a data cache operation by address: the requested
    /// range, or the whole data cache (the size of its larger level) when the
    /// range is 0.
    pub open spec fn dcache_extent(&self, va_range: usize) -> int {
        if va_range == 0 {
            self.data_size() as int
        } else {
            va_range as int
        }
    }

    /// What invalidating the instruction cache comes down to.  By address, the
    /// range is `[va, va + va_range)`, or `[va, va + cache size)` when
    /// `va_range` is 0, visited one instruction cache line at a time.
    pub fn icache_invalidate(&self, icache_op: CacheInstructionOperation, va: u64, va_range: usize) -> (plan: CachePlan)
        requires
            icache_op == CacheInstructionOperation::InvalidateByVA ==> va + self.icache_extent(va_range) <= u64::MAX,
        ensures
            icache_op == CacheInstructionOperation::InvalidateAllInnerSharebale ==> plan == CachePlan::Whole(CacheInstruction::IcIalluis),
            icache_op == CacheInstructionOperation::InvalidateAll ==> plan == CachePlan::Whole(CacheInstruction::IcIallu),
            icache_op == CacheInstructionOperation::InvalidateByVA ==> walks_range(plan, CacheInstruction::IcIvau, va, self.icache_extent(va_range), self.cache(CacheType::Instruction).line()),
    {
        proof {
            use_type_invariant(self);
        }
        match icache_op {
            CacheInstructionOperation::InvalidateAllInnerSharebale => CachePlan::Whole(CacheInstruction::IcIalluis),
            CacheInstructionOperation::InvalidateAll => CachePlan::Whole(CacheInstruction::IcIallu),
            CacheInstructionOperation::InvalidateByVA => {
                let va_end: u64 = if va_range == 0 {
                    va + self.i_cache.cache_size as u64
                } else {
                    va + va_range as u64
                };
                CachePlan::ByAddress(CacheInstruction::IcIvau, LineWalk::new(va, va_end, self.i_cache.line_size))
            },
        }
    }

    /// What a data cache operation comes down to.  By address, the range is
    /// `[va, va + va_range)`, or `[va, va + data cache size)` (the size of
    /// the larger level) when `va_range` is 0, visited in
    /// steps of the smaller data cache line; by set/way, every way and set of
    /// the level 1 then the level 2 data cache.
    pub fn dcache_invalidate(&self, dcache_op: CacheDataOperation, va: u64, va_range: usize) -> (plan: CachePlan)
        requires
            data_by_address_instruction(dcache_op) is Some ==> va + self.dcache_extent(va_range) <= u64::MAX,
        ensures
            data_by_address_instruction(dcache_op) matches Some(instr) ==> walks_range(plan, instr, va, self.dcache_extent(va_range), self.data_line()),
            data_set_way_instruction(dcache_op) matches Some(instr) ==> plan matches CachePlan::BySetWay(i, walk) && i == instr
                && walk.remaining() == cache_operands(self.cache(CacheType::DataLevel1), 0) + cache_operands(self.cache(CacheType::DataLevel2), 2),
            dcache_op == CacheDataOperation::ZeroByVA ==> plan is Unsupported,
    {
        proof {
            use_type_invariant(self);
        }
        let line_size: u64 = if self.d_l1_cache.line_size <= self.d_l2_cache.line_size {
            self.d_l1_cache.line_size
        } else {
            self.d_l2_cache.line_size
        };
        let by_address = match dcache_op {
            CacheDataOperation::InvalidateByVAtoPoC => Some(CacheInstruction::DcIvac),
            CacheDataOperation::InvalidateByVAtoPoU => Some(CacheInstruction::DcIvau),
            CacheDataOperation::CleanByVAtoPoC => Some(CacheInstruction::DcCvac),
            CacheDataOperation::CleanByVAtoPoU => Some(CacheInstruction::DcCvau),
            CacheDataOperation::CleanInvalidateByVAtoPoC => Some(CacheInstruction::DcCivac),
            _ => None,
        };
        if let Some(instr) = by_address {
            let data_size: usize = if self.d_l1_cache.cache_size <= self.d_l2_cache.cache_size {
                self.d_l2_cache.cache_size
            } else {
                self.d_l1_cache.cache_size
            };
            let va_end: u64 = if va_range == 0 {
                va + data_size as u64
            } else {
                va + va_range as u64
            };
            return CachePlan::ByAddress(instr, LineWalk::new(va, va_end, line_size));
        }
        match dcache_op {
            CacheDataOperation::InvalidateBySetWay => CachePlan::BySetWay(CacheInstruction::DcIsw, SetWayWalk::new(self)),
            CacheDataOperation::CleanBySetWay => CachePlan::BySetWay(CacheInstruction::DcCsw, SetWayWalk::new(self)),
            CacheDataOperation::CleanInvalidateBySetWay => CachePlan::BySetWay(CacheInstruction::DcCisw, SetWayWalk::new(self)),
            _ => CachePlan::Unsupported,
        }
    }
}


/// A by-address walk over `[start, end)` stays inside the range, and every
/// byte `x` of the range lies in the line that begins at the walk's address
/// number `(x - start) / step`: maintaining each visited line covers the
/// whole range.
pub proof fn lemma_line_addresses_cover(start: u64, end: u64, step: u64, x: int)
    requires
        step > 0,
        start <= x < end,
    ensures
        forall|i: int|
            0 <= i < line_addresses(start, end, step).len() ==> start <= #[trigger] line_addresses(
                start,
                end,
                step,
            )[i] < end,
        0 <= (x - start) / (step as int) < line_addresses(start, end, step).len(),
        line_addresses(start, end, step)[(x - start) / (step as int)] <= x < line_addresses(
            start,
            end,
            step,
        )[(x - start) / (step as int)] + step,
{
    let s = line_addresses(start, end, step);
    let n = (end - start - 1) / (step as int) + 1;
    assert forall|i: int| 0 <= i < s.len() implies start <= #[trigger] s[i] < end by {
        assert(i * step <= end - start - 1) by (nonlinear_arith)
            requires
                0 <= i < n,
                n == (end - start - 1) / (step as int) + 1,
                step > 0,
                end > start,
        ;
        assert(0 <= i * step) by (nonlinear_arith)
            requires
                0 <= i,
                step > 0,
        ;
    }
    let i = (x - start) / (step as int);
    assert(0 <= i < n) by (nonlinear_arith)
        requires
            i == (x - start) / (step as int),
            n == (end - start - 1) / (step as int) + 1,
            start <= x < end,
            step > 0,
    ;
    assert(i * step <= x - start < i * step + step) by (nonlinear_arith)
        requires
            i == (x - start) / (step as int),
            start <= x,
            step > 0,
    ;
    assert(start <= s[i] < end);
}


/// The set/way walk of a cache level issues the operand of way `w` and set
/// `s` at position `w * sets + s`: every line of the level is visited.
pub proof fn lemma_cache_operands_cover(info: CacheInformation, level_bits: u64, w: u64, s: u64)
    requires
        w < info.ways(),
        s < info.sets(),
    ensures
        w * info.sets() + s < cache_operands(info, level_bits).len(),
        cache_operands(info, level_bits)[w * info.sets() + s] == set_way_operand(
            level_bits,
            w,
            s,
            info.way_shift(),
            info.set_shift(),
        ),
{
    let n = info.sets() as int;
    let i = w * n + s;
    vstd::arithmetic::div_mod::lemma_fundamental_div_mod_converse(i, n, w as int, s as int);
    vstd::arithmetic::mul::lemma_mul_inequality(w + 1, info.ways() as int, n);
    assert((w + 1) * n == w * n + n) by (nonlinear_arith);
}

} // verus!
