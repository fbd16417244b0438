//! The CPU core: architectural state, virtual-address translation, fetch,
//! and the instruction interpreter with branch-delay-slot semantics.
//!
//! `spec_execute` is the mathematical small-step semantics of one retired
//! instruction over a `CpuView`; the executable `execute` is proved to
//! implement it exactly, for every instruction word and every starting state.

use vstd::prelude::*;

verus! {

use vstd::arithmetic::div_mod::{lemma_add_mod_noop_right, lemma_mul_mod_noop_right};
use vstd::std_specs::bits::{u32_leading_ones, u32_leading_zeros};
use vstd::string::StringExecFns;
use vstd::wrapping::u32_specs;
use crate::bus::{bus_load, bus_store, bus_wf, Bus, BusView};
use crate::memory::{padded_image, BOOT_ROM_SIZE, MEMORY_SIZE};
use crate::words::{
    combine64,
    hi32,
    lo32,
    lemma_hi_lo_split,
    lemma_sign_extend16,
    lemma_wrapping_add64_is_wrap64,
    lemma_wrapping_add_is_wrap32,
    lemma_wrapping_mul_is_wrap32,
    lemma_wrapping_sub_is_wrap32,
    product64_signed,
    product64_unsigned,
    sdiv_quotient,
    sdiv_remainder,
    sext16,
    sext8,
    shift_right_arithmetic,
    sign_extend16,
    sign_extend8,
    signed16,
    signed_divide,
    signed_product,
    sra32,
    to_signed32,
    unsigned_product,
    wrap32,
    wrap64,
};

broadcast use vstd::array::group_array_axioms;

/// The virtual address at which execution begins after reset.
pub const BOOT_EXCEPTION_VECTOR: u32 = 0xbfc0_0000;

/// Base of the user segment (TLB-mapped; not implemented by this core).
pub const KUSEG_BASE: u32 = 0x0000_0000;

/// Size of the user segment.
pub const KUSEG_SIZE: u32 = 0x8000_0000;

/// Base of the cached kernel segment; maps physical memory by subtraction.
pub const KSEG0_BASE: u32 = 0x8000_0000;

/// Size of the cached kernel segment.
pub const KSEG0_SIZE: u32 = 0x2000_0000;

/// Base of the uncached kernel segment; maps physical memory by subtraction.
pub const KSEG1_BASE: u32 = 0xa000_0000;

/// Size of the uncached kernel segment.
pub const KSEG1_SIZE: u32 = 0x2000_0000;

/// Base of the second TLB-mapped kernel segment (not implemented).
pub const KSEG2_BASE: u32 = 0xc000_0000;

/// The processor: 32 general-purpose registers, program counter, HI/LO
/// latches, the pending branch target of the delay-slot model, and the bus
/// it exclusively owns.
pub struct Cpu {
    pub regs: [u32; 32],
    pub pc: u32,
    pub bus: Bus,
    pc_branch_delay: Option<u32>,
    pub hi: u32,
    pub lo: u32,
}

/// The architectural state of the machine, as the contracts speak of it.
pub struct CpuView {
    /// The 32 general-purpose registers.
    pub regs: Seq<u32>,
    /// The program counter. The driver increments it by 4 between fetch and
    /// execute, so during execution it points past the current instruction.
    pub pc: u32,
    /// The HI multiply/divide latch.
    pub hi: u32,
    /// The LO multiply/divide latch.
    pub lo: u32,
    /// The pending branch target: the PC to install after the delay-slot
    /// instruction retires.
    pub delay: Option<u32>,
    /// The memory state behind the bus.
    pub bus: BusView,
}

impl View for Cpu {
    type V = CpuView;

    closed spec fn view(&self) -> CpuView {
        CpuView {
            regs: self.regs@,
            pc: self.pc,
            hi: self.hi,
            lo: self.lo,
            delay: self.pc_branch_delay,
            bus: self.bus@,
        }
    }
}

/// Virtual-to-physical translation by segment: KSEG0 and KSEG1 map by
/// subtracting the segment base; the TLB-mapped KUSEG and KSEG2 are not
/// implemented and translate to physical 0 so execution can continue
/// deterministically.
pub open spec fn spec_mmu(addr: u32) -> u32 {
    if addr < KSEG0_BASE {
        0
    } else if addr < KSEG1_BASE {
        (addr - KSEG0_BASE) as u32
    } else if addr < KSEG2_BASE {
        (addr - KSEG1_BASE) as u32
    } else {
        0
    }
}

// Instruction fields, as the decoder cuts them out of the 32-bit word.
/// Bits 31..26: the major opcode.
pub open spec fn op_field(inst: u32) -> u32 {
    inst >> 26
}

/// Bits 25..21: the rs register index.
pub open spec fn rs_field(inst: u32) -> int {
    ((inst >> 21) & 0x1f) as int
}

/// Bits 20..16: the rt register index.
pub open spec fn rt_field(inst: u32) -> int {
    ((inst >> 16) & 0x1f) as int
}

/// Bits 20..16 read as a sub-opcode (the REGIMM encoding).
pub open spec fn rt_sel_field(inst: u32) -> u32 {
    (inst >> 16) & 0x1f
}

/// Bits 15..11: the rd register index.
pub open spec fn rd_field(inst: u32) -> int {
    ((inst >> 11) & 0x1f) as int
}

/// Bits 10..6: the shift amount.
pub open spec fn shamt_field(inst: u32) -> u32 {
    (inst >> 6) & 0x1f
}

/// Bits 5..0: the minor opcode of SPECIAL and SPECIAL2 encodings.
pub open spec fn funct_field(inst: u32) -> u32 {
    inst & 0x3f
}

/// Bits 15..0: the 16-bit immediate.
pub open spec fn imm16_field(inst: u32) -> u32 {
    inst & 0xffff
}

/// Bits 25..0: the 26-bit jump target.
pub open spec fn target26_field(inst: u32) -> u32 {
    inst & 0x03ff_ffff
}

/// Every decoded field lies in its range.
pub proof fn lemma_decode_bounds(inst: u32)
    ensures
        op_field(inst) < 64,
        0 <= rs_field(inst) < 32,
        0 <= rt_field(inst) < 32,
        rt_sel_field(inst) < 32,
        0 <= rd_field(inst) < 32,
        shamt_field(inst) < 32,
        funct_field(inst) < 64,
        imm16_field(inst) < 0x1_0000,
        target26_field(inst) < 0x0400_0000,
{
    assert((inst >> 26) < 64 && ((inst >> 21) & 0x1f) < 32 && ((inst >> 16) & 0x1f) < 32 && ((
    inst >> 11) & 0x1f) < 32 && ((inst >> 6) & 0x1f) < 32 && (inst & 0x3f) < 64 && (inst & 0xffff)
        < 0x1_0000 && (inst & 0x03ff_ffff) < 0x0400_0000) by (bit_vector);
}

/// The state with register 0 reset to its wired zero.
pub open spec fn clear_r0(s: CpuView) -> CpuView {
    CpuView { regs: s.regs.update(0, 0u32), ..s }
}

/// The state after writing `v` to register `idx`: a write to register 0 is
/// discarded.
pub open spec fn with_reg(s: CpuView, idx: int, v: u32) -> CpuView {
    if idx == 0 {
        s
    } else {
        CpuView { regs: s.regs.update(idx, v), ..s }
    }
}

/// The state with a branch to `target` scheduled: the target becomes PC only
/// after the next (delay-slot) instruction retires.
pub open spec fn sched_branch(s: CpuView, target: u32) -> CpuView {
    CpuView { delay: Some(target), ..s }
}

/// The end of a non-branch instruction: a pending branch target, if any,
/// becomes the PC and the pending slot clears.
pub open spec fn retire_delay(s: CpuView) -> CpuView {
    match s.delay {
        Some(t) => CpuView { pc: t, delay: None::<u32>, ..s },
        None => s,
    }
}

/// The target of a PC-relative branch: the signed immediate counts
/// instructions, so it is scaled by 4, and the sum wraps at 2^32.
pub open spec fn branch_target(pc: u32, imm16: u32) -> u32 {
    wrap32(pc + 4 * signed16(imm16))
}

/// The target of a jump: the 26-bit field scaled by 4, within the current
/// 256 MiB region of the PC.
pub open spec fn jump_target(pc: u32, target26: u32) -> u32 {
    (pc & 0xf000_0000) | (target26 << 2)
}

/// The effective address of a load or store: base register plus signed
/// 16-bit displacement, wrapping at 2^32.
pub open spec fn effective_addr(base: u32, imm16: u32) -> u32 {
    wrap32(base + signed16(imm16))
}

/// Whether the instruction is a branch or jump: one that schedules (or may
/// schedule) a pending branch target instead of consuming one.
pub open spec fn is_branch_inst(inst: u32) -> bool {
    ||| (op_field(inst) == 0x00 && (funct_field(inst) == 0x08 || funct_field(inst) == 0x09))
    ||| op_field(inst) == 0x01
    ||| (0x02 <= op_field(inst) <= 0x07)
}

/// The SPECIAL group (major opcode 0x00), selected by `funct`: shifts,
/// jump-register forms, HI/LO moves, multiply and divide, and the
/// three-register ALU operations.
pub open spec fn spec_special(s: CpuView, inst: u32) -> Result<CpuView, ()> {
    let a = s.regs[rs_field(inst)];
    let b = s.regs[rt_field(inst)];
    let rd = rd_field(inst);
    let sh = shamt_field(inst);
    let funct = funct_field(inst);
    if funct == 0x00 {  // sll
        Ok(with_reg(s, rd, b << sh))
    } else if funct == 0x02 {  // srl
        Ok(with_reg(s, rd, b >> sh))
    } else if funct == 0x03 {  // sra
        Ok(with_reg(s, rd, shift_right_arithmetic(b, sh)))
    } else if funct == 0x04 {  // sllv
        Ok(with_reg(s, rd, b << ((a % 32) as u32)))
    } else if funct == 0x06 {  // srlv
        Ok(with_reg(s, rd, b >> ((a % 32) as u32)))
    } else if funct == 0x07 {  // srav
        Ok(with_reg(s, rd, shift_right_arithmetic(b, (a % 32) as u32)))
    } else if funct == 0x08 {  // jr
        Ok(sched_branch(s, a))
    } else if funct == 0x09 {  // jalr: the link write lands before the
        // target register is read, so `jalr $r, $r` jumps to the link value
        let s2 = with_reg(s, rd, wrap32(s.pc + 4));
        Ok(sched_branch(s2, s2.regs[rs_field(inst)]))
    } else if funct == 0x0d {  // break: no exception model; no effect
        Ok(s)
    } else if funct == 0x10 {  // mfhi
        Ok(with_reg(s, rd, s.hi))
    } else if funct == 0x11 {  // mthi
        Ok(CpuView { hi: a, ..s })
    } else if funct == 0x12 {  // mflo
        Ok(with_reg(s, rd, s.lo))
    } else if funct == 0x13 {  // mtlo
        Ok(CpuView { lo: a, ..s })
    } else if funct == 0x18 {  // mult
        let p = product64_signed(a, b);
        Ok(CpuView { hi: hi32(p), lo: lo32(p), ..s })
    } else if funct == 0x19 {  // multu
        let p = product64_unsigned(a, b);
        Ok(CpuView { hi: hi32(p), lo: lo32(p), ..s })
    } else if funct == 0x1a {  // div; a zero divisor leaves HI/LO unchanged
        Ok(
            if b != 0 {
                CpuView { lo: sdiv_quotient(a, b), hi: sdiv_remainder(a, b), ..s }
            } else {
                s
            },
        )
    } else if funct == 0x1b {  // divu
        Ok(
            if b != 0 {
                CpuView { lo: (a as int / b as int) as u32, hi: (a as int % b as int) as u32, ..s }
            } else {
                s
            },
        )
    } else if funct == 0x21 {  // addu
        Ok(with_reg(s, rd, wrap32(a + b)))
    } else if funct == 0x23 {  // subu
        Ok(with_reg(s, rd, wrap32(a - b)))
    } else if funct == 0x24 {  // and
        Ok(with_reg(s, rd, a & b))
    } else if funct == 0x25 {  // or
        Ok(with_reg(s, rd, a | b))
    } else if funct == 0x26 {  // xor
        Ok(with_reg(s, rd, a ^ b))
    } else if funct == 0x27 {  // nor
        Ok(with_reg(s, rd, !(a | b)))
    } else if funct == 0x2a {  // slt
        Ok(with_reg(s, rd, if to_signed32(a) < to_signed32(b) { 1u32 } else { 0u32 }))
    } else if funct == 0x2b {  // sltu
        Ok(with_reg(s, rd, if a < b { 1u32 } else { 0u32 }))
    } else {
        Err(())
    }
}

/// The REGIMM group (major opcode 0x01), selected by the rt bits: branches
/// on the sign of rs, with and-link forms that write the return address only
/// when the branch is taken.
pub open spec fn spec_regimm(s: CpuView, inst: u32) -> Result<CpuView, ()> {
    let a = s.regs[rs_field(inst)];
    let t = branch_target(s.pc, imm16_field(inst));
    let sel = rt_sel_field(inst);
    if sel == 0x00 {  // bltz
        Ok(if to_signed32(a) < 0 { sched_branch(s, t) } else { s })
    } else if sel == 0x01 {  // bgez
        Ok(if to_signed32(a) >= 0 { sched_branch(s, t) } else { s })
    } else if sel == 0x10 {  // bltzal
        Ok(
            if to_signed32(a) < 0 {
                sched_branch(with_reg(s, 31, wrap32(s.pc + 4)), t)
            } else {
                s
            },
        )
    } else if sel == 0x11 {  // bgezal
        Ok(
            if to_signed32(a) >= 0 {
                sched_branch(with_reg(s, 31, wrap32(s.pc + 4)), t)
            } else {
                s
            },
        )
    } else {
        Err(())
    }
}

/// The SPECIAL2 group (major opcode 0x1c), selected by `funct`:
/// multiply-accumulate into the 64-bit HI/LO pair, low-half multiply, and
/// the leading-zero/leading-one counts.
pub open spec fn spec_special2(s: CpuView, inst: u32) -> Result<CpuView, ()> {
    let a = s.regs[rs_field(inst)];
    let b = s.regs[rt_field(inst)];
    let rd = rd_field(inst);
    let rt = rt_field(inst);
    let funct = funct_field(inst);
    if funct == 0x00 {  // madd
        let acc = wrap64(product64_signed(a, b) + combine64(s.hi, s.lo));
        Ok(CpuView { hi: hi32(acc), lo: lo32(acc), ..s })
    } else if funct == 0x01 {  // maddu
        let acc = wrap64(product64_unsigned(a, b) + combine64(s.hi, s.lo));
        Ok(CpuView { hi: hi32(acc), lo: lo32(acc), ..s })
    } else if funct == 0x02 {  // mul
        Ok(with_reg(s, rd, lo32(product64_signed(a, b))))
    } else if funct == 0x20 {  // clz
        Ok(with_reg(s, rt, u32_leading_zeros(a)))
    } else if funct == 0x21 {  // clo
        Ok(with_reg(s, rt, u32_leading_ones(a)))
    } else {
        Err(())
    }
}

/// One instruction's own effect, before the delay-slot bookkeeping:
/// dispatch on the major opcode. `s` is the state with register 0 already
/// reset. `Err` is a decode error or a failed memory access, which leaves
/// `s` unchanged.
pub open spec fn spec_dispatch(s: CpuView, inst: u32) -> Result<CpuView, ()> {
    let op = op_field(inst);
    let a = s.regs[rs_field(inst)];
    let b = s.regs[rt_field(inst)];
    let rt = rt_field(inst);
    let imm = imm16_field(inst);
    if op == 0x00 {
        spec_special(s, inst)
    } else if op == 0x01 {
        spec_regimm(s, inst)
    } else if op == 0x02 {  // j
        Ok(sched_branch(s, jump_target(s.pc, target26_field(inst))))
    } else if op == 0x03 {  // jal
        Ok(
            sched_branch(
                with_reg(s, 31, wrap32(s.pc + 4)),
                jump_target(s.pc, target26_field(inst)),
            ),
        )
    } else if op == 0x04 {  // beq
        Ok(if a == b { sched_branch(s, branch_target(s.pc, imm)) } else { s })
    } else if op == 0x05 {  // bne
        Ok(if a != b { sched_branch(s, branch_target(s.pc, imm)) } else { s })
    } else if op == 0x06 {  // blez
        Ok(if to_signed32(a) <= 0 { sched_branch(s, branch_target(s.pc, imm)) } else { s })
    } else if op == 0x07 {  // bgtz
        Ok(if to_signed32(a) > 0 { sched_branch(s, branch_target(s.pc, imm)) } else { s })
    } else if op == 0x09 {  // addiu
        Ok(with_reg(s, rt, wrap32(a + signed16(imm))))
    } else if op == 0x0a {  // slti
        Ok(with_reg(s, rt, if to_signed32(a) < signed16(imm) { 1u32 } else { 0u32 }))
    } else if op == 0x0b {  // sltiu: the immediate is zero-extended and the
        // comparison is unsigned
        Ok(with_reg(s, rt, if a < imm { 1u32 } else { 0u32 }))
    } else if op == 0x0c {  // andi
        Ok(with_reg(s, rt, a & imm))
    } else if op == 0x0d {  // ori
        Ok(with_reg(s, rt, a | imm))
    } else if op == 0x0e {  // xori
        Ok(with_reg(s, rt, a ^ imm))
    } else if op == 0x0f {  // lui
        Ok(with_reg(s, rt, imm << 16))
    } else if op == 0x1c {
        spec_special2(s, inst)
    } else if op == 0x20 {  // lb: the byte is sign-extended
        match bus_load(s.bus, spec_mmu(effective_addr(a, imm)), 8) {
            Ok(v) => Ok(with_reg(s, rt, sign_extend8(v))),
            Err(()) => Err(()),
        }
    } else if op == 0x23 {  // lw
        match bus_load(s.bus, spec_mmu(effective_addr(a, imm)), 32) {
            Ok(v) => Ok(with_reg(s, rt, v)),
            Err(()) => Err(()),
        }
    } else if op == 0x28 {  // sb
        match bus_store(s.bus, spec_mmu(effective_addr(a, imm)), 8, b) {
            Ok(b2) => Ok(CpuView { bus: b2, ..s }),
            Err(()) => Err(()),
        }
    } else if op == 0x2b {  // sw
        match bus_store(s.bus, spec_mmu(effective_addr(a, imm)), 32, b) {
            Ok(b2) => Ok(CpuView { bus: b2, ..s }),
            Err(()) => Err(()),
        }
    } else {
        Err(())
    }
}

/// One full execute step: register 0 resets to zero, the instruction's own
/// effect applies, and then — for a non-branch instruction — a pending
/// branch target becomes the PC. A branch leaves the pending slot it has
/// just written untouched, so the following instruction runs in the delay
/// slot. `Err` (decode error or failed memory access) leaves the state with
/// only register 0 reset.
pub open spec fn spec_execute(pre: CpuView, inst: u32) -> Result<CpuView, ()> {
    let s = clear_r0(pre);
    match spec_dispatch(s, inst) {
        Ok(s1) => Ok(
            if is_branch_inst(inst) {
                s1
            } else {
                retire_delay(s1)
            },
        ),
        Err(()) => Err(()),
    }
}

/// The executable branch-target computation matches `branch_target`.
proof fn lemma_branch_target_exec(pc: u32, imm: u32)
    requires
        imm < 0x1_0000,
    ensures
        u32_specs::wrapping_add(pc, u32_specs::wrapping_mul(sign_extend16(imm), 4)) == branch_target(
            pc,
            imm,
        ),
{
    lemma_sign_extend16(imm);
    lemma_wrapping_mul_is_wrap32(sign_extend16(imm), 4);
    lemma_mul_mod_noop_right(4, signed16(imm), 0x1_0000_0000);
    lemma_wrapping_add_is_wrap32(pc, u32_specs::wrapping_mul(sign_extend16(imm), 4));
    lemma_add_mod_noop_right(pc as int, 4 * signed16(imm), 0x1_0000_0000);
}

/// The executable effective-address computation matches `effective_addr`.
proof fn lemma_effective_addr_exec(base: u32, imm: u32)
    requires
        imm < 0x1_0000,
    ensures
        u32_specs::wrapping_add(base, sign_extend16(imm)) == effective_addr(base, imm),
{
    lemma_sign_extend16(imm);
    lemma_wrapping_add_is_wrap32(base, sign_extend16(imm));
    lemma_add_mod_noop_right(base as int, signed16(imm), 0x1_0000_0000);
}

/// Signed comparison of two words, computed in the unsigned domain: words
/// with equal sign bits compare as unsigned values; otherwise the one with
/// the sign bit set is smaller.
fn signed_lt(x: u32, y: u32) -> (r: bool)
    ensures
        r == (to_signed32(x) < to_signed32(y)),
{
    if (x >= 0x8000_0000) == (y >= 0x8000_0000) {
        x < y
    } else {
        x >= 0x8000_0000
    }
}

impl Cpu {
    /// A CPU at the reset state: zeroed registers and HI/LO, no pending
    /// branch, PC at the boot exception vector, zeroed DRAM, and `binary`
    /// in the boot ROM (right-padded with zeros to the ROM size).
    pub fn new(binary: Vec<u8>) -> (cpu: Cpu)
        requires
            binary@.len() <= BOOT_ROM_SIZE,
        ensures
            cpu@.regs == Seq::new(32, |i: int| 0u32),
            cpu@.pc == BOOT_EXCEPTION_VECTOR,
            cpu@.hi == 0u32,
            cpu@.lo == 0u32,
            cpu@.delay is None,
            cpu@.bus.dram == Seq::new(MEMORY_SIZE as nat, |i: int| 0u8),
            cpu@.bus.rom == padded_image(binary@, BOOT_ROM_SIZE),
            bus_wf(cpu@.bus),
    {
        let regs: [u32; 32] = [0; 32];
        let cpu = Cpu {
            regs,
            pc: BOOT_EXCEPTION_VECTOR,
            bus: Bus::new(binary),
            pc_branch_delay: None,
            hi: 0u32,
            lo: 0u32,
        };
        proof {
            assert(cpu@.regs =~= Seq::new(32, |i: int| 0u32));
        }
        cpu
    }

    /// Translate a virtual address by segment; see `spec_mmu`.
    pub fn mmu(&mut self, addr: u32) -> (pa: u32)
        ensures
            final(self)@ == old(self)@,
            pa == spec_mmu(addr),
    {
        if addr < KSEG0_BASE {
            0
        } else if addr < KSEG1_BASE {
            addr - KSEG0_BASE
        } else if addr < KSEG2_BASE {
            addr - KSEG1_BASE
        } else {
            0
        }
    }

    /// Load through translation and the bus.
    pub fn load(&mut self, addr: u32, size: u32) -> (r: Result<u32, ()>)
        requires
            bus_wf(old(self)@.bus),
        ensures
            final(self)@ == old(self)@,
            r == bus_load(old(self)@.bus, spec_mmu(addr), size),
    {
        let physical_addr = self.mmu(addr);
        self.bus.load(physical_addr, size)
    }

    /// Store through translation and the bus.
    pub fn store(&mut self, addr: u32, size: u32, value: u32) -> (r: Result<(), ()>)
        requires
            bus_wf(old(self)@.bus),
        ensures
            bus_wf(final(self)@.bus),
            match bus_store(old(self)@.bus, spec_mmu(addr), size, value) {
                Ok(b2) => r == Ok::<(), ()>(()) && final(self)@ == CpuView {
                    bus: b2,
                    ..old(self)@
                },
                Err(()) => r == Err::<(), ()>(()) && final(self)@ == old(self)@,
            },
    {
        let physical_addr = self.mmu(addr);
        self.bus.store(physical_addr, size, value)
    }

    /// Fetch the 32-bit instruction at the program counter.
    pub fn fetch(&mut self) -> (r: Result<u32, ()>)
        requires
            bus_wf(old(self)@.bus),
        ensures
            final(self)@ == old(self)@,
            r == bus_load(old(self)@.bus, spec_mmu(old(self)@.pc), 32),
    {
        match self.load(self.pc, 32) {
            Ok(inst) => Ok(inst),
            Err(_e) => Err(()),
        }
    }

    /// The register dump: eight lines of four registers each, r0..r31,
    /// with ABI names and values as right-aligned `0x...` hex fields.
    /// See `crate::dump::spec_dump` for the exact text.
    #[verifier::rlimit(60)]
    pub fn dump_registers(&self) -> (out: String)
        ensures
            out@ == crate::dump::spec_dump(self@.regs),
    {
        let mut out = String::new();
        let mut line: usize = 0;
        while line < 8
            invariant
                line <= 8,
                out@ == crate::dump::dump_prefix(self@.regs, line as int),
            decreases 8 - line,
        {
            proof {
                reveal_strlit("\n");
                reveal_strlit(" ");
            }
            let base: usize = line * 4;
            out.append("\n");
            let e0 = crate::dump::reg_entry_string(base, self.regs[base]);
            out.append(e0.as_str());
            out.append(" ");
            let e1 = crate::dump::reg_entry_string(base + 1, self.regs[base + 1]);
            out.append(e1.as_str());
            out.append(" ");
            let e2 = crate::dump::reg_entry_string(base + 2, self.regs[base + 2]);
            out.append(e2.as_str());
            out.append(" ");
            let e3 = crate::dump::reg_entry_string(base + 3, self.regs[base + 3]);
            out.append(e3.as_str());
            line += 1;
            proof {
                assert(out@ =~= crate::dump::dump_prefix(self@.regs, line as int));
            }
        }
        out
    }

    /// Write `v` to register `idx`; a write to register 0 is discarded.
    fn set_reg(&mut self, idx: usize, v: u32)
        requires
            idx < 32,
        ensures
            final(self)@ == with_reg(old(self)@, idx as int, v),
    {
        if idx != 0 {
            self.regs[idx] = v;
        }
    }

    /// The SPECIAL group; see `spec_special`.
    fn execute_special(&mut self, inst: u32) -> (r: Result<(), ()>)
        ensures
            match spec_special(old(self)@, inst) {
                Ok(post) => r == Ok::<(), ()>(()) && final(self)@ == post,
                Err(()) => r == Err::<(), ()>(()) && final(self)@ == old(self)@,
            },
    {
        proof {
            lemma_decode_bounds(inst);
        }
        let rs = ((inst >> 21) & 0x1f) as usize;
        let rt = ((inst >> 16) & 0x1f) as usize;
        let rd = ((inst >> 11) & 0x1f) as usize;
        let funct: u32 = inst & 0x3f;
        let shamt: u32 = (inst >> 6) & 0x1f;
        match funct {
            0x00 => {
                // sll
                self.set_reg(rd, self.regs[rt] << shamt);
                Ok(())
            },
            0x02 => {
                // srl
                self.set_reg(rd, self.regs[rt] >> shamt);
                Ok(())
            },
            0x03 => {
                // sra
                self.set_reg(rd, sra32(self.regs[rt], shamt));
                Ok(())
            },
            0x04 => {
                // sllv
                self.set_reg(rd, self.regs[rt] << (self.regs[rs] % 32));
                Ok(())
            },
            0x06 => {
                // srlv
                self.set_reg(rd, self.regs[rt] >> (self.regs[rs] % 32));
                Ok(())
            },
            0x07 => {
                // srav
                self.set_reg(rd, sra32(self.regs[rt], self.regs[rs] % 32));
                Ok(())
            },
            0x08 => {
                // jr
                self.pc_branch_delay = Some(self.regs[rs]);
                Ok(())
            },
            0x09 => {
                // jalr
                proof {
                    lemma_wrapping_add_is_wrap32(self.pc, 4);
                }
                self.set_reg(rd, self.pc.wrapping_add(4));
                self.pc_branch_delay = Some(self.regs[rs]);
                Ok(())
            },
            0x0d => {
                // break: no exception model; no effect
                Ok(())
            },
            0x10 => {
                // mfhi
                self.set_reg(rd, self.hi);
                Ok(())
            },
            0x11 => {
                // mthi
                self.hi = self.regs[rs];
                Ok(())
            },
            0x12 => {
                // mflo
                self.set_reg(rd, self.lo);
                Ok(())
            },
            0x13 => {
                // mtlo
                self.lo = self.regs[rs];
                Ok(())
            },
            0x18 => {
                // mult
                let p = signed_product(self.regs[rs], self.regs[rt]);
                proof {
                    lemma_hi_lo_split(p);
                }
                self.hi = (p / 0x1_0000_0000) as u32;
                self.lo = (p % 0x1_0000_0000) as u32;
                Ok(())
            },
            0x19 => {
                // multu
                let p = unsigned_product(self.regs[rs], self.regs[rt]);
                proof {
                    lemma_hi_lo_split(p);
                }
                self.hi = (p / 0x1_0000_0000) as u32;
                self.lo = (p % 0x1_0000_0000) as u32;
                Ok(())
            },
            0x1a => {
                // div: a zero divisor leaves HI/LO unchanged
                if self.regs[rt] != 0 {
                    let (q, rem) = signed_divide(self.regs[rs], self.regs[rt]);
                    self.lo = q;
                    self.hi = rem;
                }
                Ok(())
            },
            0x1b => {
                // divu
                if self.regs[rt] != 0 {
                    self.lo = self.regs[rs] / self.regs[rt];
                    self.hi = self.regs[rs] % self.regs[rt];
                }
                Ok(())
            },
            0x21 => {
                // addu
                proof {
                    lemma_wrapping_add_is_wrap32(self.regs[rs as int], self.regs[rt as int]);
                }
                self.set_reg(rd, self.regs[rs].wrapping_add(self.regs[rt]));
                Ok(())
            },
            0x23 => {
                // subu
                proof {
                    lemma_wrapping_sub_is_wrap32(self.regs[rs as int], self.regs[rt as int]);
                }
                self.set_reg(rd, self.regs[rs].wrapping_sub(self.regs[rt]));
                Ok(())
            },
            0x24 => {
                // and
                self.set_reg(rd, self.regs[rs] & self.regs[rt]);
                Ok(())
            },
            0x25 => {
                // or
                self.set_reg(rd, self.regs[rs] | self.regs[rt]);
                Ok(())
            },
            0x26 => {
                // xor
                self.set_reg(rd, self.regs[rs] ^ self.regs[rt]);
                Ok(())
            },
            0x27 => {
                // nor
                self.set_reg(rd, !(self.regs[rs] | self.regs[rt]));
                Ok(())
            },
            0x2a => {
                // slt
                let v: u32 = if signed_lt(self.regs[rs], self.regs[rt]) {
                    1
                } else {
                    0
                };
                self.set_reg(rd, v);
                Ok(())
            },
            0x2b => {
                // sltu
                let v: u32 = if self.regs[rs] < self.regs[rt] {
                    1
                } else {
                    0
                };
                self.set_reg(rd, v);
                Ok(())
            },
            _ => Err(()),
        }
    }

    /// The REGIMM group; see `spec_regimm`.
    fn execute_regimm(&mut self, inst: u32) -> (r: Result<(), ()>)
        ensures
            match spec_regimm(old(self)@, inst) {
                Ok(post) => r == Ok::<(), ()>(()) && final(self)@ == post,
                Err(()) => r == Err::<(), ()>(()) && final(self)@ == old(self)@,
            },
    {
        proof {
            lemma_decode_bounds(inst);
        }
        let rs = ((inst >> 21) & 0x1f) as usize;
        let sel: u32 = (inst >> 16) & 0x1f;
        let imm: u32 = inst & 0xffff;
        let offset: u32 = sext16(imm).wrapping_mul(4);
        proof {
            lemma_branch_target_exec(self.pc, imm);
        }
        match sel {
            0x00 => {
                // bltz
                if self.regs[rs] >= 0x8000_0000 {
                    self.pc_branch_delay = Some(self.pc.wrapping_add(offset));
                }
                Ok(())
            },
            0x01 => {
                // bgez
                if self.regs[rs] < 0x8000_0000 {
                    self.pc_branch_delay = Some(self.pc.wrapping_add(offset));
                }
                Ok(())
            },
            0x10 => {
                // bltzal: the return address is written only when taken
                if self.regs[rs] >= 0x8000_0000 {
                    proof {
                        lemma_wrapping_add_is_wrap32(self.pc, 4);
                    }
                    self.set_reg(31, self.pc.wrapping_add(4));
                    self.pc_branch_delay = Some(self.pc.wrapping_add(offset));
                }
                Ok(())
            },
            0x11 => {
                // bgezal
                if self.regs[rs] < 0x8000_0000 {
                    proof {
                        lemma_wrapping_add_is_wrap32(self.pc, 4);
                    }
                    self.set_reg(31, self.pc.wrapping_add(4));
                    self.pc_branch_delay = Some(self.pc.wrapping_add(offset));
                }
                Ok(())
            },
            _ => Err(()),
        }
    }

    /// The SPECIAL2 group; see `spec_special2`.
    fn execute_special2(&mut self, inst: u32) -> (r: Result<(), ()>)
        ensures
            match spec_special2(old(self)@, inst) {
                Ok(post) => r == Ok::<(), ()>(()) && final(self)@ == post,
                Err(()) => r == Err::<(), ()>(()) && final(self)@ == old(self)@,
            },
    {
        proof {
            lemma_decode_bounds(inst);
        }
        let rs = ((inst >> 21) & 0x1f) as usize;
        let rt = ((inst >> 16) & 0x1f) as usize;
        let rd = ((inst >> 11) & 0x1f) as usize;
        let funct: u32 = inst & 0x3f;
        match funct {
            0x00 => {
                // madd
                let p = signed_product(self.regs[rs], self.regs[rt]);
                let cur: u64 = (self.hi as u64) * 0x1_0000_0000 + (self.lo as u64);
                proof {
                    lemma_wrapping_add64_is_wrap64(p, cur);
                }
                let acc = p.wrapping_add(cur);
                proof {
                    lemma_hi_lo_split(acc);
                }
                self.hi = (acc / 0x1_0000_0000) as u32;
                self.lo = (acc % 0x1_0000_0000) as u32;
                Ok(())
            },
            0x01 => {
                // maddu
                let p = unsigned_product(self.regs[rs], self.regs[rt]);
                let cur: u64 = (self.hi as u64) * 0x1_0000_0000 + (self.lo as u64);
                proof {
                    lemma_wrapping_add64_is_wrap64(p, cur);
                }
                let acc = p.wrapping_add(cur);
                proof {
                    lemma_hi_lo_split(acc);
                }
                self.hi = (acc / 0x1_0000_0000) as u32;
                self.lo = (acc % 0x1_0000_0000) as u32;
                Ok(())
            },
            0x02 => {
                // mul
                let p = signed_product(self.regs[rs], self.regs[rt]);
                proof {
                    lemma_hi_lo_split(p);
                }
                self.set_reg(rd, (p % 0x1_0000_0000) as u32);
                Ok(())
            },
            0x20 => {
                // clz
                self.set_reg(rt, self.regs[rs].leading_zeros());
                Ok(())
            },
            0x21 => {
                // clo
                self.set_reg(rt, self.regs[rs].leading_ones());
                Ok(())
            },
            _ => Err(()),
        }
    }

    /// Execute one decoded instruction; see `spec_execute`. The driver has
    /// already advanced the PC past this instruction.
    pub fn execute(&mut self, inst: u32) -> (r: Result<(), ()>)
        requires
            bus_wf(old(self)@.bus),
        ensures
            bus_wf(final(self)@.bus),
            match spec_execute(old(self)@, inst) {
                Ok(post) => r == Ok::<(), ()>(()) && final(self)@ == post,
                Err(()) => r == Err::<(), ()>(()) && final(self)@ == clear_r0(old(self)@),
            },
    {
        proof {
            lemma_decode_bounds(inst);
        }
        let opcode: u32 = inst >> 26;
        let rs = ((inst >> 21) & 0x1f) as usize;
        let rt = ((inst >> 16) & 0x1f) as usize;
        let mut is_branch = false;

        self.regs[0] = 0;
        let ghost s0 = self@;
        proof {
            assert(s0 == clear_r0(old(self)@));
        }

        let outcome: Result<(), ()> = if opcode == 0x00 {
            let funct: u32 = inst & 0x3f;
            if funct == 0x08 || funct == 0x09 {
                is_branch = true;
            }
            self.execute_special(inst)
        } else if opcode == 0x01 {
            is_branch = true;
            self.execute_regimm(inst)
        } else if opcode == 0x02 {
            // j
            is_branch = true;
            let target: u32 = inst & 0x03ff_ffff;
            self.pc_branch_delay = Some((self.pc & 0xf000_0000) | (target << 2));
            Ok(())
        } else if opcode == 0x03 {
            // jal
            is_branch = true;
            proof {
                lemma_wrapping_add_is_wrap32(self.pc, 4);
            }
            self.set_reg(31, self.pc.wrapping_add(4));
            let target: u32 = inst & 0x03ff_ffff;
            self.pc_branch_delay = Some((self.pc & 0xf000_0000) | (target << 2));
            Ok(())
        } else if opcode == 0x04 {
            // beq
            is_branch = true;
            let imm: u32 = inst & 0xffff;
            proof {
                lemma_branch_target_exec(self.pc, imm);
            }
            if self.regs[rs] == self.regs[rt] {
                self.pc_branch_delay = Some(self.pc.wrapping_add(sext16(imm).wrapping_mul(4)));
            }
            Ok(())
        } else if opcode == 0x05 {
            // bne
            is_branch = true;
            let imm: u32 = inst & 0xffff;
            proof {
                lemma_branch_target_exec(self.pc, imm);
            }
            if self.regs[rs] != self.regs[rt] {
                self.pc_branch_delay = Some(self.pc.wrapping_add(sext16(imm).wrapping_mul(4)));
            }
            Ok(())
        } else if opcode == 0x06 {
            // blez
            is_branch = true;
            let imm: u32 = inst & 0xffff;
            proof {
                lemma_branch_target_exec(self.pc, imm);
            }
            if self.regs[rs] == 0 || self.regs[rs] >= 0x8000_0000 {
                self.pc_branch_delay = Some(self.pc.wrapping_add(sext16(imm).wrapping_mul(4)));
            }
            Ok(())
        } else if opcode == 0x07 {
            // bgtz
            is_branch = true;
            let imm: u32 = inst & 0xffff;
            proof {
                lemma_branch_target_exec(self.pc, imm);
            }
            if self.regs[rs] != 0 && self.regs[rs] < 0x8000_0000 {
                self.pc_branch_delay = Some(self.pc.wrapping_add(sext16(imm).wrapping_mul(4)));
            }
            Ok(())
        } else if opcode == 0x09 {
            // addiu
            let imm: u32 = inst & 0xffff;
            proof {
                lemma_effective_addr_exec(self.regs[rs as int], imm);
            }
            self.set_reg(rt, self.regs[rs].wrapping_add(sext16(imm)));
            Ok(())
        } else if opcode == 0x0a {
            // slti
            let imm: u32 = inst & 0xffff;
            proof {
                lemma_sign_extend16(imm);
            }
            let v: u32 = if signed_lt(self.regs[rs], sext16(imm)) {
                1
            } else {
                0
            };
            self.set_reg(rt, v);
            Ok(())
        } else if opcode == 0x0b {
            // sltiu
            let imm: u32 = inst & 0xffff;
            let v: u32 = if self.regs[rs] < imm {
                1
            } else {
                0
            };
            self.set_reg(rt, v);
            Ok(())
        } else if opcode == 0x0c {
            // andi
            let imm: u32 = inst & 0xffff;
            self.set_reg(rt, self.regs[rs] & imm);
            Ok(())
        } else if opcode == 0x0d {
            // ori
            let imm: u32 = inst & 0xffff;
            self.set_reg(rt, self.regs[rs] | imm);
            Ok(())
        } else if opcode == 0x0e {
            // xori
            let imm: u32 = inst & 0xffff;
            self.set_reg(rt, self.regs[rs] ^ imm);
            Ok(())
        } else if opcode == 0x0f {
            // lui
            let imm: u32 = inst & 0xffff;
            self.set_reg(rt, imm << 16);
            Ok(())
        } else if opcode == 0x1c {
            self.execute_special2(inst)
        } else if opcode == 0x20 {
            // lb: the loaded byte is sign-extended
            let imm: u32 = inst & 0xffff;
            proof {
                lemma_effective_addr_exec(self.regs[rs as int], imm);
            }
            let addr: u32 = self.regs[rs].wrapping_add(sext16(imm));
            match self.load(addr, 8) {
                Ok(v) => {
                    self.set_reg(rt, sext8(v));
                    Ok(())
                },
                Err(()) => Err(()),
            }
        } else if opcode == 0x23 {
            // lw
            let imm: u32 = inst & 0xffff;
            proof {
                lemma_effective_addr_exec(self.regs[rs as int], imm);
            }
            let addr: u32 = self.regs[rs].wrapping_add(sext16(imm));
            match self.load(addr, 32) {
                Ok(v) => {
                    self.set_reg(rt, v);
                    Ok(())
                },
                Err(()) => Err(()),
            }
        } else if opcode == 0x28 {
            // sb
            let imm: u32 = inst & 0xffff;
            proof {
                lemma_effective_addr_exec(self.regs[rs as int], imm);
            }
            let addr: u32 = self.regs[rs].wrapping_add(sext16(imm));
            self.store(addr, 8, self.regs[rt])
        } else if opcode == 0x2b {
            // sw
            let imm: u32 = inst & 0xffff;
            proof {
                lemma_effective_addr_exec(self.regs[rs as int], imm);
            }
            let addr: u32 = self.regs[rs].wrapping_add(sext16(imm));
            self.store(addr, 32, self.regs[rt])
        } else {
            Err(())
        };

        match outcome {
            Ok(()) => {
                proof {
                    assert(spec_dispatch(s0, inst) == Ok::<CpuView, ()>(self@));
                    assert(is_branch == is_branch_inst(inst));
                }
                if !is_branch {
                    match self.pc_branch_delay {
                        Some(pc) => {
                            // the current instruction sat in the delay slot
                            self.pc = pc;
                            self.pc_branch_delay = None;
                        },
                        None => {},
                    }
                }
                Ok(())
            },
            Err(()) => {
                proof {
                    assert(spec_dispatch(s0, inst) is Err);
                    assert(self@ == s0);
                }
                Err(())
            },
        }
    }
}

} // verus!
