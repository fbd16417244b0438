//! Architectural laws of the simulator, proved once and for all inputs:
//! the wired-zero register, wrapping arithmetic, signed and unsigned
//! comparison, branch-delay-slot behavior, memory round trips, little-endian
//! byte order, the read-only ROM, and the leading-zero counts.

use vstd::prelude::*;

verus! {

use vstd::arithmetic::div_mod::{
    lemma_fundamental_div_mod_converse,
    lemma_div_is_ordered,
    lemma_div_multiples_vanish,
    lemma_small_mod,
};
use vstd::arithmetic::logarithm::{lemma_log0, lemma_log_s, log};
use vstd::arithmetic::power2::{lemma2_to64, lemma_pow2_unfold, pow2};
use vstd::bits::lemma_u32_shr_is_div;
use vstd::std_specs::bits::{
    axiom_u32_leading_zeros,
    u32_leading_ones,
    u32_leading_zeros,
};
use crate::bus::{bus_load, bus_store, bus_wf, in_rom_range, BusView, PHY_BOOT_ROM_BASE};
use crate::cpu::{
    clear_r0,
    funct_field,
    imm16_field,
    is_branch_inst,
    op_field,
    rd_field,
    rs_field,
    rt_field,
    spec_execute,
    CpuView,
};
use crate::memory::{access_bytes, valid_size, BOOT_ROM_SIZE, MEMORY_SIZE};
use crate::words::{signed16, to_signed32, wrap32};

/// The register file of a machine state: 32 registers, with register 0
/// reading as zero. Construction establishes it and every step preserves it.
pub open spec fn regs_wf(s: CpuView) -> bool {
    &&& s.regs.len() == 32
    &&& s.regs[0] == 0
}

/// Resetting register 0 changes nothing in a state whose register 0 is
/// already zero.
pub proof fn lemma_clear_r0_id(s: CpuView)
    requires
        regs_wf(s),
    ensures
        clear_r0(s) == s,
{
    assert(s.regs.update(0, 0u32) =~= s.regs);
}

/// After every instruction — whether it succeeds or fails, and whether or
/// not register 0 was its destination — register 0 reads as zero, and the
/// register file keeps its 32 entries.
pub proof fn lemma_register_zero_wired(pre: CpuView, inst: u32)
    requires
        pre.regs.len() == 32,
    ensures
        match spec_execute(pre, inst) {
            Ok(post) => regs_wf(post),
            Err(()) => regs_wf(clear_r0(pre)),
        },
{
    crate::cpu::lemma_decode_bounds(inst);
}

/// Unsigned addition wraps: `addu` writes `(rs + rt) mod 2^32` and never
/// faults on overflow.
pub proof fn lemma_addu_wraps(pre: CpuView, inst: u32)
    requires
        regs_wf(pre),
        op_field(inst) == 0x00,
        funct_field(inst) == 0x21,
    ensures
        spec_execute(pre, inst) is Ok,
        rd_field(inst) != 0 ==> spec_execute(pre, inst).unwrap().regs[rd_field(inst)] == wrap32(
            pre.regs[rs_field(inst)] + pre.regs[rt_field(inst)],
        ),
{
    crate::cpu::lemma_decode_bounds(inst);
    lemma_clear_r0_id(pre);
}

/// Unsigned subtraction wraps: `subu` writes `(rs - rt) mod 2^32` and never
/// faults on overflow.
pub proof fn lemma_subu_wraps(pre: CpuView, inst: u32)
    requires
        regs_wf(pre),
        op_field(inst) == 0x00,
        funct_field(inst) == 0x23,
    ensures
        spec_execute(pre, inst) is Ok,
        rd_field(inst) != 0 ==> spec_execute(pre, inst).unwrap().regs[rd_field(inst)] == wrap32(
            pre.regs[rs_field(inst)] - pre.regs[rt_field(inst)],
        ),
{
    crate::cpu::lemma_decode_bounds(inst);
    lemma_clear_r0_id(pre);
}

/// Add-immediate wraps: `addiu` writes `(rs + sign_extend(imm)) mod 2^32`
/// and never faults on overflow.
pub proof fn lemma_addiu_wraps(pre: CpuView, inst: u32)
    requires
        regs_wf(pre),
        op_field(inst) == 0x09,
    ensures
        spec_execute(pre, inst) is Ok,
        rt_field(inst) != 0 ==> spec_execute(pre, inst).unwrap().regs[rt_field(inst)] == wrap32(
            pre.regs[rs_field(inst)] + signed16(imm16_field(inst)),
        ),
{
    crate::cpu::lemma_decode_bounds(inst);
    lemma_clear_r0_id(pre);
}

/// `slt` compares the operands as two's-complement signed values.
pub proof fn lemma_slt_compares_signed(pre: CpuView, inst: u32)
    requires
        regs_wf(pre),
        op_field(inst) == 0x00,
        funct_field(inst) == 0x2a,
    ensures
        spec_execute(pre, inst) is Ok,
        rd_field(inst) != 0 ==> spec_execute(pre, inst).unwrap().regs[rd_field(inst)] == (
        if to_signed32(pre.regs[rs_field(inst)]) < to_signed32(pre.regs[rt_field(inst)]) {
            1u32
        } else {
            0u32
        }),
{
    crate::cpu::lemma_decode_bounds(inst);
    lemma_clear_r0_id(pre);
}

/// `sltu` compares the operands as unsigned values.
pub proof fn lemma_sltu_compares_unsigned(pre: CpuView, inst: u32)
    requires
        regs_wf(pre),
        op_field(inst) == 0x00,
        funct_field(inst) == 0x2b,
    ensures
        spec_execute(pre, inst) is Ok,
        rd_field(inst) != 0 ==> spec_execute(pre, inst).unwrap().regs[rd_field(inst)] == (
        if pre.regs[rs_field(inst)] < pre.regs[rt_field(inst)] {
            1u32
        } else {
            0u32
        }),
{
    crate::cpu::lemma_decode_bounds(inst);
    lemma_clear_r0_id(pre);
}

/// `slti` compares rs (signed) against the sign-extended immediate.
pub proof fn lemma_slti_compares_signed(pre: CpuView, inst: u32)
    requires
        regs_wf(pre),
        op_field(inst) == 0x0a,
    ensures
        spec_execute(pre, inst) is Ok,
        rt_field(inst) != 0 ==> spec_execute(pre, inst).unwrap().regs[rt_field(inst)] == (
        if to_signed32(pre.regs[rs_field(inst)]) < signed16(imm16_field(inst)) {
            1u32
        } else {
            0u32
        }),
{
    crate::cpu::lemma_decode_bounds(inst);
    lemma_clear_r0_id(pre);
}

/// `sltiu` compares rs against the zero-extended immediate, unsigned.
pub proof fn lemma_sltiu_compares_unsigned(pre: CpuView, inst: u32)
    requires
        regs_wf(pre),
        op_field(inst) == 0x0b,
    ensures
        spec_execute(pre, inst) is Ok,
        rt_field(inst) != 0 ==> spec_execute(pre, inst).unwrap().regs[rt_field(inst)] == (
        if pre.regs[rs_field(inst)] < imm16_field(inst) {
            1u32
        } else {
            0u32
        }),
{
    crate::cpu::lemma_decode_bounds(inst);
    lemma_clear_r0_id(pre);
}

/// The driver's sequential increment of the PC between fetch and execute.
pub open spec fn advanced_pc(s: CpuView) -> CpuView {
    CpuView { pc: wrap32(s.pc + 4), ..s }
}

/// The branch-delay-slot law. Take any branch instruction B that executes
/// (from a state with no branch pending) and any non-branch instruction I
/// that then executes in its delay slot. Then: B leaves the PC at its
/// sequentially incremented value, so I executes at the address right after
/// B; when B took its branch, the PC after I is B's target and no branch
/// stays pending; when it did not, execution continues sequentially.
pub proof fn lemma_branch_delay_slot(pre: CpuView, b_inst: u32, i_inst: u32)
    requires
        pre.regs.len() == 32,
        pre.delay is None,
        is_branch_inst(b_inst),
        !is_branch_inst(i_inst),
        spec_execute(advanced_pc(pre), b_inst) is Ok,
        spec_execute(
            advanced_pc(spec_execute(advanced_pc(pre), b_inst).unwrap()),
            i_inst,
        ) is Ok,
    ensures
        ({
            let after_b = spec_execute(advanced_pc(pre), b_inst).unwrap();
            let after_i = spec_execute(advanced_pc(after_b), i_inst).unwrap();
            &&& after_b.pc == wrap32(pre.pc + 4)
            &&& after_b.delay is Some ==> {
                &&& after_i.pc == after_b.delay.unwrap()
                &&& after_i.delay is None
            }
            &&& after_b.delay is None ==> after_i.pc == wrap32(after_b.pc + 4)
        }),
{
    crate::cpu::lemma_decode_bounds(b_inst);
    crate::cpu::lemma_decode_bounds(i_inst);
}

/// Memory round trip for 32-bit accesses: storing any value at any in-range
/// DRAM address and loading it back returns the value unchanged.
pub proof fn lemma_memory_roundtrip32(b: BusView, addr: u32, v: u32)
    requires
        bus_wf(b),
        addr + 4 <= MEMORY_SIZE,
    ensures
        bus_store(b, addr, 32, v) is Ok,
        bus_load(bus_store(b, addr, 32, v).unwrap(), addr, 32) == Ok::<u32, ()>(v),
{
    assert(v % 0x100 + ((v / 0x100) % 0x100) * 0x100 + ((v / 0x1_0000) % 0x100) * 0x1_0000 + ((v
        / 0x100_0000) % 0x100) * 0x100_0000 == v) by (bit_vector);
}

/// Memory round trip for 16-bit accesses: loading back returns the stored
/// value's low 16 bits.
pub proof fn lemma_memory_roundtrip16(b: BusView, addr: u32, v: u32)
    requires
        bus_wf(b),
        addr + 2 <= MEMORY_SIZE,
    ensures
        bus_store(b, addr, 16, v) is Ok,
        bus_load(bus_store(b, addr, 16, v).unwrap(), addr, 16) == Ok::<u32, ()>(
            (v % 0x1_0000) as u32,
        ),
{
    assert(v % 0x100 + ((v / 0x100) % 0x100) * 0x100 == v % 0x1_0000) by (bit_vector);
}

/// Memory round trip for 8-bit accesses: loading back returns the stored
/// value's low 8 bits.
pub proof fn lemma_memory_roundtrip8(b: BusView, addr: u32, v: u32)
    requires
        bus_wf(b),
        addr + 1 <= MEMORY_SIZE,
    ensures
        bus_store(b, addr, 8, v) is Ok,
        bus_load(bus_store(b, addr, 8, v).unwrap(), addr, 8) == Ok::<u32, ()>((v % 0x100) as u32),
{
}

/// Little-endian byte order: after a 32-bit store, byte loads at the four
/// addresses return the value's bytes from least to most significant.
pub proof fn lemma_little_endian_byte_order(b: BusView, addr: u32, v: u32)
    requires
        bus_wf(b),
        addr + 4 <= MEMORY_SIZE,
    ensures
        bus_store(b, addr, 32, v) is Ok,
        ({
            let b2 = bus_store(b, addr, 32, v).unwrap();
            &&& bus_load(b2, addr, 8) == Ok::<u32, ()>((v % 0x100) as u32)
            &&& bus_load(b2, (addr + 1) as u32, 8) == Ok::<u32, ()>(((v / 0x100) % 0x100) as u32)
            &&& bus_load(b2, (addr + 2) as u32, 8) == Ok::<u32, ()>(
                ((v / 0x1_0000) % 0x100) as u32,
            )
            &&& bus_load(b2, (addr + 3) as u32, 8) == Ok::<u32, ()>((v / 0x100_0000) as u32)
        }),
{
    lemma_small_mod((v / 0x100_0000) as nat, 0x100);
}

/// A store into the boot ROM window is accepted and observably a no-op: the
/// whole machine state, ROM bytes included, is unchanged, so any later load
/// returns what it would have returned before.
pub proof fn lemma_rom_store_is_noop(b: BusView, addr: u32, size: u32, v: u32)
    requires
        in_rom_range(addr),
        valid_size(size),
        addr + access_bytes(size) <= PHY_BOOT_ROM_BASE + BOOT_ROM_SIZE,
    ensures
        bus_store(b, addr, size, v) == Ok::<BusView, ()>(b),
{
}

/// An integer in `[2^k, 2^(k+1))` has base-2 logarithm `k`.
proof fn lemma_log2_from_bounds(x: int, k: nat)
    requires
        pow2(k) <= x < pow2((k + 1) as nat),
    ensures
        log(2, x) == k,
    decreases k,
{
    lemma2_to64();
    lemma_pow2_unfold((k + 1) as nat);
    if k == 0 {
        lemma_log0(2, x);
    } else {
        lemma_pow2_unfold(k);
        lemma_log_s(2, x);
        lemma_div_is_ordered(2 * pow2((k - 1) as nat) as int, x, 2);
        lemma_div_multiples_vanish(pow2((k - 1) as nat) as int, 2);
        lemma_div_is_ordered(x, 2 * pow2(k) as int - 1, 2);
        lemma_fundamental_div_mod_converse(2 * pow2(k) - 1, 2, pow2(k) as int - 1, 1);
        lemma_log2_from_bounds(x / 2, (k - 1) as nat);
    }
}

/// The leading-zero and leading-one counts the `clz`/`clo` instructions
/// write: `clz(0)` is 32; for nonzero input the count is 31 minus the
/// floor base-2 logarithm; and `clo` of an all-ones word is 32.
pub proof fn lemma_count_leading_bits(x: u32)
    ensures
        u32_leading_zeros(0u32) == 32,
        x > 0 ==> u32_leading_zeros(x) + log(2, x as int) == 31,
        u32_leading_ones(0xffff_ffffu32) == 32,
{
    axiom_u32_leading_zeros(0u32);
    assert(!0xffff_ffffu32 == 0u32) by (bit_vector);
    if x > 0 {
        axiom_u32_leading_zeros(x);
        lemma2_to64();
        let c = u32_leading_zeros(x);
        assert(c < 32);
        let low: u32 = (31 - c) as u32;
        let d = x >> low;
        assert((x >> low) & 1u32 != 0u32);
        assert(d & 1u32 != 0u32 ==> d % 2 == 1) by (bit_vector);
        lemma_u32_shr_is_div(x, low);
        assert(d == x as nat / pow2(low as nat));
        assert(d >= 1);
        assert(x >= pow2(low as nat)) by {
            if x < pow2(low as nat) {
                lemma_div_is_ordered(x as int, pow2(low as nat) as int - 1, pow2(low as nat) as int);
                lemma_fundamental_div_mod_converse(
                    pow2(low as nat) as int - 1,
                    pow2(low as nat) as int,
                    0,
                    pow2(low as nat) as int - 1,
                );
            }
        }
        if c > 0 {
            let high: u32 = (32 - c) as u32;
            assert(x >> high == 0);
            lemma_u32_shr_is_div(x, high);
            assert(x as nat / pow2(high as nat) == 0);
            assert(x < pow2(high as nat)) by {
                if x >= pow2(high as nat) {
                    lemma_div_is_ordered(pow2(high as nat) as int, x as int, pow2(high as nat) as int);
                    lemma_div_multiples_vanish(1, pow2(high as nat) as int);
                }
            }
            lemma_log2_from_bounds(x as int, low as nat);
        } else {
            assert(pow2(31) == 0x8000_0000 && pow2(32) == 0x1_0000_0000);
            lemma_log2_from_bounds(x as int, 31);
        }
    }
}

} // verus!
