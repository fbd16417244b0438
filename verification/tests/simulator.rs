//! End-to-end tests: small programs assembled by hand, loaded into the boot
//! ROM, and run through the fetch/execute driver loop.

use mips_sim::cpu::Cpu;

/// Encode an R-type (SPECIAL) instruction.
fn r_type(funct: u32, rs: u32, rt: u32, rd: u32, shamt: u32) -> u32 {
    (rs << 21) | (rt << 16) | (rd << 11) | (shamt << 6) | funct
}

/// Encode an I-type instruction.
fn i_type(op: u32, rs: u32, rt: u32, imm: u32) -> u32 {
    (op << 26) | (rs << 21) | (rt << 16) | (imm & 0xffff)
}

/// Encode a J-type instruction.
fn j_type(op: u32, target: u32) -> u32 {
    (op << 26) | (target & 0x03ff_ffff)
}

/// Encode a SPECIAL2 instruction.
fn special2(funct: u32, rs: u32, rt: u32, rd: u32) -> u32 {
    (0x1c << 26) | (rs << 21) | (rt << 16) | (rd << 11) | funct
}

/// A word that decodes to no instruction, to stop the driver loop.
const HALT: u32 = 0xffff_ffff;

fn words_to_bytes(words: &[u32]) -> Vec<u8> {
    let mut bytes = Vec::new();
    for w in words {
        bytes.push((w & 0xff) as u8);
        bytes.push(((w >> 8) & 0xff) as u8);
        bytes.push(((w >> 16) & 0xff) as u8);
        bytes.push(((w >> 24) & 0xff) as u8);
    }
    bytes
}

/// Run the boot image as the outer driver does: fetch, advance the PC by 4,
/// execute; stop on an error or when the PC reaches 0, or after `max_steps`.
fn run_words(words: &[u32], max_steps: usize) -> Cpu {
    let mut cpu = Cpu::new(words_to_bytes(words));
    for _ in 0..max_steps {
        let inst = match cpu.fetch() {
            Ok(inst) => inst,
            Err(_) => break,
        };
        cpu.pc = cpu.pc.wrapping_add(4);
        if cpu.execute(inst).is_err() {
            break;
        }
        if cpu.pc == 0 {
            break;
        }
    }
    cpu
}

// Register numbers by ABI name.
const V0: u32 = 2;
const V1: u32 = 3;
const A0: u32 = 4;
const T0: u32 = 8;
const T1: u32 = 9;
const T2: u32 = 10;
const T3: u32 = 11;
const RA: u32 = 31;

#[test]
fn lui_ori_build_a_word() {
    let cpu = run_words(
        &[
            i_type(0x0f, 0, T0, 0x1234),  // lui $t0, 0x1234
            i_type(0x0d, T0, T0, 0x5678),  // ori $t0, $t0, 0x5678
            HALT,
        ],
        10,
    );
    assert_eq!(cpu.regs[T0 as usize], 0x1234_5678);
}

#[test]
fn addiu_wraps_around_zero() {
    let cpu = run_words(
        &[
            i_type(0x0f, 0, T0, 0xffff),  // lui $t0, 0xffff
            i_type(0x0d, T0, T0, 0xffff),  // ori $t0, $t0, 0xffff -> 0xffffffff
            i_type(0x09, T0, T1, 1),  // addiu $t1, $t0, 1
            HALT,
        ],
        10,
    );
    assert_eq!(cpu.regs[T0 as usize], 0xffff_ffff);
    assert_eq!(cpu.regs[T1 as usize], 0x0000_0000);
}

#[test]
fn beq_taken_runs_delay_slot_and_skips_one() {
    let cpu = run_words(
        &[
            i_type(0x04, 0, 0, 2),  // beq $zero, $zero, +2
            i_type(0x0d, 0, V0, 0x1),  // ori $v0, $zero, 1  (delay slot: runs)
            i_type(0x0d, 0, V1, 0x2),  // ori $v1, $zero, 2  (skipped)
            i_type(0x0d, 0, A0, 0x3),  // ori $a0, $zero, 3  (branch target)
            HALT,
        ],
        10,
    );
    assert_eq!(cpu.regs[V0 as usize], 1);
    assert_eq!(cpu.regs[V1 as usize], 0);
    assert_eq!(cpu.regs[A0 as usize], 3);
}

#[test]
fn beq_not_taken_falls_through() {
    let cpu = run_words(
        &[
            i_type(0x0d, 0, T0, 1),  // ori $t0, $zero, 1
            i_type(0x04, 0, T0, 2),  // beq $zero, $t0, +2 (not taken)
            i_type(0x0d, 0, V0, 0x1),
            i_type(0x0d, 0, V1, 0x2),
            i_type(0x0d, 0, A0, 0x3),
            HALT,
        ],
        10,
    );
    assert_eq!(cpu.regs[V0 as usize], 1);
    assert_eq!(cpu.regs[V1 as usize], 2);
    assert_eq!(cpu.regs[A0 as usize], 3);
}

#[test]
fn jal_writes_return_address_and_jumps() {
    // At PC 0xbfc00000: jal to virtual 0xbfc00010 (word index 4).
    let target = (0x0fc0_0010u32) >> 2;
    let cpu = run_words(
        &[
            j_type(0x03, target),  // jal 0xbfc00010
            i_type(0x0d, 0, V0, 0x1),  // delay slot: runs
            i_type(0x0d, 0, V1, 0x2),  // skipped
            i_type(0x0d, 0, T0, 0x4),  // skipped
            i_type(0x0d, 0, A0, 0x3),  // jump target
            HALT,
        ],
        10,
    );
    // ra = pc + 4 at execution time, where pc was already advanced past the
    // jal: that is P + 8 for the jal at P.
    assert_eq!(cpu.regs[RA as usize], 0xbfc0_0008);
    assert_eq!(cpu.regs[V0 as usize], 1);
    assert_eq!(cpu.regs[V1 as usize], 0);
    assert_eq!(cpu.regs[T0 as usize], 0);
    assert_eq!(cpu.regs[A0 as usize], 3);
}

#[test]
fn slt_signed_sltu_unsigned() {
    let cpu = run_words(
        &[
            i_type(0x0f, 0, T0, 0xffff),  // t0 = 0xffffffff (-1 signed)
            i_type(0x0d, T0, T0, 0xffff),
            i_type(0x0d, 0, T1, 1),  // t1 = 1
            r_type(0x2a, T0, T1, T2, 0),  // slt  $t2, $t0, $t1
            r_type(0x2b, T0, T1, T3, 0),  // sltu $t3, $t0, $t1
            HALT,
        ],
        10,
    );
    assert_eq!(cpu.regs[T2 as usize], 1);
    assert_eq!(cpu.regs[T3 as usize], 0);
}

#[test]
fn slti_signed_sltiu_unsigned() {
    let cpu = run_words(
        &[
            i_type(0x0f, 0, T0, 0xffff),  // t0 = 0xffffffff (-1 signed)
            i_type(0x0d, T0, T0, 0xffff),
            i_type(0x0a, T0, T2, 1),  // slti  $t2, $t0, 1  -> 1 (signed)
            i_type(0x0b, T0, T3, 1),  // sltiu $t3, $t0, 1  -> 0 (unsigned)
            HALT,
        ],
        10,
    );
    assert_eq!(cpu.regs[T2 as usize], 1);
    assert_eq!(cpu.regs[T3 as usize], 0);
}

#[test]
fn mult_splits_product_across_hi_lo() {
    let cpu = run_words(
        &[
            i_type(0x0f, 0, T0, 0xffff),  // t0 = 0xffffffff (-1)
            i_type(0x0d, T0, T0, 0xffff),
            i_type(0x0d, 0, T1, 2),  // t1 = 2
            r_type(0x18, T0, T1, 0, 0),  // mult $t0, $t1 -> product -2
            r_type(0x10, 0, 0, T2, 0),  // mfhi $t2
            r_type(0x12, 0, 0, T3, 0),  // mflo $t3
            HALT,
        ],
        10,
    );
    assert_eq!(cpu.regs[T2 as usize], 0xffff_ffff);
    assert_eq!(cpu.regs[T3 as usize], 0xffff_fffe);
}

#[test]
fn multu_is_unsigned() {
    let cpu = run_words(
        &[
            i_type(0x0f, 0, T0, 0xffff),  // t0 = 0xffffffff
            i_type(0x0d, T0, T0, 0xffff),
            i_type(0x0d, 0, T1, 2),  // t1 = 2
            r_type(0x19, T0, T1, 0, 0),  // multu: 0xffffffff * 2 = 0x1_fffffffe
            r_type(0x10, 0, 0, T2, 0),  // mfhi
            r_type(0x12, 0, 0, T3, 0),  // mflo
            HALT,
        ],
        10,
    );
    assert_eq!(cpu.regs[T2 as usize], 1);
    assert_eq!(cpu.regs[T3 as usize], 0xffff_fffe);
}

#[test]
fn div_truncates_toward_zero_and_rem_keeps_dividend_sign() {
    let cpu = run_words(
        &[
            i_type(0x0f, 0, T0, 0xffff),  // t0 = 0xfffffff9 (-7)
            i_type(0x0d, T0, T0, 0xfff9),
            i_type(0x0d, 0, T1, 2),  // t1 = 2
            r_type(0x1a, T0, T1, 0, 0),  // div $t0, $t1: -7 / 2
            r_type(0x10, 0, 0, T2, 0),  // mfhi: remainder -1
            r_type(0x12, 0, 0, T3, 0),  // mflo: quotient -3
            HALT,
        ],
        10,
    );
    assert_eq!(cpu.regs[T2 as usize], 0xffff_ffff);
    assert_eq!(cpu.regs[T3 as usize], 0xffff_fffd);
}

#[test]
fn div_by_zero_leaves_hi_lo_unchanged() {
    let cpu = run_words(
        &[
            i_type(0x0d, 0, T0, 7),  // t0 = 7
            r_type(0x11, T0, 0, 0, 0),  // mthi $t0
            r_type(0x13, T0, 0, 0, 0),  // mtlo $t0
            i_type(0x0d, 0, T1, 9),  // t1 = 9
            r_type(0x1a, T1, 0, 0, 0),  // div $t1, $zero
            r_type(0x1b, T1, 0, 0, 0),  // divu $t1, $zero
            r_type(0x10, 0, 0, T2, 0),  // mfhi
            r_type(0x12, 0, 0, T3, 0),  // mflo
            HALT,
        ],
        12,
    );
    assert_eq!(cpu.regs[T2 as usize], 7);
    assert_eq!(cpu.regs[T3 as usize], 7);
}

#[test]
fn divu_unsigned_quotient_and_remainder() {
    let cpu = run_words(
        &[
            i_type(0x0d, 0, T0, 7),
            i_type(0x0d, 0, T1, 2),
            r_type(0x1b, T0, T1, 0, 0),  // divu
            r_type(0x10, 0, 0, T2, 0),  // mfhi: 1
            r_type(0x12, 0, 0, T3, 0),  // mflo: 3
            HALT,
        ],
        10,
    );
    assert_eq!(cpu.regs[T2 as usize], 1);
    assert_eq!(cpu.regs[T3 as usize], 3);
}

#[test]
fn shifts_logical_and_arithmetic() {
    let cpu = run_words(
        &[
            i_type(0x0f, 0, T0, 0x8000),  // t0 = 0x80000000
            r_type(0x00, 0, T0, T1, 1),  // sll $t1, $t0, 1 -> 0 (bit falls off)
            r_type(0x02, 0, T0, T2, 4),  // srl $t2, $t0, 4 -> 0x08000000
            r_type(0x03, 0, T0, T3, 4),  // sra $t3, $t0, 4 -> 0xf8000000
            HALT,
        ],
        10,
    );
    assert_eq!(cpu.regs[T1 as usize], 0);
    assert_eq!(cpu.regs[T2 as usize], 0x0800_0000);
    assert_eq!(cpu.regs[T3 as usize], 0xf800_0000);
}

#[test]
fn variable_shifts_use_low_five_bits() {
    let cpu = run_words(
        &[
            i_type(0x0f, 0, T0, 0x8000),  // t0 = 0x80000000
            i_type(0x0d, 0, T1, 36),  // t1 = 36: shift amount 36 & 31 == 4
            r_type(0x06, T1, T0, T2, 0),  // srlv $t2, $t0, $t1 -> 0x08000000
            r_type(0x07, T1, T0, T3, 0),  // srav $t3, $t0, $t1 -> 0xf8000000
            HALT,
        ],
        10,
    );
    assert_eq!(cpu.regs[T2 as usize], 0x0800_0000);
    assert_eq!(cpu.regs[T3 as usize], 0xf800_0000);
}

#[test]
fn logic_ops_and_nor() {
    let cpu = run_words(
        &[
            i_type(0x0d, 0, T0, 0x00ff),
            i_type(0x0d, 0, T1, 0x0f0f),
            r_type(0x24, T0, T1, T2, 0),  // and -> 0x000f
            r_type(0x27, T0, T1, T3, 0),  // nor -> !(0x0fff) = 0xfffff000
            i_type(0x0e, T0, V0, 0x0f0f),  // xori -> 0x0ff0
            HALT,
        ],
        10,
    );
    assert_eq!(cpu.regs[T2 as usize], 0x000f);
    assert_eq!(cpu.regs[T3 as usize], 0xffff_f000);
    assert_eq!(cpu.regs[V0 as usize], 0x0ff0);
}

#[test]
fn clz_and_clo_counts() {
    let cpu = run_words(
        &[
            special2(0x20, 0, T0, 0),  // clz $t0, $zero -> 32
            i_type(0x0f, 0, T1, 0x0001),  // t1 = 0x00010000
            special2(0x20, T1, T2, 0),  // clz $t2, $t1 -> 15
            i_type(0x0f, 0, V0, 0xffff),  // v0 = 0xffffffff
            i_type(0x0d, V0, V0, 0xffff),
            special2(0x21, V0, T3, 0),  // clo $t3, $v0 -> 32
            HALT,
        ],
        10,
    );
    assert_eq!(cpu.regs[T0 as usize], 32);
    assert_eq!(cpu.regs[T2 as usize], 15);
    assert_eq!(cpu.regs[T3 as usize], 32);
}

#[test]
fn madd_accumulates_into_hi_lo() {
    let cpu = run_words(
        &[
            i_type(0x0d, 0, T0, 3),
            i_type(0x0d, 0, T1, 4),
            r_type(0x18, T0, T1, 0, 0),  // mult: hi:lo = 12
            special2(0x00, T0, T1, 0),  // madd: hi:lo = 24
            special2(0x02, T0, T1, T2),  // mul $t2, $t0, $t1 = 12
            r_type(0x12, 0, 0, T3, 0),  // mflo -> 24
            HALT,
        ],
        10,
    );
    assert_eq!(cpu.regs[T2 as usize], 12);
    assert_eq!(cpu.regs[T3 as usize], 24);
}

#[test]
fn bltzal_taken_writes_ra() {
    let cpu = run_words(
        &[
            i_type(0x0f, 0, T0, 0x8000),  // t0 = 0x80000000 (negative)
            i_type(0x01, T0, 0x10, 2),  // bltzal $t0, +2 (taken)
            i_type(0x0d, 0, V0, 1),  // delay slot
            i_type(0x0d, 0, V1, 2),  // skipped
            i_type(0x0d, 0, A0, 3),  // target
            HALT,
        ],
        10,
    );
    // The bltzal sat at 0xbfc00004; ra = that + 8.
    assert_eq!(cpu.regs[RA as usize], 0xbfc0_000c);
    assert_eq!(cpu.regs[V0 as usize], 1);
    assert_eq!(cpu.regs[V1 as usize], 0);
    assert_eq!(cpu.regs[A0 as usize], 3);
}

#[test]
fn bgezal_not_taken_skips_link() {
    let cpu = run_words(
        &[
            i_type(0x0f, 0, T0, 0x8000),  // t0 negative
            i_type(0x01, T0, 0x11, 2),  // bgezal $t0, +2 (not taken)
            i_type(0x0d, 0, V0, 1),
            i_type(0x0d, 0, V1, 2),
            HALT,
        ],
        10,
    );
    // Not taken: no link write, straight-line execution.
    assert_eq!(cpu.regs[RA as usize], 0);
    assert_eq!(cpu.regs[V0 as usize], 1);
    assert_eq!(cpu.regs[V1 as usize], 2);
}

#[test]
fn jr_and_jalr_jump_through_registers() {
    let cpu = run_words(
        &[
            i_type(0x0f, 0, T0, 0xbfc0),  // t0 = 0xbfc00010 (word index 4)
            i_type(0x0d, T0, T0, 0x0010),
            r_type(0x09, T0, 0, RA, 0),  // jalr $ra, $t0
            i_type(0x0d, 0, V0, 1),  // delay slot
            i_type(0x0d, 0, A0, 3),  // jump target (index 4)
            HALT,
        ],
        10,
    );
    // The jalr sat at 0xbfc00008; ra = that + 8.
    assert_eq!(cpu.regs[RA as usize], 0xbfc0_0010);
    assert_eq!(cpu.regs[V0 as usize], 1);
    assert_eq!(cpu.regs[A0 as usize], 3);
}

#[test]
fn register_zero_stays_zero_when_written() {
    let cpu = run_words(
        &[
            i_type(0x0d, 0, 0, 0x1234),  // ori $zero, $zero, 0x1234
            i_type(0x09, 0, 0, 0x1),  // addiu $zero, $zero, 1
            i_type(0x0d, 0, T0, 5),  // ori $t0, $zero, 5: reads 0
            HALT,
        ],
        10,
    );
    assert_eq!(cpu.regs[0], 0);
    assert_eq!(cpu.regs[T0 as usize], 5);
}

#[test]
fn unknown_opcode_stops_the_run() {
    let cpu = run_words(
        &[
            i_type(0x0d, 0, T0, 7),
            HALT,  // opcode 0x3f: decode error stops the driver
            i_type(0x0d, 0, T1, 9),  // never reached
        ],
        10,
    );
    assert_eq!(cpu.regs[T0 as usize], 7);
    assert_eq!(cpu.regs[T1 as usize], 0);
    // The PC sits just past the offending instruction.
    assert_eq!(cpu.pc, 0xbfc0_0008);
}

#[test]
fn empty_image_executes_as_nops() {
    let mut cpu = Cpu::new(Vec::new());
    for _ in 0..5 {
        let inst = cpu.fetch().unwrap();
        assert_eq!(inst, 0);  // sll $zero, $zero, 0
        cpu.pc = cpu.pc.wrapping_add(4);
        cpu.execute(inst).unwrap();
    }
    assert_eq!(cpu.pc, 0xbfc0_0014);
    for i in 0..32 {
        assert_eq!(cpu.regs[i], 0);
    }
}

#[test]
fn halt_convention_jr_to_zero() {
    let cpu = run_words(
        &[
            r_type(0x08, 0, 0, 0, 0),  // jr $zero
            i_type(0x0d, 0, V0, 1),  // delay slot
            i_type(0x0d, 0, V1, 2),  // never reached: pc becomes 0
        ],
        10,
    );
    assert_eq!(cpu.pc, 0);
    assert_eq!(cpu.regs[V0 as usize], 1);
    assert_eq!(cpu.regs[V1 as usize], 0);
}

#[test]
fn addu_and_subu_wrap() {
    let cpu = run_words(
        &[
            i_type(0x0f, 0, T0, 0xffff),  // t0 = 0xfffffffe
            i_type(0x0d, T0, T0, 0xfffe),
            i_type(0x0d, 0, T1, 3),  // t1 = 3
            r_type(0x21, T0, T1, T2, 0),  // addu $t2 = 0xfffffffe + 3 = 1
            r_type(0x23, T1, T0, T3, 0),  // subu $t3 = 3 - 0xfffffffe = 5
            HALT,
        ],
        10,
    );
    assert_eq!(cpu.regs[T2 as usize], 1);
    assert_eq!(cpu.regs[T3 as usize], 5);
}

#[test]
fn blez_and_bgtz_test_the_sign() {
    let cpu = run_words(
        &[
            i_type(0x06, 0, 0, 2),  // blez $zero, +2 (0 <= 0: taken)
            i_type(0x0d, 0, V0, 1),  // delay slot
            i_type(0x0d, 0, V1, 2),  // skipped
            i_type(0x07, 0, 0, 2),  // bgtz $zero, +2 (0 > 0 is false: not taken)
            i_type(0x0d, 0, A0, 3),
            i_type(0x0d, 0, T0, 4),  // falls through
            HALT,
        ],
        10,
    );
    assert_eq!(cpu.regs[V0 as usize], 1);
    assert_eq!(cpu.regs[V1 as usize], 0);
    assert_eq!(cpu.regs[A0 as usize], 3);
    assert_eq!(cpu.regs[T0 as usize], 4);
}

#[test]
fn sllv_uses_low_five_bits() {
    let cpu = run_words(
        &[
            i_type(0x0d, 0, T0, 1),  // t0 = 1
            i_type(0x0d, 0, T1, 33),  // t1 = 33: shift amount 33 & 31 == 1
            r_type(0x04, T1, T0, T2, 0),  // sllv $t2, $t0, $t1 -> 2
            HALT,
        ],
        10,
    );
    assert_eq!(cpu.regs[T2 as usize], 2);
}

#[test]
fn failed_load_stops_the_run() {
    let cpu = run_words(
        &[
            i_type(0x0f, 0, T1, 0x9000),  // t1 = 0x90000000: KSEG0, past DRAM
            i_type(0x23, T1, T2, 0),  // lw $t2, 0($t1): memory error
            i_type(0x0d, 0, T3, 9),  // never reached
        ],
        10,
    );
    assert_eq!(cpu.regs[T2 as usize], 0);
    assert_eq!(cpu.regs[T3 as usize], 0);
    assert_eq!(cpu.pc, 0xbfc0_0008);
}

#[test]
fn unknown_special_funct_stops_the_run() {
    let cpu = run_words(
        &[
            i_type(0x0d, 0, T0, 7),
            r_type(0x3f, 0, 0, 0, 0),  // SPECIAL with unassigned funct
            i_type(0x0d, 0, T1, 9),  // never reached
        ],
        10,
    );
    assert_eq!(cpu.regs[T0 as usize], 7);
    assert_eq!(cpu.regs[T1 as usize], 0);
}

#[test]
fn unknown_regimm_selector_stops_the_run() {
    let cpu = run_words(
        &[
            i_type(0x0d, 0, T0, 7),
            i_type(0x01, 0, 0x05, 2),  // REGIMM with unassigned selector
            i_type(0x0d, 0, T1, 9),  // never reached
        ],
        10,
    );
    assert_eq!(cpu.regs[T0 as usize], 7);
    assert_eq!(cpu.regs[T1 as usize], 0);
}
