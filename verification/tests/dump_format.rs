//! Tests of the register-dump text: eight lines of four registers with ABI
//! names, each value as a right-aligned 18-character `0x...` hex field.

use mips_sim::cpu::Cpu;

const ABI: [&str; 32] = [
    "zero", "at", "v0", "v1", "a0", "a1", "a2", "a3", "t0", "t1", "t2", "t3", "t4", "t5", "t6",
    "t7", "s0", "s1", "s2", "s3", "s4", "s5", "s6", "s7", "t8", "t9", "k0", "k1", "gp", "sp",
    "fp", "ra",
];

fn expected_dump(regs: &[u32; 32]) -> String {
    let mut out = String::new();
    for i in 0..32 {
        if i % 4 == 0 {
            out.push('\n');
        } else {
            out.push(' ');
        }
        out += &format!("x{:02}({})={:>#18x}", i, ABI[i], regs[i]);
    }
    out
}

#[test]
fn dump_of_reset_state() {
    let cpu = Cpu::new(Vec::new());
    assert_eq!(cpu.dump_registers(), expected_dump(&[0u32; 32]));
}

#[test]
fn dump_matches_reference_format_for_varied_values() {
    let mut cpu = Cpu::new(Vec::new());
    let mut regs = [0u32; 32];
    regs[1] = 0x1;
    regs[8] = 0x1234_5678;
    regs[15] = 0xffff_ffff;
    regs[29] = 0x8001_fff0;
    regs[31] = 0xbfc0_0008;
    cpu.regs = regs;
    let dump = cpu.dump_registers();
    assert_eq!(dump, expected_dump(&regs));
    // Spot-check one full field: value 0x1 pads to 18 characters.
    assert!(dump.contains("x01(at)=               0x1 "));
}
